//! The state of the video player, and what commands do to it.
use vstd::prelude::*;
use vstd::string::*;
use crate::controls;
use crate::controls::{KeyCode, KeyEvent, KeyModifiers, PlayerCommand};
use crate::status;
use crate::status::{Status, StatusState};
use crate::text;
use crate::text::push_decimal;
use crate::timestamp;
use crate::timestamp::format_time_ms;
use crate::video_layout::{VideoDisplaySize, VideoTerminalLayout};

verus! {

/// The loudest volume, in percent.
pub const MAX_VOLUME_PERCENT: u32 = 200;

/// The room for frames and notices on the way to the thread that draws.
pub const FRAME_ROOM_WITH_AUDIO: usize = 1024;

pub const FRAME_ROOM_WITHOUT_AUDIO: usize = 16;

/// Where the player stands. Every jump starts a new generation, and frames
/// before `drop_until_ms` are left out after it.
#[derive(Debug, Clone, Copy, PartialEq, Eq, Structural)]
pub struct PlaybackState {
    pub terminal_layout: VideoTerminalLayout,
    pub display_size: VideoDisplaySize,
    pub duration_ms: Option<u64>,
    pub volume_percent: u32,
    pub generation: u64,
    pub drop_until_ms: Option<u64>,
}

/// What the thread that draws is told besides frames.
#[derive(Debug, Clone, Copy, PartialEq, Eq, Structural)]
pub enum RenderNotice {
    Layout(VideoTerminalLayout),
    Reset { generation: u64 },
    RedrawStatus,
    Quit,
}

/// What has to be done for a command, in order.
#[derive(Debug, Clone, Copy, PartialEq, Eq, Structural)]
pub enum PlayerAction {
    FlushVideoDecoder,
    FlushAudioDecoder,
    /// Throw away the audio that is queued, and start its clock anew.
    ResetAudio,
    PublishGeneration(u64),
    PublishPosition(u64),
    PublishVolume(u32),
    /// Frames have a new size: a new buffer, and a new scaler with the next frame.
    ReplaceFrameBuffer(VideoDisplaySize),
    StopPlayback,
    /// Tell the thread that draws, and wait for room.
    Notify(RenderNotice),
    /// Tell the thread that draws, unless there is no room.
    TryNotify(RenderNotice),
}

/// What a command that waits will meet: where playback stands, whether a jump
/// succeeds, and the size at which the video fits a new layout.
pub struct CommandInput {
    pub command: PlayerCommand,
    pub position_ms: u64,
    pub seek_succeeds: bool,
    pub display_size: VideoDisplaySize,
}

/// What has become of a row of commands: how many were taken up, and whether the
/// last of them ended playback.
pub struct CommandRun {
    pub playback: PlaybackState,
    pub status: Status,
    pub taken: nat,
    pub ended: bool,
}

/// A jump that is to be tried.
#[derive(Debug, Clone)]
pub struct SeekRequest {
    pub target_ms: u64,
    pub message: Option<String>,
}

/// What a command asks for.
#[derive(Debug, Clone)]
pub enum CommandStep {
    /// Try the jump, and report it to [`PlaybackState::finish_seek`].
    Seek(SeekRequest),
    /// Fit the video into a layout, and report it to
    /// [`PlaybackState::finish_resize`].
    Fit(VideoTerminalLayout),
    /// Go on after these actions.
    Continue(Vec<PlayerAction>),
    /// Stop after these actions.
    Stop(Vec<PlayerAction>),
}

/// What became of a jump. A failed jump ends playback with an error.
#[derive(Debug, Clone)]
pub struct SeekOutcome {
    pub failed: bool,
    pub actions: Vec<PlayerAction>,
}

/// A jump never goes beyond the end of a video whose length is known.
pub open spec fn clamped_ms(target_ms: int, duration_ms: Option<u64>) -> int {
    match duration_ms {
        Some(duration) => if target_ms < duration {
            target_ms
        } else {
            duration as int
        },
        None => target_ms,
    }
}

/// Keeps a jump within a video.
pub fn clamp_seek_ms(target_ms: u64, duration_ms: Option<u64>) -> (ms: u64)
    ensures
        ms == clamped_ms(target_ms as int, duration_ms),
{
    match duration_ms {
        Some(duration) => if target_ms < duration {
            target_ms
        } else {
            duration
        },
        None => target_ms,
    }
}

/// A value brought into a range.
pub open spec fn clamped(value: int, low: int, high: int) -> int {
    if value < low {
        low
    } else if value > high {
        high
    } else {
        value
    }
}

/// Turns the volume up or down, from silence to twice the recorded loudness.
pub fn adjust_volume_percent(current: u32, delta: i32) -> (percent: u32)
    requires
        i32::MIN <= (current as i32) + delta <= i32::MAX,
    ensures
        percent == clamped((current as i32) + delta, 0, MAX_VOLUME_PERCENT as int),
{
    let wanted: i32 = (current as i32) + delta;
    if wanted < 0 {
        0
    } else if wanted > 200 {
        200
    } else {
        wanted as u32
    }
}

/// Whether a frame still belongs before the target of the last jump. A frame
/// without a time never does.
pub fn should_drop_before_target(drop_until_ms: Option<u64>, pts_ms: Option<u64>) -> (drop: bool)
    ensures
        drop == (drop_until_ms is Some && pts_ms is Some && pts_ms->0 < drop_until_ms->0),
{
    match (drop_until_ms, pts_ms) {
        (Some(target_ms), Some(pts_ms)) => pts_ms < target_ms,
        _ => false,
    }
}

/// The time that lies `delta_ms` from a position, not before the start.
pub open spec fn relative_target(position_ms: u64, delta_ms: i64) -> int {
    clamped(position_ms + delta_ms, 0, u64::MAX as int)
}

/// The size of a step, without its direction.
pub open spec fn magnitude(delta_ms: i64) -> nat {
    if delta_ms < 0 {
        (-delta_ms) as nat
    } else {
        delta_ms as nat
    }
}

/// What the message tells of a step, in seconds.
pub open spec fn seek_message(delta_ms: i64) -> Seq<char> {
    "Seek "@ + (if delta_ms >= 0 {
        "+"@
    } else {
        "-"@
    }) + text::decimal(magnitude(delta_ms) / 1000) + "s"@
}

/// What the message tells of a volume.
pub open spec fn volume_message(percent: u32) -> Seq<char> {
    "Volume "@ + text::decimal(percent as nat) + "%"@
}

fn step_size(delta_ms: i64) -> (size: u64)
    ensures
        size == magnitude(delta_ms),
{
    if delta_ms >= 0 {
        delta_ms as u64
    } else if delta_ms == i64::MIN {
        0x8000_0000_0000_0000
    } else {
        (-delta_ms) as u64
    }
}

fn relative_seek_message(delta_ms: i64) -> (message: String)
    ensures
        message@ == seek_message(delta_ms),
{
    let mut message: String = "Seek ".to_owned();
    if delta_ms >= 0 {
        message.append("+");
    } else {
        message.append("-");
    }
    push_decimal(&mut message, step_size(delta_ms) / 1000);
    message.append("s");
    assert(message@ =~= seek_message(delta_ms));
    message
}

/// The status after a jump: the new position, no entry, and the message where
/// the jump has one.
pub open spec fn status_after_seek(
    status: Status,
    target_ms: u64,
    message: Option<Seq<char>>,
) -> Status {
    Status {
        current_ms: target_ms,
        message: match message {
            Some(message) => message,
            None => status.message,
        },
        input: None,
        ..status
    }
}

/// The status with another message.
pub open spec fn with_message(status: Status, message: Seq<char>) -> Status {
    Status { message, ..status }
}

/// The status after a change of the volume.
pub open spec fn status_after_volume(status: Status, percent: u32) -> Status {
    Status { volume_percent: percent, message: volume_message(percent), ..status }
}

/// What the message tells of a command that jumps.
pub open spec fn command_message(command: PlayerCommand) -> Seq<char> {
    match command {
        PlayerCommand::SeekBy(delta_ms) => seek_message(delta_ms),
        PlayerCommand::SeekTo(target_ms) => "Goto "@ + timestamp::time_text(target_ms as nat),
        _ => seq![],
    }
}

/// The status after a command that was taken up in the state `playback`.
pub open spec fn status_after_command(
    status: Status,
    playback: PlaybackState,
    input: CommandInput,
) -> Status {
    match input.command {
        PlayerCommand::VolumeBy(delta) => status_after_volume(
            status,
            playback.after_volume(delta).volume_percent,
        ),
        PlayerCommand::Resize(_) => with_message(status, "Resized"@),
        PlayerCommand::Quit => status,
        _ => if input.seek_succeeds {
            status_after_seek(
                status,
                playback.seek_target(input.command, input.position_ms)->0,
                Some(command_message(input.command)),
            )
        } else {
            with_message(status, "Seek failed"@)
        },
    }
}

/// Quitting ends playback, and so does a jump that fails.
pub open spec fn ends_playback(input: CommandInput) -> bool {
    ||| input.command is Quit
    ||| (input.command is SeekBy || input.command is SeekTo) && !input.seek_succeeds
}

/// What becomes of a row of commands that wait: they are taken up in order, up to
/// the first one that ends playback.
pub open spec fn run_commands(
    playback: PlaybackState,
    status: Status,
    inputs: Seq<CommandInput>,
) -> CommandRun
    decreases inputs.len(),
{
    if inputs.len() == 0 {
        CommandRun { playback, status, taken: 0, ended: false }
    } else {
        let before = run_commands(playback, status, inputs.drop_last());
        if before.ended {
            before
        } else {
            CommandRun {
                playback: before.playback.after_command(inputs.last()),
                status: status_after_command(before.status, before.playback, inputs.last()),
                taken: before.taken + 1,
                ended: ends_playback(inputs.last()),
            }
        }
    }
}

/// What is done after a jump that succeeded. Audio is only flushed and reset
/// where it is being played.
pub open spec fn seek_actions(generation: u64, target_ms: u64, audio: bool) -> Seq<PlayerAction> {
    seq![PlayerAction::FlushVideoDecoder] + (if audio {
        seq![PlayerAction::FlushAudioDecoder, PlayerAction::ResetAudio]
    } else {
        seq![]
    }) + seq![
        PlayerAction::PublishGeneration(generation),
        PlayerAction::PublishPosition(target_ms),
        PlayerAction::Notify(RenderNotice::Reset { generation }),
        PlayerAction::TryNotify(RenderNotice::RedrawStatus),
    ]
}

/// What is done after a change of the volume.
pub open spec fn volume_actions(percent: u32) -> Seq<PlayerAction> {
    seq![
        PlayerAction::PublishVolume(percent),
        PlayerAction::TryNotify(RenderNotice::RedrawStatus),
    ]
}

/// What is done to quit.
pub open spec fn quit_actions() -> Seq<PlayerAction> {
    seq![PlayerAction::StopPlayback, PlayerAction::TryNotify(RenderNotice::Quit)]
}

/// What is done after a change of the layout. Frames only change with their size.
pub open spec fn resize_actions(
    before: VideoDisplaySize,
    after: VideoDisplaySize,
    layout: VideoTerminalLayout,
) -> Seq<PlayerAction> {
    (if after != before {
        seq![PlayerAction::ReplaceFrameBuffer(after)]
    } else {
        seq![]
    }) + seq![PlayerAction::Notify(RenderNotice::Layout(layout))]
}

/// The generation after `generation`; the last one is kept.
pub open spec fn next_generation(generation: u64) -> u64 {
    if generation == u64::MAX {
        generation
    } else {
        (generation + 1) as u64
    }
}

impl PlaybackState {
    /// The target of a command that jumps.
    pub open spec fn seek_target(self, command: PlayerCommand, position_ms: u64) -> Option<u64> {
        match command {
            PlayerCommand::SeekBy(delta_ms) => Some(
                clamped_ms(relative_target(position_ms, delta_ms), self.duration_ms) as u64,
            ),
            PlayerCommand::SeekTo(target_ms) => Some(
                clamped_ms(target_ms as int, self.duration_ms) as u64,
            ),
            _ => None,
        }
    }

    /// The state after a jump that succeeded.
    pub open spec fn after_seek(self, target_ms: u64) -> PlaybackState {
        PlaybackState {
            generation: next_generation(self.generation),
            drop_until_ms: Some(target_ms),
            ..self
        }
    }

    /// The state after a change of the volume.
    pub open spec fn after_volume(self, delta: i32) -> PlaybackState {
        PlaybackState {
            volume_percent: clamped(
                (self.volume_percent as i32) + delta,
                0,
                MAX_VOLUME_PERCENT as int,
            ) as u32,
            ..self
        }
    }

    /// The state after a change of the layout.
    pub open spec fn after_resize(
        self,
        layout: VideoTerminalLayout,
        display_size: VideoDisplaySize,
    ) -> PlaybackState {
        PlaybackState { terminal_layout: layout, display_size, ..self }
    }

    /// The state after a command.
    pub open spec fn after_command(self, input: CommandInput) -> PlaybackState {
        match input.command {
            PlayerCommand::VolumeBy(delta) => self.after_volume(delta),
            PlayerCommand::Resize(geometry) => self.after_resize(
                VideoTerminalLayout::of(geometry),
                input.display_size,
            ),
            PlayerCommand::Quit => self,
            _ => if input.seek_succeeds {
                self.after_seek(self.seek_target(input.command, input.position_ms)->0)
            } else {
                self
            },
        }
    }

    /// The volume is in range, and frames are not awaited beyond the end.
    pub open spec fn wf(self) -> bool {
        &&& self.volume_percent <= MAX_VOLUME_PERCENT
        &&& self.drop_until_ms matches Some(until) ==> (self.duration_ms matches Some(duration)
            ==> until <= duration)
    }

    /// The state before the first command.
    pub open spec fn initial(
        terminal_layout: VideoTerminalLayout,
        display_size: VideoDisplaySize,
        duration_ms: Option<u64>,
    ) -> PlaybackState {
        PlaybackState {
            terminal_layout,
            display_size,
            duration_ms,
            volume_percent: 100,
            generation: 0,
            drop_until_ms: None,
        }
    }

    /// Playback from the start, at the recorded volume.
    pub fn start(
        terminal_layout: VideoTerminalLayout,
        display_size: VideoDisplaySize,
        duration_ms: Option<u64>,
    ) -> (playback: Self)
        ensures
            playback.wf(),
            playback == (PlaybackState {
                terminal_layout,
                display_size,
                duration_ms,
                volume_percent: 100,
                generation: 0,
                drop_until_ms: None,
            }),
            playback == Self::initial(terminal_layout, display_size, duration_ms),
    {
        PlaybackState {
            terminal_layout,
            display_size,
            duration_ms,
            volume_percent: 100,
            generation: 0,
            drop_until_ms: None,
        }
    }

    /// A jump to a time, kept within the video.
    pub fn seek_to(&self, target_ms: u64, message: Option<String>) -> (request: SeekRequest)
        ensures
            request.target_ms == clamped_ms(target_ms as int, self.duration_ms),
            request.message == message,
    {
        SeekRequest { target_ms: clamp_seek_ms(target_ms, self.duration_ms), message }
    }

    /// Takes up a command. `position_ms` is where playback stands.
    pub fn begin_command(
        &mut self,
        command: PlayerCommand,
        position_ms: u64,
        status: &mut StatusState,
    ) -> (step: CommandStep)
        requires
            command matches PlayerCommand::VolumeBy(delta) ==> i32::MIN <= (old(
                self,
            ).volume_percent as i32) + delta <= i32::MAX,
        ensures
            old(self).wf() ==> final(self).wf(),
            command is SeekBy || command is SeekTo ==> {
                &&& *final(self) == *old(self)
                &&& final(status)@ == old(status)@
                &&& step matches CommandStep::Seek(request)
                &&& Some(request.target_ms) == old(self).seek_target(command, position_ms)
                &&& status::optional_text(request.message) == Some(command_message(command))
            },
            command matches PlayerCommand::VolumeBy(delta) ==> {
                let percent = old(self).after_volume(delta).volume_percent;
                &&& *final(self) == old(self).after_volume(delta)
                &&& final(status)@ == status_after_volume(old(status)@, percent)
                &&& step matches CommandStep::Continue(actions)
                &&& actions@ == seq![
                    PlayerAction::PublishVolume(percent),
                    PlayerAction::TryNotify(RenderNotice::RedrawStatus),
                ]
                &&& actions@ == volume_actions(percent)
            },
            command matches PlayerCommand::Resize(geometry) ==> {
                &&& *final(self) == *old(self)
                &&& final(status)@ == old(status)@
                &&& step matches CommandStep::Fit(layout)
                &&& layout == VideoTerminalLayout::of(geometry)
                &&& layout.wf()
            },
            command is Quit ==> {
                &&& *final(self) == *old(self)
                &&& final(status)@ == old(status)@
                &&& step matches CommandStep::Stop(actions)
                &&& actions@ == seq![
                    PlayerAction::StopPlayback,
                    PlayerAction::TryNotify(RenderNotice::Quit),
                ]
                &&& actions@ == quit_actions()
            },
    {
        match command {
            PlayerCommand::SeekBy(delta_ms) => {
                let target_ms: u64 = if delta_ms < 0 {
                    position_ms.saturating_sub(step_size(delta_ms))
                } else {
                    position_ms.saturating_add(step_size(delta_ms))
                };
                CommandStep::Seek(self.seek_to(target_ms, Some(relative_seek_message(delta_ms))))
            },
            PlayerCommand::SeekTo(target_ms) => {
                let mut message: String = "Goto ".to_owned();
                message.append(format_time_ms(target_ms).as_str());
                CommandStep::Seek(self.seek_to(target_ms, Some(message)))
            },
            PlayerCommand::VolumeBy(delta) => {
                let percent: u32 = adjust_volume_percent(self.volume_percent, delta);
                self.volume_percent = percent;
                let mut message: String = "Volume ".to_owned();
                push_decimal(&mut message, percent as u64);
                message.append("%");
                status.volume_percent = percent;
                status.message = message;
                let mut actions: Vec<PlayerAction> = Vec::new();
                actions.push(PlayerAction::PublishVolume(percent));
                actions.push(PlayerAction::TryNotify(RenderNotice::RedrawStatus));
                assert(actions@ =~= seq![
                    PlayerAction::PublishVolume(percent),
                    PlayerAction::TryNotify(RenderNotice::RedrawStatus),
                ]);
                CommandStep::Continue(actions)
            },
            PlayerCommand::Resize(geometry) => {
                CommandStep::Fit(VideoTerminalLayout::from_geometry(geometry))
            },
            PlayerCommand::Quit => {
                let mut actions: Vec<PlayerAction> = Vec::new();
                actions.push(PlayerAction::StopPlayback);
                actions.push(PlayerAction::TryNotify(RenderNotice::Quit));
                assert(actions@ =~= seq![
                    PlayerAction::StopPlayback,
                    PlayerAction::TryNotify(RenderNotice::Quit),
                ]);
                CommandStep::Stop(actions)
            },
        }
    }

    /// Takes note of a jump that was tried. `audio` tells whether audio is being
    /// played.
    pub fn finish_seek(
        &mut self,
        request: SeekRequest,
        succeeded: bool,
        audio: bool,
        status: &mut StatusState,
    ) -> (outcome: SeekOutcome)
        ensures
            outcome.failed == !succeeded,
            old(self).wf() && request.target_ms == clamped_ms(
                request.target_ms as int,
                old(self).duration_ms,
            ) ==> final(self).wf(),
            succeeded ==> {
                &&& *final(self) == old(self).after_seek(request.target_ms)
                &&& final(status)@ == status_after_seek(
                    old(status)@,
                    request.target_ms,
                    status::optional_text(request.message),
                )
                &&& outcome.actions@ == seek_actions(
                    next_generation(old(self).generation),
                    request.target_ms,
                    audio,
                )
            },
            !succeeded ==> {
                &&& *final(self) == *old(self)
                &&& final(status)@ == with_message(old(status)@, "Seek failed"@)
                &&& outcome.actions@ == seq![PlayerAction::TryNotify(RenderNotice::RedrawStatus)]
            },
    {
        let mut actions: Vec<PlayerAction> = Vec::new();
        if !succeeded {
            status.message = "Seek failed".to_owned();
            actions.push(PlayerAction::TryNotify(RenderNotice::RedrawStatus));
            assert(actions@ =~= seq![PlayerAction::TryNotify(RenderNotice::RedrawStatus)]);
            return SeekOutcome { failed: true, actions };
        }
        actions.push(PlayerAction::FlushVideoDecoder);
        if audio {
            actions.push(PlayerAction::FlushAudioDecoder);
            actions.push(PlayerAction::ResetAudio);
        }
        let target_ms: u64 = request.target_ms;
        let generation: u64 = self.generation.saturating_add(1);
        self.generation = generation;
        self.drop_until_ms = Some(target_ms);
        status.current_ms = target_ms;
        status.input_buffer = None;
        match request.message {
            Some(message) => {
                status.message = message;
            },
            None => {},
        }
        actions.push(PlayerAction::PublishGeneration(generation));
        actions.push(PlayerAction::PublishPosition(target_ms));
        actions.push(PlayerAction::Notify(RenderNotice::Reset { generation }));
        actions.push(PlayerAction::TryNotify(RenderNotice::RedrawStatus));
        assert(actions@ =~= seek_actions(generation, target_ms, audio));
        SeekOutcome { failed: false, actions }
    }

    /// Takes note of a new layout, and of the size at which the video fits it.
    pub fn finish_resize(
        &mut self,
        layout: VideoTerminalLayout,
        display_size: VideoDisplaySize,
        status: &mut StatusState,
    ) -> (actions: Vec<PlayerAction>)
        ensures
            old(self).wf() ==> final(self).wf(),
            *final(self) == old(self).after_resize(layout, display_size),
            final(status)@ == with_message(old(status)@, "Resized"@),
            actions@ == (if display_size != old(self).display_size {
                seq![PlayerAction::ReplaceFrameBuffer(display_size)]
            } else {
                seq![]
            }) + seq![PlayerAction::Notify(RenderNotice::Layout(layout))],
            actions@ == resize_actions(old(self).display_size, display_size, layout),
    {
        let mut actions: Vec<PlayerAction> = Vec::new();
        self.terminal_layout = layout;
        if display_size != self.display_size {
            self.display_size = display_size;
            actions.push(PlayerAction::ReplaceFrameBuffer(display_size));
        }
        status.message = "Resized".to_owned();
        actions.push(PlayerAction::Notify(RenderNotice::Layout(layout)));
        assert(actions@ =~= (if display_size != old(self).display_size {
            seq![PlayerAction::ReplaceFrameBuffer(display_size)]
        } else {
            seq![]
        }) + seq![PlayerAction::Notify(RenderNotice::Layout(layout))]);
        actions
    }

    /// The time of a decoded video frame that is to be shown; `None` for one
    /// that is to be left out. A frame without a time of its own counts as being
    /// where playback stands.
    pub fn video_frame_time(&self, pts_ms: Option<u64>, position_ms: u64) -> (shown: Option<u64>)
        ensures
            ({
                let time = match pts_ms {
                    Some(ms) => ms,
                    None => position_ms,
                };
                shown == (if self.drop_until_ms is Some && time < self.drop_until_ms->0 {
                    None
                } else {
                    Some(time)
                })
            }),
    {
        let time: u64 = match pts_ms {
            Some(ms) => ms,
            None => position_ms,
        };
        if should_drop_before_target(self.drop_until_ms, Some(time)) {
            None
        } else {
            Some(time)
        }
    }

    /// Whether the audio of a decoded frame is to be left out.
    pub fn drops_audio(&self, pts_ms: Option<u64>) -> (drop: bool)
        ensures
            drop == (self.drop_until_ms is Some && pts_ms is Some && pts_ms->0
                < self.drop_until_ms->0),
    {
        should_drop_before_target(self.drop_until_ms, pts_ms)
    }
}

/// How many frames and notices can be on the way to the thread that draws.
pub open spec fn room_for_frames(has_audio: bool) -> usize {
    if has_audio {
        FRAME_ROOM_WITH_AUDIO
    } else {
        FRAME_ROOM_WITHOUT_AUDIO
    }
}

/// The room on the way to the thread that draws.
pub fn frame_room(has_audio: bool) -> (room: usize)
    ensures
        room == (if has_audio {
            FRAME_ROOM_WITH_AUDIO
        } else {
            FRAME_ROOM_WITHOUT_AUDIO
        }),
        room == room_for_frames(has_audio),
{
    if has_audio {
        FRAME_ROOM_WITH_AUDIO
    } else {
        FRAME_ROOM_WITHOUT_AUDIO
    }
}

/// Stepping forward and back by the same time returns to where one was, unless a
/// step ran into either end of the range of times.
pub proof fn opposite_steps_cancel(position_ms: u64, delta_ms: i64)
    requires
        delta_ms > i64::MIN,
        0 <= position_ms + delta_ms <= u64::MAX,
    ensures
        relative_target(
            relative_target(position_ms, delta_ms) as u64,
            (-delta_ms) as i64,
        ) == position_ms,
{
}

/// However often the volume is changed, it stays between silence and twice the
/// recorded loudness; and a change that does not run into either end can be
/// taken back.
pub proof fn volume_stays_in_range(percent: u32, delta: i32)
    requires
        percent <= MAX_VOLUME_PERCENT,
    ensures
        0 <= clamped((percent as i32) + delta, 0, MAX_VOLUME_PERCENT as int) <= MAX_VOLUME_PERCENT,
        0 <= percent + delta <= MAX_VOLUME_PERCENT ==> clamped(
            (clamped((percent as i32) + delta, 0, MAX_VOLUME_PERCENT as int) as u32 as i32)
                - delta,
            0,
            MAX_VOLUME_PERCENT as int,
        ) == percent,
{
}

/// No jump leaves a video whose length is known, and one to a time within it is
/// not moved.
pub proof fn jumps_stay_within_the_video(target_ms: int, duration_ms: u64)
    requires
        0 <= target_ms,
    ensures
        0 <= clamped_ms(target_ms, Some(duration_ms)) <= duration_ms,
        target_ms <= duration_ms ==> clamped_ms(target_ms, Some(duration_ms)) == target_ms,
{
}

/// A jump that succeeds starts a generation of its own, as long as there are
/// numbers left, and nothing before its target is shown from there on.
pub proof fn jump_starts_a_generation(before: PlaybackState, target_ms: u64)
    requires
        before.generation < u64::MAX,
    ensures
        before.after_seek(target_ms).generation > before.generation,
        before.after_seek(target_ms).drop_until_ms == Some(target_ms),
        before.wf() && target_ms == clamped_ms(target_ms as int, before.duration_ms)
            ==> before.after_seek(target_ms).wf(),
{
}

/// Commands that wait are taken up in order, up to the first one that ends
/// playback: that one is the last, and those behind it change nothing. Where none
/// ends playback, all are taken up.
pub proof fn commands_run_up_to_the_first_end(
    playback: PlaybackState,
    status: Status,
    inputs: Seq<CommandInput>,
)
    ensures
        ({
            let run = run_commands(playback, status, inputs);
            &&& run.taken <= inputs.len()
            &&& forall|i: int| 0 <= i < run.taken - 1 ==> !ends_playback(#[trigger] inputs[i])
            &&& run.ended ==> run.taken > 0 && ends_playback(inputs[run.taken - 1])
            &&& !run.ended ==> run.taken == inputs.len() && forall|i: int|
                0 <= i < inputs.len() ==> !ends_playback(#[trigger] inputs[i])
            &&& run == run_commands(playback, status, inputs.take(run.taken as int))
        }),
    decreases inputs.len(),
{
    let run = run_commands(playback, status, inputs);
    if inputs.len() == 0 {
        assert(inputs.take(0) =~= inputs);
    } else {
        let shorter = inputs.drop_last();
        let before = run_commands(playback, status, shorter);
        commands_run_up_to_the_first_end(playback, status, shorter);
        assert forall|i: int| 0 <= i < shorter.len() implies shorter[i] == #[trigger] inputs[i] by {
        }
        if before.ended {
            assert(shorter[before.taken - 1] == inputs[before.taken - 1]);
            assert(inputs.take(run.taken as int) =~= shorter.take(run.taken as int));
        } else {
            assert(inputs.take(run.taken as int) =~= inputs);
        }
    }
}

/// The first command to quit is taken up, unless a jump before it fails, and none
/// behind it is, whatever they are.
pub proof fn nothing_follows_quitting(
    playback: PlaybackState,
    status: Status,
    inputs: Seq<CommandInput>,
    k: int,
)
    requires
        0 <= k < inputs.len(),
        inputs[k].command is Quit,
        forall|i: int| 0 <= i < k ==> !ends_playback(#[trigger] inputs[i]),
    ensures
        ({
            let run = run_commands(playback, status, inputs);
            &&& run.ended
            &&& run.taken == k + 1
            &&& run.playback == run_commands(playback, status, inputs.take(k)).playback
            &&& run.status == run_commands(playback, status, inputs.take(k)).status
        }),
{
    let run = run_commands(playback, status, inputs);
    commands_run_up_to_the_first_end(playback, status, inputs);
    assert(ends_playback(inputs[k]));
    assert(run.ended);
    if run.taken - 1 < k {
        assert(!ends_playback(inputs[run.taken - 1]));
    }
    assert(run.taken == k + 1);
    assert(inputs.take(k + 1).drop_last() =~= inputs.take(k));
    assert(inputs.take(k + 1).last() == inputs[k]);
    commands_run_up_to_the_first_end(playback, status, inputs.take(k));
    assert(!run_commands(playback, status, inputs.take(k)).ended) by {
        let short = run_commands(playback, status, inputs.take(k));
        if short.ended {
            assert(inputs.take(k)[short.taken - 1] == inputs[short.taken - 1]);
        }
    }
}

/// Commands keep the volume in range and the awaited frames within the video, and
/// no generation comes back.
pub proof fn commands_keep_playback_valid(
    playback: PlaybackState,
    status: Status,
    inputs: Seq<CommandInput>,
)
    requires
        playback.wf(),
    ensures
        run_commands(playback, status, inputs).playback.wf(),
        run_commands(playback, status, inputs).playback.generation >= playback.generation,
        run_commands(playback, status, inputs).playback.duration_ms == playback.duration_ms,
    decreases inputs.len(),
{
    if inputs.len() > 0 {
        commands_keep_playback_valid(playback, status, inputs.drop_last());
    }
}

/// A relative jump goes exactly as far as asked for. Only where it would leave the
/// video is it shortened: to the start, or to the end of a video whose length is
/// known.
pub proof fn relative_jumps_go_as_far_as_asked(
    playback: PlaybackState,
    position_ms: u64,
    delta_ms: i64,
)
    ensures
        playback.seek_target(PlayerCommand::SeekBy(delta_ms), position_ms) matches Some(target) && {
            let wanted = position_ms + delta_ms;
            &&& wanted < 0 ==> target == 0
            &&& playback.duration_ms matches Some(duration) ==> {
                &&& 0 <= wanted <= duration ==> target == wanted
                &&& wanted > duration ==> target == duration
            }
            &&& playback.duration_ms is None ==> {
                &&& 0 <= wanted <= u64::MAX ==> target == wanted
                &&& wanted > u64::MAX ==> target == u64::MAX
            }
        },
{
}

/// A jump to a time goes exactly there, or to the end of a video that is known to
/// be shorter; where playback stands does not matter. No other command jumps.
pub proof fn jumps_to_a_time_go_there(
    playback: PlaybackState,
    position_ms: u64,
    target_ms: u64,
    command: PlayerCommand,
)
    ensures
        playback.seek_target(PlayerCommand::SeekTo(target_ms), position_ms) == Some(
            if playback.duration_ms is Some && playback.duration_ms->0 < target_ms {
                playback.duration_ms->0
            } else {
                target_ms
            },
        ),
        playback.seek_target(command, position_ms) is Some <==> command is SeekBy || command
            is SeekTo,
{
}

/// Two steps in a row go as far as one of their sum, as long as neither leaves the
/// video.
pub proof fn steps_add_up(playback: PlaybackState, position_ms: u64, first_ms: i64, second_ms: i64)
    requires
        i64::MIN <= first_ms + second_ms <= i64::MAX,
        0 <= position_ms + first_ms <= u64::MAX,
        0 <= position_ms + first_ms + second_ms <= u64::MAX,
        playback.duration_ms matches Some(duration) ==> position_ms + first_ms <= duration
            && position_ms + first_ms + second_ms <= duration,
    ensures
        ({
            let halfway = playback.seek_target(PlayerCommand::SeekBy(first_ms), position_ms)->0;
            let whole = PlayerCommand::SeekBy((first_ms + second_ms) as i64);
            &&& playback.seek_target(PlayerCommand::SeekBy(second_ms), halfway)
                == playback.seek_target(whole, position_ms)
            &&& playback.seek_target(whole, position_ms) == Some(
                (position_ms + first_ms + second_ms) as u64,
            )
        }),
{
}

/// A change of the volume counts from the volume that is set. Only silence and
/// twice the recorded loudness end it; everything else stays as it is.
pub proof fn volume_changes_from_where_it_is(playback: PlaybackState, delta: i32)
    requires
        playback.volume_percent <= 200,
    ensures
        ({
            let after = playback.after_volume(delta);
            let wanted = playback.volume_percent + delta;
            &&& 0 <= wanted <= 200 ==> after.volume_percent == wanted
            &&& wanted < 0 ==> after.volume_percent == 0
            &&& wanted > 200 ==> after.volume_percent == 200
            &&& after == (PlaybackState { volume_percent: after.volume_percent, ..playback })
        }),
{
}

/// The sum of the first `n` steps of a row.
pub open spec fn sum_of_steps(steps: Seq<i32>, n: int) -> int
    decreases n,
{
    if n <= 0 {
        0
    } else {
        sum_of_steps(steps, n - 1) + steps[n - 1]
    }
}

/// A row of steps of the volume that stays within the range changes the volume by
/// their sum, and the status row tells the volume that is played.
pub proof fn volume_steps_add_up(
    playback: PlaybackState,
    status: Status,
    inputs: Seq<CommandInput>,
    steps: Seq<i32>,
)
    requires
        inputs.len() == steps.len(),
        forall|i: int|
            0 <= i < inputs.len() ==> (#[trigger] inputs[i]).command == PlayerCommand::VolumeBy(
                steps[i],
            ),
        forall|n: int|
            0 <= n <= steps.len() ==> 0 <= playback.volume_percent + #[trigger] sum_of_steps(
                steps,
                n,
            ) <= 200,
    ensures
        ({
            let run = run_commands(playback, status, inputs);
            &&& !run.ended
            &&& run.playback.volume_percent == playback.volume_percent + sum_of_steps(
                steps,
                steps.len() as int,
            )
            &&& inputs.len() > 0 ==> run.status.volume_percent == run.playback.volume_percent
        }),
    decreases inputs.len(),
{
    assert(sum_of_steps(steps, 0) == 0);
    if inputs.len() > 0 {
        let n = steps.len() as int;
        let shorter = inputs.drop_last();
        let fewer = steps.drop_last();
        assert forall|k: int| 0 <= k <= fewer.len() implies 0 <= playback.volume_percent
            + #[trigger] sum_of_steps(fewer, k) <= 200 by {
            sums_agree(steps, fewer, k);
            assert(0 <= playback.volume_percent + sum_of_steps(steps, k) <= 200);
        }
        assert forall|i: int| 0 <= i < shorter.len() implies (#[trigger] shorter[i]).command
            == PlayerCommand::VolumeBy(fewer[i]) by {
            assert(shorter[i] == inputs[i]);
        }
        volume_steps_add_up(playback, status, shorter, fewer);
        sums_agree(steps, fewer, n - 1);
        assert(inputs.last() == inputs[n - 1]);
        assert(0 <= playback.volume_percent + sum_of_steps(steps, n) <= 200);
    }
}

proof fn sums_agree(steps: Seq<i32>, fewer: Seq<i32>, n: int)
    requires
        fewer == steps.drop_last(),
        0 <= n <= fewer.len(),
        steps.len() > 0,
    ensures
        sum_of_steps(fewer, n) == sum_of_steps(steps, n),
    decreases n,
{
    if n > 0 {
        sums_agree(steps, fewer, n - 1);
        assert(fewer[n - 1] == steps[n - 1]);
    }
}

/// A command changes its own part of playback and nothing else: a jump that
/// succeeds the generation and the target, a resize the layout and the size, the
/// volume only itself. A jump that fails and quitting change nothing.
pub proof fn commands_change_only_their_part(playback: PlaybackState, input: CommandInput)
    ensures
        ({
            let after = playback.after_command(input);
            let jumps = input.command is SeekBy || input.command is SeekTo;
            &&& after.duration_ms == playback.duration_ms
            &&& !(input.command is VolumeBy) ==> after.volume_percent == playback.volume_percent
            &&& !(input.command is Resize) ==> after.display_size == playback.display_size
                && after.terminal_layout == playback.terminal_layout
            &&& input.command matches PlayerCommand::Resize(geometry) ==> {
                &&& after.display_size == input.display_size
                &&& after.terminal_layout.cell_width_px == geometry.cell_width_px
                &&& after.terminal_layout.cell_height_px == geometry.cell_height_px
                &&& geometry.cols >= 1 ==> after.terminal_layout.cols == geometry.cols
                &&& geometry.rows >= 1 ==> after.terminal_layout.rows == geometry.rows
            }
            &&& !(jumps && input.seek_succeeds) ==> after.generation == playback.generation
                && after.drop_until_ms == playback.drop_until_ms
            &&& jumps && input.seek_succeeds ==> {
                &&& playback.generation < u64::MAX ==> after.generation == playback.generation + 1
                &&& after.drop_until_ms == playback.seek_target(input.command, input.position_ms)
            }
        }),
{
}

/// The status row follows every command: after a jump it tells the target and the
/// entry is gone, after a change of the volume the new volume. Nothing else in it
/// changes but the message, which tells what was done, or that a jump failed; quitting
/// changes nothing at all.
pub proof fn status_follows_the_commands(
    status: Status,
    playback: PlaybackState,
    input: CommandInput,
)
    ensures
        ({
            let after = status_after_command(status, playback, input);
            let jumped = (input.command is SeekBy || input.command is SeekTo)
                && input.seek_succeeds;
            &&& after.duration_ms == status.duration_ms
            &&& jumped ==> Some(after.current_ms) == playback.seek_target(
                input.command,
                input.position_ms,
            ) && after.input is None
            &&& !jumped ==> after.current_ms == status.current_ms && after.input == status.input
            &&& input.command is VolumeBy ==> after.volume_percent == playback.after_command(
                input,
            ).volume_percent
            &&& !(input.command is VolumeBy) ==> after.volume_percent == status.volume_percent
            &&& input.command is Quit ==> after == status
            &&& jumped ==> after.message == command_message(input.command)
            &&& (input.command is SeekBy || input.command is SeekTo) && !jumped ==> after.message
                == seq!['S', 'e', 'e', 'k', ' ', 'f', 'a', 'i', 'l', 'e', 'd']
            &&& input.command is Resize ==> after.message == seq![
                'R',
                'e',
                's',
                'i',
                'z',
                'e',
                'd',
            ]
            &&& input.command is VolumeBy ==> after.message == volume_message(after.volume_percent)
        }),
{
    reveal_strlit("Seek failed");
    reveal_strlit("Resized");
    assert("Seek failed"@ =~= seq!['S', 'e', 'e', 'k', ' ', 'f', 'a', 'i', 'l', 'e', 'd']);
    assert("Resized"@ =~= seq!['R', 'e', 's', 'i', 'z', 'e', 'd']);
}

/// The message of a step names its direction and its whole seconds.
pub proof fn step_message_names_the_step(delta_ms: i64)
    ensures
        ({
            let message = seek_message(delta_ms);
            let seconds = message.subrange(6, message.len() - 1);
            &&& message.len() >= 8
            &&& message.take(5) == seq!['S', 'e', 'e', 'k', ' ']
            &&& message[5] == (if delta_ms < 0 { '-' } else { '+' })
            &&& text::all_digits(seconds)
            &&& delta_ms >= 0 ==> text::decimal_value(seconds) * 1000 <= delta_ms
                < text::decimal_value(seconds) * 1000 + 1000
            &&& delta_ms < 0 ==> text::decimal_value(seconds) * 1000 <= -delta_ms
                < text::decimal_value(seconds) * 1000 + 1000
            &&& message.last() == 's'
        }),
{
    reveal_strlit("Seek ");
    reveal_strlit("+");
    reveal_strlit("-");
    reveal_strlit("s");
    let number = text::decimal(magnitude(delta_ms) / 1000);
    text::decimal_reads_back(magnitude(delta_ms) / 1000);
    let message = seek_message(delta_ms);
    assert(message.take(5) =~= seq!['S', 'e', 'e', 'k', ' ']);
    assert(message.subrange(6, message.len() - 1) =~= number);
}

/// The message of a volume names it, in percent.
pub proof fn volume_message_names_the_volume(percent: u32)
    ensures
        ({
            let message = volume_message(percent);
            let number = message.subrange(7, message.len() - 1);
            &&& message.len() >= 9
            &&& message.take(7) == seq!['V', 'o', 'l', 'u', 'm', 'e', ' ']
            &&& text::all_digits(number)
            &&& text::decimal_value(number) == percent
            &&& message.last() == '%'
        }),
{
    reveal_strlit("Volume ");
    reveal_strlit("%");
    text::decimal_reads_back(percent as nat);
    let message = volume_message(percent);
    assert(message.take(7) =~= seq!['V', 'o', 'l', 'u', 'm', 'e', ' ']);
    assert(message.subrange(7, message.len() - 1) =~= text::decimal(percent as nat));
}

/// The message of a jump to a time names the time that was asked for, to the
/// second.
pub proof fn jump_message_names_the_time(target_ms: u64)
    ensures
        ({
            let message = command_message(PlayerCommand::SeekTo(target_ms));
            &&& message.len() >= 5
            &&& message.take(5) == seq!['G', 'o', 't', 'o', ' ']
            &&& timestamp::timestamp_ms(message.skip(5)) == Some(
                (target_ms / 1000 * 1000) as nat,
            )
        }),
{
    reveal_strlit("Goto ");
    let message = command_message(PlayerCommand::SeekTo(target_ms));
    timestamp::shown_time_reads_back(target_ms as nat);
    assert(message.take(5) =~= seq!['G', 'o', 't', 'o', ' ']);
    assert(message.skip(5) =~= timestamp::time_text(target_ms as nat));
}

/// The place of an action in a row of actions.
pub open spec fn stands_at(actions: Seq<PlayerAction>, action: PlayerAction, i: int) -> bool {
    &&& 0 <= i < actions.len()
    &&& actions[i] == action
    &&& forall|j: int| 0 <= j < actions.len() && actions[j] == action ==> i == j
}

/// A jump that succeeds is made known everywhere, each once: the decoders forget
/// what they hold before anybody learns of the new generation, the queued sound is
/// thrown away where there is sound, and the screen is reset for the new generation
/// before its status row is drawn again. Nobody is told another generation or
/// another position.
pub proof fn jumps_are_made_known(generation: u64, target_ms: u64, audio: bool)
    ensures
        ({
            let actions = seek_actions(generation, target_ms, audio);
            let n = actions.len() as int;
            &&& stands_at(actions, PlayerAction::FlushVideoDecoder, 0)
            &&& actions.contains(PlayerAction::FlushAudioDecoder) <==> audio
            &&& actions.contains(PlayerAction::ResetAudio) <==> audio
            &&& audio ==> stands_at(actions, PlayerAction::FlushAudioDecoder, 1) && stands_at(
                actions,
                PlayerAction::ResetAudio,
                2,
            )
            &&& n == (if audio { 7int } else { 5int })
            &&& stands_at(actions, PlayerAction::PublishGeneration(generation), n - 4)
            &&& stands_at(actions, PlayerAction::PublishPosition(target_ms), n - 3)
            &&& stands_at(
                actions,
                PlayerAction::Notify(RenderNotice::Reset { generation }),
                n - 2,
            )
            &&& stands_at(actions, PlayerAction::TryNotify(RenderNotice::RedrawStatus), n - 1)
        }),
{
    let actions = seek_actions(generation, target_ms, audio);
    if audio {
        assert(actions[1] == PlayerAction::FlushAudioDecoder);
        assert(actions[2] == PlayerAction::ResetAudio);
    }
}

/// From the key to the jump: `f`, `b` and the arrows move playback by ten and by five
/// seconds, forward and back, unless the jump would leave the video; and the arrows
/// up and down change the volume by five percent where it has room.
pub proof fn keys_move_playback(
    playback: PlaybackState,
    position_ms: u64,
    modifiers: KeyModifiers,
)
    requires
        10_000 <= position_ms <= u64::MAX - 10_000,
        playback.duration_ms matches Some(duration) ==> position_ms + 10_000 <= duration,
        5 <= playback.volume_percent <= 195,
    ensures
        ({
            let command = |code: KeyCode| controls::key_effect(
                KeyEvent { code, modifiers },
                None,
            ).1.commands[0];
            let target = |code: KeyCode| playback.seek_target(command(code), position_ms);
            let volume = |code: KeyCode| playback.after_command(
                CommandInput {
                    command: command(code),
                    position_ms,
                    seek_succeeds: true,
                    display_size: playback.display_size,
                },
            ).volume_percent;
            &&& target(KeyCode::Char('f')) == Some((position_ms + 10_000) as u64)
            &&& target(KeyCode::Char('b')) == Some((position_ms - 10_000) as u64)
            &&& target(KeyCode::Right) == Some((position_ms + 5_000) as u64)
            &&& target(KeyCode::Left) == Some((position_ms - 5_000) as u64)
            &&& volume(KeyCode::Up) == playback.volume_percent + 5
            &&& volume(KeyCode::Down) == playback.volume_percent - 5
        }),
{
}

/// A new volume is told to the sound, and the status row is drawn again. Quitting stops
/// playback and ends the drawing. A new layout is told to the thread that draws; frames
/// get another buffer exactly when their size changes, before that is told.
pub proof fn commands_are_made_known(
    percent: u32,
    before: VideoDisplaySize,
    after: VideoDisplaySize,
    layout: VideoTerminalLayout,
)
    ensures
        volume_actions(percent).len() == 2,
        stands_at(volume_actions(percent), PlayerAction::PublishVolume(percent), 0),
        stands_at(
            volume_actions(percent),
            PlayerAction::TryNotify(RenderNotice::RedrawStatus),
            1,
        ),
        quit_actions().len() == 2,
        stands_at(quit_actions(), PlayerAction::StopPlayback, 0),
        stands_at(quit_actions(), PlayerAction::TryNotify(RenderNotice::Quit), 1),
        ({
            let actions = resize_actions(before, after, layout);
            let told = PlayerAction::Notify(RenderNotice::Layout(layout));
            &&& before == after ==> actions.len() == 1 && stands_at(actions, told, 0)
            &&& before != after ==> actions.len() == 2 && stands_at(
                actions,
                PlayerAction::ReplaceFrameBuffer(after),
                0,
            ) && stands_at(actions, told, 1)
        }),
{
}

/// Playback starts at the recorded volume, with nothing left out, in the layout and the
/// size that it was given.
pub proof fn playback_starts_at_the_beginning(
    layout: VideoTerminalLayout,
    size: VideoDisplaySize,
    duration_ms: Option<u64>,
)
    ensures
        ({
            let playback = PlaybackState::initial(layout, size, duration_ms);
            &&& playback.volume_percent == 100
            &&& playback.drop_until_ms is None
            &&& playback.generation == 0
            &&& playback.terminal_layout == layout
            &&& playback.display_size == size
            &&& playback.duration_ms == duration_ms
            &&& playback.wf()
        }),
{
}

/// With sound there is room for 1024 frames and notices on the way to the screen, so that
/// sound can be decoded ahead of them; without sound sixteen are enough.
pub proof fn frames_have_room()
    ensures
        room_for_frames(true) == 1024,
        room_for_frames(false) == 16,
{
}

} // verus!
