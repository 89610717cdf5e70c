//! The order in which the players read, decode and hand on what a file holds.
//!
//! A player asks for the next action, carries it out, and reports what came of
//! it.
use vstd::prelude::*;
use crate::player::PlaybackState;
use crate::streams::PacketRoute;

verus! {

/// What a player does next.
#[derive(Debug, Clone, Copy, PartialEq, Eq, Structural)]
pub enum PumpAction {
    /// Take up all commands that wait.
    HandleCommands,
    /// Read the next packet.
    ReadPacket,
    /// Send the packet to the decoder of its stream.
    SendPacket(PacketRoute),
    /// Tell the decoder that there are no more packets.
    SendEnd,
    /// Ask the decoder of a stream for a frame. After the end, frames come that
    /// belong to no packet.
    ReceiveFrame { route: PacketRoute, ended: bool },
    /// Scale the frame, and hand it to the thread that draws.
    ShowFrame { pts_ms: u64 },
    /// Resample the sound of the frame, and queue it.
    PlaySound { ended: bool },
    ReleasePacket,
    /// Go back to the start of the file.
    Restart,
    /// Wait until the sound that is queued has been played.
    AwaitSound,
    Finish,
}

/// What came of an action.
#[derive(Debug, Clone, Copy, PartialEq, Eq, Structural)]
pub enum PumpEvent {
    /// It was done.
    Done,
    /// It found nothing, or was refused.
    Nothing,
    /// A packet was read.
    Packet(PacketRoute),
    /// A frame was decoded.
    Frame { pts_ms: Option<u64> },
    /// Playback is to stop.
    Stop,
    /// It failed, and playback with it.
    Fail,
}

/// What follows an event.
#[derive(Debug, Clone, Copy, PartialEq, Eq, Structural)]
pub struct PumpStep {
    pub action: PumpAction,
    /// Playback has failed.
    pub failed: bool,
    /// Every thread of the player is to be told to stop.
    pub stop: bool,
}

/// Which events an action can have.
pub open spec fn suits(action: PumpAction, event: PumpEvent) -> bool {
    match action {
        PumpAction::HandleCommands => event is Done || event is Stop || event is Fail,
        PumpAction::ReadPacket => event is Packet || event is Nothing,
        PumpAction::SendPacket(_) => event is Done || event is Nothing,
        PumpAction::SendEnd => event is Done || event is Nothing,
        PumpAction::ReceiveFrame { .. } => event is Frame || event is Nothing,
        PumpAction::ShowFrame { .. } => event is Done || event is Stop || event is Fail,
        PumpAction::PlaySound { .. } => event is Done || event is Fail,
        PumpAction::ReleasePacket => event is Done,
        PumpAction::Restart => event is Done || event is Fail,
        PumpAction::AwaitSound => event is Done,
        PumpAction::Finish => false,
    }
}

/// Which actions the video player has. Its frames all belong to a packet of its
/// video stream or its audio stream.
pub open spec fn is_video_action(action: PumpAction) -> bool {
    match action {
        PumpAction::SendPacket(route) => !(route is Ignored),
        PumpAction::ReceiveFrame { route, ended } => !(route is Ignored) && !ended,
        PumpAction::PlaySound { ended } => !ended,
        PumpAction::SendEnd | PumpAction::AwaitSound => false,
        _ => true,
    }
}

/// Which actions the audio player has.
pub open spec fn is_audio_action(action: PumpAction) -> bool {
    match action {
        PumpAction::SendPacket(route) => route is Audio,
        PumpAction::ReceiveFrame { route, .. } => route is Audio,
        PumpAction::HandleCommands | PumpAction::ShowFrame { .. } => false,
        _ => true,
    }
}

/// A packet is held from its reading to its release.
pub open spec fn holds_packet(action: PumpAction) -> bool {
    match action {
        PumpAction::SendPacket(_) => true,
        PumpAction::ReceiveFrame { ended, .. } => !ended,
        PumpAction::ShowFrame { .. } => true,
        PumpAction::PlaySound { ended } => !ended,
        PumpAction::ReleasePacket => true,
        _ => false,
    }
}

/// Goes on to an action, with nothing gone wrong.
pub open spec fn going_on(action: PumpAction) -> PumpStep {
    PumpStep { action, failed: false, stop: false }
}

/// Where the video player stands when it may take up commands and packets.
pub open spec fn video_top(running: bool) -> PumpStep {
    going_on(
        if running {
            PumpAction::HandleCommands
        } else {
            PumpAction::Finish
        },
    )
}

/// How the video player goes on after an event. `failed` tells whether playback
/// failed before.
pub open spec fn video_step(
    playback: PlaybackState,
    position_ms: u64,
    loops: bool,
    running: bool,
    failed: bool,
    action: PumpAction,
    event: PumpEvent,
) -> PumpStep {
    match (action, event) {
        (PumpAction::HandleCommands, PumpEvent::Done) => going_on(PumpAction::ReadPacket),
        (PumpAction::HandleCommands, PumpEvent::Stop) => going_on(PumpAction::Finish),
        (PumpAction::HandleCommands, _) => PumpStep {
            action: PumpAction::Finish,
            failed: true,
            stop: false,
        },
        (PumpAction::ReadPacket, PumpEvent::Packet(route)) => going_on(
            if route is Ignored {
                PumpAction::ReleasePacket
            } else {
                PumpAction::SendPacket(route)
            },
        ),
        (PumpAction::ReadPacket, _) => going_on(
            if loops && running {
                PumpAction::Restart
            } else {
                PumpAction::Finish
            },
        ),
        (PumpAction::SendPacket(route), PumpEvent::Done) => going_on(
            PumpAction::ReceiveFrame { route, ended: false },
        ),
        (PumpAction::ReceiveFrame { route, ended }, PumpEvent::Frame { pts_ms }) => going_on(
            if !running {
                PumpAction::ReleasePacket
            } else if playback.skips(route, pts_ms, position_ms) {
                action
            } else if route is Video {
                PumpAction::ShowFrame {
                    pts_ms: match pts_ms {
                        Some(ms) => ms,
                        None => position_ms,
                    },
                }
            } else {
                PumpAction::PlaySound { ended }
            },
        ),
        (PumpAction::ShowFrame { .. }, PumpEvent::Done) => going_on(
            PumpAction::ReceiveFrame { route: PacketRoute::Video, ended: false },
        ),
        (PumpAction::ShowFrame { .. }, _) => PumpStep {
            action: PumpAction::ReleasePacket,
            failed: event is Fail,
            stop: true,
        },
        (PumpAction::PlaySound { ended }, PumpEvent::Done) => going_on(
            PumpAction::ReceiveFrame { route: PacketRoute::Audio, ended },
        ),
        (PumpAction::PlaySound { .. }, _) => PumpStep {
            action: PumpAction::ReleasePacket,
            failed: true,
            stop: true,
        },
        (PumpAction::ReleasePacket, _) => if failed {
            PumpStep { action: PumpAction::Finish, failed: true, stop: false }
        } else {
            video_top(running)
        },
        (PumpAction::Restart, PumpEvent::Done) => video_top(running),
        (PumpAction::Restart, _) => PumpStep {
            action: PumpAction::Finish,
            failed: true,
            stop: false,
        },
        _ => going_on(PumpAction::ReleasePacket),
    }
}

impl PlaybackState {
    /// Whether a decoded frame is left out, because it lies before the target of
    /// the last jump. A video frame without a time counts as being where playback
    /// stands; sound without a time is always played.
    pub open spec fn skips(
        self,
        route: PacketRoute,
        pts_ms: Option<u64>,
        position_ms: u64,
    ) -> bool {
        match (self.drop_until_ms, pts_ms) {
            (Some(until), Some(ms)) => ms < until,
            (Some(until), None) => route is Video && position_ms < until,
            (None, _) => false,
        }
    }
}

fn go_on(action: PumpAction) -> (step: PumpStep)
    ensures
        step == going_on(action),
{
    PumpStep { action, failed: false, stop: false }
}

fn at_video_top(running: bool) -> (step: PumpStep)
    ensures
        step == video_top(running),
{
    go_on(
        if running {
            PumpAction::HandleCommands
        } else {
            PumpAction::Finish
        },
    )
}

/// The first action of the video player.
pub fn start_video(running: bool) -> (step: PumpStep)
    ensures
        step == video_top(running),
{
    at_video_top(running)
}

/// Tells how the video player goes on.
pub fn advance_video(
    playback: &PlaybackState,
    position_ms: u64,
    loops: bool,
    running: bool,
    failed: bool,
    action: PumpAction,
    event: PumpEvent,
) -> (step: PumpStep)
    requires
        is_video_action(action),
        suits(action, event),
    ensures
        step == video_step(*playback, position_ms, loops, running, failed, action, event),
{
    match action {
        PumpAction::HandleCommands => {
            match event {
                PumpEvent::Done => go_on(PumpAction::ReadPacket),
                PumpEvent::Stop => go_on(PumpAction::Finish),
                _ => PumpStep { action: PumpAction::Finish, failed: true, stop: false },
            }
        },
        PumpAction::ReadPacket => {
            match event {
                PumpEvent::Packet(PacketRoute::Ignored) => go_on(PumpAction::ReleasePacket),
                PumpEvent::Packet(route) => go_on(PumpAction::SendPacket(route)),
                _ => {
                    if loops && running {
                        go_on(PumpAction::Restart)
                    } else {
                        go_on(PumpAction::Finish)
                    }
                },
            }
        },
        PumpAction::SendPacket(route) => {
            match event {
                PumpEvent::Done => go_on(PumpAction::ReceiveFrame { route, ended: false }),
                _ => go_on(PumpAction::ReleasePacket),
            }
        },
        PumpAction::ReceiveFrame { route, ended } => {
            match event {
                PumpEvent::Frame { pts_ms } => {
                    if !running {
                        return go_on(PumpAction::ReleasePacket);
                    }
                    match route {
                        PacketRoute::Video => {
                            match playback.video_frame_time(pts_ms, position_ms) {
                                Some(pts_ms) => go_on(PumpAction::ShowFrame { pts_ms }),
                                None => go_on(action),
                            }
                        },
                        _ => {
                            if playback.drops_audio(pts_ms) {
                                go_on(action)
                            } else {
                                go_on(PumpAction::PlaySound { ended })
                            }
                        },
                    }
                },
                _ => go_on(PumpAction::ReleasePacket),
            }
        },
        PumpAction::ShowFrame { .. } => {
            match event {
                PumpEvent::Done => {
                    go_on(PumpAction::ReceiveFrame { route: PacketRoute::Video, ended: false })
                },
                PumpEvent::Fail => {
                    PumpStep { action: PumpAction::ReleasePacket, failed: true, stop: true }
                },
                _ => PumpStep { action: PumpAction::ReleasePacket, failed: false, stop: true },
            }
        },
        PumpAction::PlaySound { ended } => {
            match event {
                PumpEvent::Done => {
                    go_on(PumpAction::ReceiveFrame { route: PacketRoute::Audio, ended })
                },
                _ => PumpStep { action: PumpAction::ReleasePacket, failed: true, stop: true },
            }
        },
        PumpAction::ReleasePacket => {
            if failed {
                PumpStep { action: PumpAction::Finish, failed: true, stop: false }
            } else {
                at_video_top(running)
            }
        },
        PumpAction::Restart => {
            match event {
                PumpEvent::Done => at_video_top(running),
                _ => PumpStep { action: PumpAction::Finish, failed: true, stop: false },
            }
        },
        _ => go_on(PumpAction::ReleasePacket),
    }
}

/// Where the audio player stands once its decoder has given everything.
pub open spec fn audio_end(loops: bool, running: bool) -> PumpStep {
    going_on(
        if loops && running {
            PumpAction::Restart
        } else {
            PumpAction::AwaitSound
        },
    )
}

/// Where the audio player stands when it may read packets.
pub open spec fn audio_top(loops: bool, running: bool) -> PumpStep {
    if running {
        going_on(PumpAction::ReadPacket)
    } else {
        audio_end(loops, false)
    }
}

/// How the audio player goes on after an event.
pub open spec fn audio_step(
    loops: bool,
    running: bool,
    action: PumpAction,
    event: PumpEvent,
) -> PumpStep {
    match (action, event) {
        (PumpAction::ReadPacket, PumpEvent::Packet(route)) => going_on(
            if route is Audio {
                PumpAction::SendPacket(route)
            } else {
                PumpAction::ReleasePacket
            },
        ),
        (PumpAction::ReadPacket, _) => if running {
            going_on(PumpAction::SendEnd)
        } else {
            audio_end(loops, running)
        },
        (PumpAction::SendPacket(_), PumpEvent::Done) => going_on(
            PumpAction::ReceiveFrame { route: PacketRoute::Audio, ended: false },
        ),
        (PumpAction::SendEnd, _) => going_on(
            PumpAction::ReceiveFrame { route: PacketRoute::Audio, ended: true },
        ),
        (PumpAction::ReceiveFrame { ended, .. }, PumpEvent::Frame { .. }) if running => going_on(
            PumpAction::PlaySound { ended },
        ),
        (PumpAction::ReceiveFrame { ended, .. }, _) => if ended {
            audio_end(loops, running)
        } else {
            going_on(PumpAction::ReleasePacket)
        },
        (PumpAction::PlaySound { ended }, PumpEvent::Done) => going_on(
            PumpAction::ReceiveFrame { route: PacketRoute::Audio, ended },
        ),
        (PumpAction::PlaySound { .. }, _) => PumpStep {
            action: PumpAction::Finish,
            failed: true,
            stop: false,
        },
        (PumpAction::ReleasePacket, _) => audio_top(loops, running),
        (PumpAction::Restart, _) => audio_top(loops, running),
        (PumpAction::AwaitSound, _) => going_on(PumpAction::Finish),
        _ => going_on(PumpAction::ReleasePacket),
    }
}

fn at_audio_end(loops: bool, running: bool) -> (step: PumpStep)
    ensures
        step == audio_end(loops, running),
{
    if loops && running {
        go_on(PumpAction::Restart)
    } else {
        go_on(PumpAction::AwaitSound)
    }
}

/// The first action of the audio player.
pub fn start_audio(loops: bool, running: bool) -> (step: PumpStep)
    ensures
        step == audio_top(loops, running),
{
    if running {
        go_on(PumpAction::ReadPacket)
    } else {
        at_audio_end(loops, false)
    }
}

/// Tells how the audio player goes on.
pub fn advance_audio(
    loops: bool,
    running: bool,
    action: PumpAction,
    event: PumpEvent,
) -> (step: PumpStep)
    requires
        is_audio_action(action),
        suits(action, event),
    ensures
        step == audio_step(loops, running, action, event),
{
    match action {
        PumpAction::ReadPacket => {
            match event {
                PumpEvent::Packet(PacketRoute::Audio) => {
                    go_on(PumpAction::SendPacket(PacketRoute::Audio))
                },
                PumpEvent::Packet(_) => go_on(PumpAction::ReleasePacket),
                _ => {
                    if running {
                        go_on(PumpAction::SendEnd)
                    } else {
                        at_audio_end(loops, running)
                    }
                },
            }
        },
        PumpAction::SendPacket(_) => {
            match event {
                PumpEvent::Done => {
                    go_on(PumpAction::ReceiveFrame { route: PacketRoute::Audio, ended: false })
                },
                _ => go_on(PumpAction::ReleasePacket),
            }
        },
        PumpAction::SendEnd => {
            go_on(PumpAction::ReceiveFrame { route: PacketRoute::Audio, ended: true })
        },
        PumpAction::ReceiveFrame { ended, .. } => {
            match event {
                PumpEvent::Frame { .. } => {
                    if running {
                        return go_on(PumpAction::PlaySound { ended });
                    }
                },
                _ => {},
            }
            if ended {
                at_audio_end(loops, running)
            } else {
                go_on(PumpAction::ReleasePacket)
            }
        },
        PumpAction::PlaySound { ended } => {
            match event {
                PumpEvent::Done => {
                    go_on(PumpAction::ReceiveFrame { route: PacketRoute::Audio, ended })
                },
                _ => PumpStep { action: PumpAction::Finish, failed: true, stop: false },
            }
        },
        PumpAction::ReleasePacket => start_audio(loops, running),
        PumpAction::Restart => start_audio(loops, running),
        PumpAction::AwaitSound => go_on(PumpAction::Finish),
        _ => go_on(PumpAction::ReleasePacket),
    }
}

/// Every packet that the video player reads is released before it reads another
/// one, takes up commands, or ends; and it only releases a packet that it holds.
pub proof fn video_packets_are_released(
    playback: PlaybackState,
    position_ms: u64,
    loops: bool,
    running: bool,
    failed: bool,
    action: PumpAction,
    event: PumpEvent,
)
    requires
        is_video_action(action),
        suits(action, event),
    ensures
        ({
            let next = video_step(playback, position_ms, loops, running, failed, action, event);
            &&& is_video_action(next.action)
            &&& action is ReadPacket && event is Packet ==> holds_packet(next.action)
            &&& holds_packet(action) && !(action is ReleasePacket) ==> holds_packet(next.action)
            &&& action is ReleasePacket ==> !holds_packet(next.action)
            &&& !holds_packet(action) && !(action is ReadPacket) ==> !holds_packet(next.action)
            &&& action is ReadPacket && event is Nothing ==> !holds_packet(next.action)
        }),
{
}

/// What the video player learns after an action.
pub struct PumpInput {
    pub playback: PlaybackState,
    pub position_ms: u64,
    pub loops: bool,
    pub running: bool,
    pub event: PumpEvent,
}

/// Where the video player stands after a number of actions.
pub open spec fn video_after(running: bool, inputs: Seq<PumpInput>) -> PumpStep
    decreases inputs.len(),
{
    if inputs.len() == 0 {
        video_top(running)
    } else {
        let before = video_after(running, inputs.drop_last());
        let input = inputs.last();
        let step = video_step(
            input.playback,
            input.position_ms,
            input.loops,
            input.running,
            before.failed,
            before.action,
            input.event,
        );
        PumpStep { failed: before.failed || step.failed, ..step }
    }
}

/// Every event is one that its action can have.
pub open spec fn is_video_run(running: bool, inputs: Seq<PumpInput>) -> bool
    decreases inputs.len(),
{
    inputs.len() > 0 ==> {
        &&& is_video_run(running, inputs.drop_last())
        &&& suits(video_after(running, inputs.drop_last()).action, inputs.last().event)
    }
}

/// How many packets were read.
pub open spec fn packets_read(running: bool, inputs: Seq<PumpInput>) -> nat
    decreases inputs.len(),
{
    if inputs.len() == 0 {
        0
    } else {
        packets_read(running, inputs.drop_last()) + (if video_after(
            running,
            inputs.drop_last(),
        ).action is ReadPacket && inputs.last().event is Packet {
            1nat
        } else {
            0nat
        })
    }
}

/// How many packets were released.
pub open spec fn packets_released(running: bool, inputs: Seq<PumpInput>) -> nat
    decreases inputs.len(),
{
    if inputs.len() == 0 {
        0
    } else {
        packets_released(running, inputs.drop_last()) + (if video_after(
            running,
            inputs.drop_last(),
        ).action is ReleasePacket {
            1nat
        } else {
            0nat
        })
    }
}

/// However a video is played, the packets that were read are those that were
/// released, and at most the one at hand; at the end all are released.
pub proof fn all_video_packets_are_released(running: bool, inputs: Seq<PumpInput>)
    requires
        is_video_run(running, inputs),
    ensures
        is_video_action(video_after(running, inputs).action),
        packets_read(running, inputs) == packets_released(running, inputs) + (if holds_packet(
            video_after(running, inputs).action,
        ) {
            1nat
        } else {
            0nat
        }),
        video_after(running, inputs).action is Finish ==> packets_read(running, inputs)
            == packets_released(running, inputs),
    decreases inputs.len(),
{
    if inputs.len() > 0 {
        let before = video_after(running, inputs.drop_last());
        let input = inputs.last();
        all_video_packets_are_released(running, inputs.drop_last());
        video_packets_are_released(
            input.playback,
            input.position_ms,
            input.loops,
            input.running,
            before.failed,
            before.action,
            input.event,
        );
    }
}

/// Playback that has failed ends as soon as the packet at hand is released.
pub proof fn failure_ends_the_video(
    playback: PlaybackState,
    position_ms: u64,
    loops: bool,
    running: bool,
    failed: bool,
    action: PumpAction,
    event: PumpEvent,
)
    requires
        is_video_action(action),
        suits(action, event),
        event is Fail,
    ensures
        ({
            let next = video_step(playback, position_ms, loops, running, failed, action, event);
            &&& next.failed
            &&& next.action is Finish || next.action is ReleasePacket
            &&& next.action is ReleasePacket ==> video_step(
                playback,
                position_ms,
                loops,
                running,
                next.failed,
                next.action,
                PumpEvent::Done,
            ).action is Finish
        }),
{
}

/// No frame before the target of the last jump is shown, and every other frame
/// that is decoded while playback runs is shown under its own time.
pub proof fn shown_frames_lie_behind_the_target(
    playback: PlaybackState,
    position_ms: u64,
    loops: bool,
    failed: bool,
    pts_ms: u64,
)
    ensures
        ({
            let receive = PumpAction::ReceiveFrame { route: PacketRoute::Video, ended: false };
            let next = video_step(
                playback,
                position_ms,
                loops,
                true,
                failed,
                receive,
                PumpEvent::Frame { pts_ms: Some(pts_ms) },
            );
            &&& playback.drop_until_ms is Some && pts_ms < playback.drop_until_ms->0
                ==> next.action == receive
            &&& playback.drop_until_ms is None || pts_ms >= playback.drop_until_ms->0
                ==> next.action == (PumpAction::ShowFrame { pts_ms })
        }),
{
}

/// A player that does not loop never goes back to the start, and one that is told
/// to stop never does either.
pub proof fn only_loops_restart(
    playback: PlaybackState,
    position_ms: u64,
    loops: bool,
    running: bool,
    failed: bool,
    action: PumpAction,
    event: PumpEvent,
)
    requires
        suits(action, event),
        !loops || !running,
    ensures
        !(video_step(playback, position_ms, loops, running, failed, action, event).action
            is Restart),
        !(audio_step(loops, running, action, event).action is Restart),
{
}

/// Every packet that the audio player reads is released before it reads another
/// one, unless playback fails on it.
pub proof fn audio_packets_are_released(
    loops: bool,
    running: bool,
    action: PumpAction,
    event: PumpEvent,
)
    requires
        is_audio_action(action),
        suits(action, event),
    ensures
        ({
            let next = audio_step(loops, running, action, event);
            &&& is_audio_action(next.action)
            &&& action is ReadPacket && event is Packet ==> holds_packet(next.action)
            &&& holds_packet(action) && !(action is ReleasePacket) && !(event is Fail)
                ==> holds_packet(next.action)
            &&& action is ReleasePacket ==> !holds_packet(next.action)
            &&& !holds_packet(action) && !(action is ReadPacket) ==> !holds_packet(next.action)
            &&& action is ReadPacket && event is Nothing ==> !holds_packet(next.action)
        }),
{
}

/// The streams of all packets that the video player read, in order.
pub open spec fn routes_read(running: bool, inputs: Seq<PumpInput>) -> Seq<PacketRoute>
    decreases inputs.len(),
{
    if inputs.len() == 0 {
        seq![]
    } else {
        let before = routes_read(running, inputs.drop_last());
        match (video_after(running, inputs.drop_last()).action, inputs.last().event) {
            (PumpAction::ReadPacket, PumpEvent::Packet(route)) => before.push(route),
            _ => before,
        }
    }
}

/// The streams to whose decoders the video player sent packets, in order.
pub open spec fn routes_sent(running: bool, inputs: Seq<PumpInput>) -> Seq<PacketRoute>
    decreases inputs.len(),
{
    if inputs.len() == 0 {
        seq![]
    } else {
        let before = routes_sent(running, inputs.drop_last());
        match video_after(running, inputs.drop_last()).action {
            PumpAction::SendPacket(route) => before.push(route),
            _ => before,
        }
    }
}

/// Those packets of a row that belong to a stream that is played.
pub open spec fn played_routes(routes: Seq<PacketRoute>) -> Seq<PacketRoute>
    decreases routes.len(),
{
    if routes.len() == 0 {
        seq![]
    } else if routes.last() == PacketRoute::Ignored {
        played_routes(routes.drop_last())
    } else {
        played_routes(routes.drop_last()).push(routes.last())
    }
}

/// Every packet of the video stream and of the audio stream that is read is sent
/// to the decoder of its own stream, once, in the order of reading, and before it
/// is released. Only packets of other streams are released unsent.
pub proof fn video_packets_are_decoded(running: bool, inputs: Seq<PumpInput>)
    requires
        is_video_run(running, inputs),
    ensures
        ({
            let read = routes_read(running, inputs);
            let sent = routes_sent(running, inputs);
            match video_after(running, inputs).action {
                PumpAction::SendPacket(route) => {
                    &&& read.len() > 0
                    &&& route == read.last()
                    &&& route == PacketRoute::Video || route == PacketRoute::Audio
                    &&& sent.push(route) == played_routes(read)
                },
                _ => sent == played_routes(read),
            }
        }),
    decreases inputs.len(),
{
    if inputs.len() > 0 {
        let before = video_after(running, inputs.drop_last());
        let input = inputs.last();
        video_packets_are_decoded(running, inputs.drop_last());
        let read = routes_read(running, inputs);
        match (before.action, input.event) {
            (PumpAction::ReadPacket, PumpEvent::Packet(route)) => {
                assert(read.drop_last() =~= routes_read(running, inputs.drop_last()));
                assert(read.last() == route);
            },
            _ => {},
        }
    }
}

/// A packet of the video stream or of the audio stream goes to the decoder of
/// that same stream, a packet of any other stream is thrown away.
pub proof fn packets_go_to_their_decoder(
    playback: PlaybackState,
    position_ms: u64,
    loops: bool,
    running: bool,
    failed: bool,
    route: PacketRoute,
)
    ensures
        ({
            let video = video_step(
                playback,
                position_ms,
                loops,
                running,
                failed,
                PumpAction::ReadPacket,
                PumpEvent::Packet(route),
            ).action;
            let audio = audio_step(
                loops,
                running,
                PumpAction::ReadPacket,
                PumpEvent::Packet(route),
            ).action;
            &&& route == PacketRoute::Video || route == PacketRoute::Audio ==> video
                == PumpAction::SendPacket(route)
            &&& route == PacketRoute::Ignored ==> video == PumpAction::ReleasePacket
            &&& route == PacketRoute::Audio ==> audio == PumpAction::SendPacket(route)
            &&& route != PacketRoute::Audio ==> audio == PumpAction::ReleasePacket
        }),
{
}

/// A decoder that took a packet is asked for frames until it has no more: every
/// frame that is shown or played is followed by the question for the next one of
/// the same stream, and the packet is released once there is none.
pub proof fn decoders_are_drained(
    playback: PlaybackState,
    position_ms: u64,
    loops: bool,
    running: bool,
    failed: bool,
    route: PacketRoute,
    pts_ms: u64,
    ended: bool,
)
    requires
        route == PacketRoute::Video || route == PacketRoute::Audio,
    ensures
        ({
            let ask_video = PumpAction::ReceiveFrame { route: PacketRoute::Video, ended: false };
            let ask_audio = PumpAction::ReceiveFrame { route: PacketRoute::Audio, ended };
            let ask = PumpAction::ReceiveFrame { route, ended: false };
            let video = |action: PumpAction, event: PumpEvent| video_step(
                playback,
                position_ms,
                loops,
                running,
                failed,
                action,
                event,
            ).action;
            let audio = |action: PumpAction, event: PumpEvent| audio_step(
                loops,
                running,
                action,
                event,
            ).action;
            &&& video(PumpAction::SendPacket(route), PumpEvent::Done) == ask
            &&& video(PumpAction::SendPacket(route), PumpEvent::Nothing)
                == PumpAction::ReleasePacket
            &&& video(ask, PumpEvent::Nothing) == PumpAction::ReleasePacket
            &&& video(PumpAction::ShowFrame { pts_ms }, PumpEvent::Done) == ask_video
            &&& video(PumpAction::PlaySound { ended }, PumpEvent::Done) == ask_audio
            &&& audio(PumpAction::SendPacket(PacketRoute::Audio), PumpEvent::Done) == (
            PumpAction::ReceiveFrame { route: PacketRoute::Audio, ended: false })
            &&& audio(PumpAction::SendPacket(PacketRoute::Audio), PumpEvent::Nothing)
                == PumpAction::ReleasePacket
            &&& audio(PumpAction::SendEnd, PumpEvent::Done) == (PumpAction::ReceiveFrame {
                route: PacketRoute::Audio,
                ended: true,
            })
            &&& audio(PumpAction::SendEnd, PumpEvent::Nothing) == (PumpAction::ReceiveFrame {
                route: PacketRoute::Audio,
                ended: true,
            })
            &&& audio(PumpAction::PlaySound { ended }, PumpEvent::Done) == ask_audio
            &&& !ended ==> audio(ask_audio, PumpEvent::Nothing) == PumpAction::ReleasePacket
        }),
{
}

/// While playback runs every decoded frame is used: a video frame is shown under
/// its own time, or where playback stands if it has none, and sound is played.
/// After a jump the frames before its target are passed over, and the decoder is
/// asked on; sound without a time is never passed over. Once playback is to end,
/// nothing more is shown or played.
pub proof fn decoded_frames_are_used(
    playback: PlaybackState,
    position_ms: u64,
    loops: bool,
    running: bool,
    failed: bool,
    pts_ms: Option<u64>,
    ended: bool,
)
    ensures
        ({
            let event = PumpEvent::Frame { pts_ms };
            let ask_video = PumpAction::ReceiveFrame { route: PacketRoute::Video, ended: false };
            let ask_audio = PumpAction::ReceiveFrame { route: PacketRoute::Audio, ended };
            let step = |action: PumpAction| video_step(
                playback,
                position_ms,
                loops,
                running,
                failed,
                action,
                event,
            ).action;
            let audio = audio_step(loops, running, ask_audio, event).action;
            let time = if pts_ms is Some { pts_ms->0 } else { position_ms };
            let until = playback.drop_until_ms;
            &&& running && (until is None || time >= until->0) ==> step(ask_video) == (
            PumpAction::ShowFrame { pts_ms: time })
            &&& running && until is Some && time < until->0 ==> step(ask_video) == ask_video
            &&& running && (until is None || pts_ms is None || pts_ms->0 >= until->0)
                ==> step(ask_audio) == (PumpAction::PlaySound { ended })
            &&& running && until is Some && pts_ms is Some && pts_ms->0 < until->0
                ==> step(ask_audio) == ask_audio
            &&& running ==> audio == (PumpAction::PlaySound { ended })
            &&& !running ==> step(ask_video) == PumpAction::ReleasePacket
            &&& !running ==> step(ask_audio) == PumpAction::ReleasePacket
            &&& !running ==> !(audio is PlaySound)
            &&& !running && !ended ==> audio == PumpAction::ReleasePacket
        }),
{
}

/// The round of the video player. Commands are taken up before every packet. The
/// file is gone back to only at its end, by a player that loops and runs. Playback
/// ends where a command stops it or fails, at the end of the file unless it is
/// gone back to, and once the packet at hand is released where it has failed or is
/// told to stop; there is no other end. It fails exactly where an action fails, and
/// everybody is told to stop exactly where showing or playing breaks off.
pub proof fn video_goes_round(
    playback: PlaybackState,
    position_ms: u64,
    loops: bool,
    running: bool,
    failed: bool,
    action: PumpAction,
    event: PumpEvent,
)
    requires
        is_video_action(action),
        suits(action, event),
    ensures
        ({
            let next = video_step(playback, position_ms, loops, running, failed, action, event);
            let at_end = action is ReadPacket && event is Nothing;
            let broken_off = (action is ShowFrame || action is PlaySound) && !(event is Done);
            &&& next.action is ReadPacket <==> action is HandleCommands && event is Done
            &&& next.action is HandleCommands <==> running && (action is ReleasePacket && !failed
                || action is Restart && event is Done)
            &&& next.action is Restart <==> at_end && loops && running
            &&& next.action is Finish <==> {
                ||| action is HandleCommands && !(event is Done)
                ||| at_end && !(loops && running)
                ||| action is ReleasePacket && (failed || !running)
                ||| action is Restart && (event is Fail || !running)
            }
            &&& next.failed <==> event is Fail || action is ReleasePacket && failed
            &&& next.stop <==> broken_off
            &&& broken_off ==> next.action is ReleasePacket
        }),
{
}

/// A video that loops and is let run goes on for ever: nothing but a failure or a
/// command ends it.
pub proof fn looping_video_never_ends(inputs: Seq<PumpInput>)
    requires
        is_video_run(true, inputs),
        forall|i: int|
            0 <= i < inputs.len() ==> (#[trigger] inputs[i]).loops && inputs[i].running && !(
            inputs[i].event is Stop) && !(inputs[i].event is Fail),
    ensures
        !(video_after(true, inputs).action is Finish),
        !video_after(true, inputs).failed,
        is_video_action(video_after(true, inputs).action),
    decreases inputs.len(),
{
    if inputs.len() > 0 {
        let shorter = inputs.drop_last();
        assert forall|i: int| 0 <= i < shorter.len() implies (#[trigger] shorter[i]).loops
            && shorter[i].running && !(shorter[i].event is Stop) && !(shorter[i].event is Fail) by {
            assert(shorter[i] == inputs[i]);
        }
        looping_video_never_ends(shorter);
        assert(inputs.last() == inputs[inputs.len() - 1]);
        all_video_packets_are_released(true, inputs);
    }
}

/// A video that is let run and does not fail is played to its end: it ends where
/// there is no more packet to read, and nowhere before.
pub proof fn video_is_played_to_its_end(inputs: Seq<PumpInput>)
    requires
        is_video_run(true, inputs),
        forall|i: int|
            0 <= i < inputs.len() ==> (#[trigger] inputs[i]).running && !(inputs[i].event is Stop)
                && !(inputs[i].event is Fail),
    ensures
        !video_after(true, inputs).failed,
        is_video_action(video_after(true, inputs).action),
        video_after(true, inputs).action is Finish ==> {
            &&& inputs.len() > 0
            &&& video_after(true, inputs.drop_last()).action is ReadPacket
            &&& inputs.last().event is Nothing
            &&& !inputs.last().loops
        },
    decreases inputs.len(),
{
    if inputs.len() > 0 {
        let shorter = inputs.drop_last();
        assert forall|i: int| 0 <= i < shorter.len() implies (#[trigger] shorter[i]).running && !(
        shorter[i].event is Stop) && !(shorter[i].event is Fail) by {
            assert(shorter[i] == inputs[i]);
        }
        video_is_played_to_its_end(shorter);
        assert(inputs.last() == inputs[inputs.len() - 1]);
        all_video_packets_are_released(true, inputs);
    }
}

/// The round of the audio player. A packet is read whenever the last one was
/// released or the file was gone back to, as long as playback runs. At the end of
/// the file the decoder gives what it still holds; then a player that loops and
/// runs goes back to the start, and any other waits for the sound and ends. Only a
/// failure of the sound ends it otherwise.
pub proof fn audio_goes_round(loops: bool, running: bool, action: PumpAction, event: PumpEvent)
    requires
        is_audio_action(action),
        suits(action, event),
    ensures
        ({
            let next = audio_step(loops, running, action, event);
            let at_end = action is ReadPacket && event is Nothing;
            let drained = action is ReceiveFrame && action->ReceiveFrame_ended
                && event is Nothing;
            let broken_off = action is PlaySound && event is Fail;
            &&& next.action is ReadPacket <==> running && (action is ReleasePacket
                || action is Restart)
            &&& next.action is SendEnd <==> running && at_end
            &&& next.action is Restart <==> loops && running && drained
            &&& running ==> (next.action is AwaitSound <==> !loops && drained)
            &&& !running ==> (next.action is AwaitSound <==> {
                ||| action is ReleasePacket || action is Restart || at_end
                ||| action is ReceiveFrame && action->ReceiveFrame_ended
            })
            &&& next.action is Finish <==> action is AwaitSound || broken_off
            &&& next.failed <==> broken_off
            &&& !next.stop
        }),
{
}

/// What the audio player learns after an action.
pub struct AudioInput {
    pub running: bool,
    pub event: PumpEvent,
}

/// Where the audio player stands after a number of actions.
pub open spec fn audio_after(loops: bool, running: bool, inputs: Seq<AudioInput>) -> PumpStep
    decreases inputs.len(),
{
    if inputs.len() == 0 {
        audio_top(loops, running)
    } else {
        audio_step(
            loops,
            inputs.last().running,
            audio_after(loops, running, inputs.drop_last()).action,
            inputs.last().event,
        )
    }
}

/// Every event is one that its action can have.
pub open spec fn is_audio_run(loops: bool, running: bool, inputs: Seq<AudioInput>) -> bool
    decreases inputs.len(),
{
    inputs.len() > 0 ==> {
        &&& is_audio_run(loops, running, inputs.drop_last())
        &&& suits(audio_after(loops, running, inputs.drop_last()).action, inputs.last().event)
    }
}

/// The streams of all packets that the audio player read, and of those that it
/// sent to its decoder, in order.
pub open spec fn audio_routes(loops: bool, running: bool, inputs: Seq<AudioInput>) -> (
    Seq<PacketRoute>,
    Seq<PacketRoute>,
)
    decreases inputs.len(),
{
    if inputs.len() == 0 {
        (seq![], seq![])
    } else {
        let (read, sent) = audio_routes(loops, running, inputs.drop_last());
        match (audio_after(loops, running, inputs.drop_last()).action, inputs.last().event) {
            (PumpAction::ReadPacket, PumpEvent::Packet(route)) => (read.push(route), sent),
            (PumpAction::SendPacket(route), _) => (read, sent.push(route)),
            _ => (read, sent),
        }
    }
}

/// How many packets of a row belong to the audio stream.
pub open spec fn audio_packets(routes: Seq<PacketRoute>) -> nat
    decreases routes.len(),
{
    if routes.len() == 0 {
        0
    } else {
        audio_packets(routes.drop_last()) + (if routes.last() == PacketRoute::Audio {
            1nat
        } else {
            0nat
        })
    }
}

/// Every packet of the audio stream that the audio player reads is sent to its
/// decoder once, before another one is read, and no other packet is.
pub proof fn audio_packets_are_decoded(loops: bool, running: bool, inputs: Seq<AudioInput>)
    requires
        is_audio_run(loops, running, inputs),
    ensures
        ({
            let action = audio_after(loops, running, inputs).action;
            let (read, sent) = audio_routes(loops, running, inputs);
            &&& is_audio_action(action)
            &&& forall|i: int|
                0 <= i < sent.len() ==> #[trigger] sent[i] == PacketRoute::Audio
            &&& audio_packets(read) == sent.len() + (if action is SendPacket {
                1nat
            } else {
                0nat
            })
        }),
    decreases inputs.len(),
{
    if inputs.len() > 0 {
        audio_packets_are_decoded(loops, running, inputs.drop_last());
        let before = audio_after(loops, running, inputs.drop_last()).action;
        let (read, sent) = audio_routes(loops, running, inputs.drop_last());
        match (before, inputs.last().event) {
            (PumpAction::ReadPacket, PumpEvent::Packet(route)) => {
                assert(read.push(route).drop_last() =~= read);
            },
            _ => {},
        }
    }
}

/// A sound file that loops and is let run is played for ever: without a failure
/// the player never waits for the last sound and never ends.
pub proof fn looping_audio_never_ends(inputs: Seq<AudioInput>)
    requires
        is_audio_run(true, true, inputs),
        forall|i: int|
            0 <= i < inputs.len() ==> (#[trigger] inputs[i]).running && !(inputs[i].event is Fail),
    ensures
        !(audio_after(true, true, inputs).action is AwaitSound),
        !(audio_after(true, true, inputs).action is Finish),
        inputs.len() > 0 && audio_after(true, true, inputs.drop_last()).action is Restart
            ==> audio_after(true, true, inputs).action is ReadPacket,
    decreases inputs.len(),
{
    if inputs.len() > 0 {
        let shorter = inputs.drop_last();
        assert forall|i: int| 0 <= i < shorter.len() implies (#[trigger] shorter[i]).running && !(
        shorter[i].event is Fail) by {
            assert(shorter[i] == inputs[i]);
        }
        looping_audio_never_ends(shorter);
        assert(inputs.last() == inputs[inputs.len() - 1]);
        audio_packets_are_decoded(true, true, shorter);
    }
}

/// A sound file that does not loop and is let run is played to its end: the player
/// waits for the last sound only once the decoder was told of the end and has
/// nothing left, and it ends only after that wait.
pub proof fn audio_is_played_to_its_end(inputs: Seq<AudioInput>)
    requires
        is_audio_run(false, true, inputs),
        inputs.len() > 0,
        forall|i: int|
            0 <= i < inputs.len() ==> (#[trigger] inputs[i]).running && !(inputs[i].event is Fail),
    ensures
        ({
            let before = audio_after(false, true, inputs.drop_last()).action;
            let now = audio_after(false, true, inputs).action;
            &&& now is AwaitSound ==> before == (PumpAction::ReceiveFrame {
                route: PacketRoute::Audio,
                ended: true,
            }) && inputs.last().event is Nothing
            &&& now is Finish ==> before is AwaitSound
            &&& !(now is Restart)
        }),
{
    assert(inputs.last() == inputs[inputs.len() - 1]);
    audio_packets_are_decoded(false, true, inputs.drop_last());
}

} // verus!
