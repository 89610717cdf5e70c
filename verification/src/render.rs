//! What is drawn for the frames and notices that reach the screen.
use vstd::prelude::*;
use vstd::utf8::*;
use crate::ansi;
use crate::ansi::{clear_screen, move_cursor, CellContent, Screen};
use crate::base64_text;
use crate::frames;
use crate::image_ids;
use crate::image_ids::{ImageIds, TmuxImageState};
use crate::kitty;
use crate::kitty::{write_rgba_frame_to_with_tmux_state, FrameHeader};
use crate::kitty_reader;
use crate::player::RenderNotice;
use crate::status;
use crate::status::{draw_status_row, Status, StatusState};
use crate::text;
use crate::tmux;
use crate::video_layout;
use crate::video_layout::{VideoDisplaySize, VideoTerminalLayout};

verus! {

/// A decoded frame on its way to the screen.
#[derive(Debug, Clone)]
pub struct VideoFrame {
    pub rgba: Vec<u8>,
    pub pts_ms: u64,
    pub generation: u64,
    pub display_size: VideoDisplaySize,
}

/// What reaches the thread that draws.
#[derive(Debug, Clone)]
pub enum RenderMessage {
    Frame(VideoFrame),
    Notice(RenderNotice),
}

/// What is known of the screen: its layout, the generation that it shows, and
/// the time of the first frame of that generation.
#[derive(Debug, Clone, Copy, PartialEq, Eq, Structural)]
pub struct RenderState {
    pub layout: VideoTerminalLayout,
    pub active_generation: u64,
    pub first_video_pts_ms: Option<u64>,
}

/// What becomes of a frame that arrives.
#[derive(Debug, Clone, Copy, PartialEq, Eq, Structural)]
pub enum FrameStep {
    /// It belongs to a generation that is over.
    Skip,
    /// It is due `relative_ms` after the first frame of its generation. With a
    /// new generation the frame clock starts anew.
    Await { relative_ms: u64, restart_clock: bool },
}

/// What follows a notice.
#[derive(Debug, Clone, Copy, PartialEq, Eq, Structural)]
pub enum NoticeStep {
    Continue,
    RestartClock,
    Stop,
}

/// How long after `first_ms` a frame is due.
pub open spec fn due_after(pts_ms: u64, first_ms: u64) -> u64 {
    if pts_ms < first_ms {
        0
    } else {
        (pts_ms - first_ms) as u64
    }
}

/// Whether a frame is to be shown once its wait is over. It may have come late
/// for its sound, or a jump or the end of playback may have overtaken it.
pub open spec fn is_due(
    late: bool,
    running: bool,
    generation: u64,
    current_generation: u64,
) -> bool {
    !late && running && generation == current_generation
}

/// The status once a frame is shown.
pub open spec fn status_at(status: Status, pts_ms: u64) -> Status {
    Status { current_ms: pts_ms, ..status }
}

/// Everything that is drawn for a frame: the cursor goes where the video is
/// centered, then come the picture and the status row.
pub open spec fn drawn_frame(
    layout: VideoTerminalLayout,
    size: VideoDisplaySize,
    rgba: Seq<u8>,
    status: Status,
    tmux_passthrough: bool,
    images: image_ids::TmuxImages,
) -> Seq<u8> {
    let col = video_layout::centered_origin(layout.cols as int, size.target_cols as int) as u16;
    let row = video_layout::centered_origin(
        layout.video_area_rows as int,
        size.target_rows as int,
    ) as u16;
    let header = FrameHeader {
        tmux_passthrough,
        image_id: if tmux_passthrough {
            images.frame_id()
        } else {
            0
        },
        width_px: size.target_w_px,
        height_px: size.target_h_px,
        cols: size.target_cols,
        rows: size.target_rows,
        prevent_cursor_move: true,
    };
    encode_utf8(ansi::move_to_text(col, row)) + kitty::frame_output(
        header,
        tmux_passthrough && images.reuses(),
        rgba,
        col,
    ) + status::status_row_bytes(layout, status)
}

/// What is drawn on a notice.
pub open spec fn drawn_notice(
    layout: VideoTerminalLayout,
    notice: RenderNotice,
    status: Status,
) -> Seq<u8> {
    match notice {
        RenderNotice::Layout(new_layout) => encode_utf8(ansi::blank_screen_text())
            + status::status_row_bytes(new_layout, status),
        RenderNotice::Quit => seq![],
        _ => status::status_row_bytes(layout, status),
    }
}

/// What is drawn before the first frame.
pub open spec fn opened_screen(layout: VideoTerminalLayout, status: Status) -> Seq<u8> {
    encode_utf8(ansi::blank_screen_text()) + status::status_row_bytes(layout, status)
}

impl RenderState {
    /// The time from which the frames of `generation` are counted, once one of
    /// them has arrived with the time `pts_ms`.
    pub open spec fn first_pts(self, pts_ms: u64, generation: u64) -> u64 {
        if generation != self.active_generation || self.first_video_pts_ms is None {
            pts_ms
        } else {
            self.first_video_pts_ms->0
        }
    }

    /// What is known after the arrival of a frame. One of a generation that is
    /// over changes nothing.
    pub open spec fn after_arrival(
        self,
        pts_ms: u64,
        generation: u64,
        current_generation: u64,
    ) -> RenderState {
        if generation != current_generation {
            self
        } else {
            RenderState {
                layout: self.layout,
                active_generation: generation,
                first_video_pts_ms: Some(self.first_pts(pts_ms, generation)),
            }
        }
    }

    /// What becomes of a frame that arrives.
    pub open spec fn arrival_step(
        self,
        pts_ms: u64,
        generation: u64,
        current_generation: u64,
    ) -> FrameStep {
        if generation != current_generation {
            FrameStep::Skip
        } else {
            FrameStep::Await {
                relative_ms: due_after(pts_ms, self.first_pts(pts_ms, generation)),
                restart_clock: generation != self.active_generation,
            }
        }
    }

    /// What is known after a notice.
    pub open spec fn after_notice(self, notice: RenderNotice) -> RenderState {
        match notice {
            RenderNotice::Layout(layout) => RenderState { layout, ..self },
            RenderNotice::Reset { generation } => RenderState {
                layout: self.layout,
                active_generation: generation,
                first_video_pts_ms: None,
            },
            _ => self,
        }
    }

    /// The screen before the first frame.
    pub fn new(layout: VideoTerminalLayout, generation: u64) -> (state: Self)
        ensures
            state == (RenderState {
                layout,
                active_generation: generation,
                first_video_pts_ms: None,
            }),
    {
        RenderState { layout, active_generation: generation, first_video_pts_ms: None }
    }

    /// Appends what draws the screen before the first frame.
    pub fn open_screen(&self, writer: &mut Vec<u8>, status: &StatusState)
        requires
            self.layout.wf(),
        ensures
            final(writer)@ == old(writer)@ + encode_utf8(ansi::blank_screen_text())
                + status::status_row_bytes(self.layout, status@),
            final(writer)@ == old(writer)@ + opened_screen(self.layout, status@),
    {
        clear_screen(writer);
        draw_status_row(writer, self.layout, status);
        assert(writer@ =~= old(writer)@ + opened_screen(self.layout, status@));
    }

    /// Takes up a frame. `current_generation` is the one that is being played.
    pub fn frame_arrived(
        &mut self,
        pts_ms: u64,
        generation: u64,
        current_generation: u64,
    ) -> (step: FrameStep)
        ensures
            *final(self) == old(self).after_arrival(pts_ms, generation, current_generation),
            step == old(self).arrival_step(pts_ms, generation, current_generation),
    {
        if generation != current_generation {
            return FrameStep::Skip;
        }
        let restarted: bool = generation != self.active_generation;
        if restarted {
            self.active_generation = generation;
            self.first_video_pts_ms = None;
        }
        let first: u64 = match self.first_video_pts_ms {
            Some(first) => first,
            None => pts_ms,
        };
        self.first_video_pts_ms = Some(first);
        FrameStep::Await {
            relative_ms: pts_ms.saturating_sub(first),
            restart_clock: restarted,
        }
    }

    /// Appends what shows a frame, and takes its time as the current one.
    pub fn draw_frame(
        &self,
        writer: &mut Vec<u8>,
        frame: &VideoFrame,
        status: &mut StatusState,
        tmux_image_state: &mut TmuxImageState,
        tmux_passthrough: bool,
        ids: &mut ImageIds,
    )
        requires
            self.layout.wf(),
            base64_text::base64_len(frame.rgba@.len()) <= isize::MAX,
            old(tmux_image_state)@.wf(),
        ensures
            final(status)@ == (Status { current_ms: frame.pts_ms, ..old(status)@ }),
            final(status)@ == status_at(old(status)@, frame.pts_ms),
            final(writer)@ == old(writer)@ + drawn_frame(
                self.layout,
                frame.display_size,
                frame.rgba@,
                final(status)@,
                tmux_passthrough,
                old(tmux_image_state)@,
            ),
            final(tmux_image_state)@ == kitty::images_after(
                old(tmux_image_state)@,
                tmux_passthrough,
            ),
            *final(ids) == *old(ids),
    {
        status.current_ms = frame.pts_ms;
        let size: VideoDisplaySize = frame.display_size;
        let (origin_col, origin_row) = self.layout.origin_for(size);
        move_cursor(writer, origin_col, origin_row);
        write_rgba_frame_to_with_tmux_state(
            writer,
            frame.rgba.as_slice(),
            size.target_w_px,
            size.target_h_px,
            size.target_cols,
            size.target_rows,
            true,
            origin_col,
            Some(tmux_image_state),
            tmux_passthrough,
            ids,
        );
        draw_status_row(writer, self.layout, status);
        assert(writer@ =~= old(writer)@ + drawn_frame(
            self.layout,
            frame.display_size,
            frame.rgba@,
            status@,
            tmux_passthrough,
            old(tmux_image_state)@,
        ));
    }

    /// Ends the wait of a frame: appends what shows it, where it is still to be
    /// shown, and returns its time as the new position. Otherwise nothing changes.
    pub fn finish_frame(
        &self,
        writer: &mut Vec<u8>,
        frame: &VideoFrame,
        late: bool,
        running: bool,
        current_generation: u64,
        status: &mut StatusState,
        tmux_image_state: &mut TmuxImageState,
        tmux_passthrough: bool,
        ids: &mut ImageIds,
    ) -> (position_ms: Option<u64>)
        requires
            self.layout.wf(),
            base64_text::base64_len(frame.rgba@.len()) <= isize::MAX,
            old(tmux_image_state)@.wf(),
        ensures
            is_due(late, running, frame.generation, current_generation) ==> {
                &&& position_ms == Some(frame.pts_ms)
                &&& final(status)@ == (Status { current_ms: frame.pts_ms, ..old(status)@ })
                &&& final(status)@ == status_at(old(status)@, frame.pts_ms)
                &&& final(writer)@ == old(writer)@ + drawn_frame(
                    self.layout,
                    frame.display_size,
                    frame.rgba@,
                    final(status)@,
                    tmux_passthrough,
                    old(tmux_image_state)@,
                )
                &&& final(tmux_image_state)@ == kitty::images_after(
                    old(tmux_image_state)@,
                    tmux_passthrough,
                )
            },
            !is_due(late, running, frame.generation, current_generation) ==> {
                &&& position_ms is None
                &&& final(status)@ == old(status)@
                &&& final(writer)@ == old(writer)@
                &&& final(tmux_image_state)@ == old(tmux_image_state)@
            },
            *final(ids) == *old(ids),
    {
        if late || !running || frame.generation != current_generation {
            return None;
        }
        self.draw_frame(writer, frame, status, tmux_image_state, tmux_passthrough, ids);
        Some(frame.pts_ms)
    }

    /// Takes up a notice, and appends what it draws.
    pub fn handle_notice(
        &mut self,
        notice: RenderNotice,
        writer: &mut Vec<u8>,
        status: &StatusState,
    ) -> (step: NoticeStep)
        requires
            old(self).layout.wf(),
            notice matches RenderNotice::Layout(layout) ==> layout.wf(),
        ensures
            final(self).layout.wf(),
            *final(self) == (match notice {
                RenderNotice::Layout(layout) => RenderState { layout, ..*old(self) },
                RenderNotice::Reset { generation } => RenderState {
                    layout: old(self).layout,
                    active_generation: generation,
                    first_video_pts_ms: None,
                },
                _ => *old(self),
            }),
            *final(self) == old(self).after_notice(notice),
            final(writer)@ == old(writer)@ + drawn_notice(old(self).layout, notice, status@),
            step == (match notice {
                RenderNotice::Reset { .. } => NoticeStep::RestartClock,
                RenderNotice::Quit => NoticeStep::Stop,
                _ => NoticeStep::Continue,
            }),
    {
        match notice {
            RenderNotice::Layout(layout) => {
                self.layout = layout;
                clear_screen(writer);
                draw_status_row(writer, layout, status);
                assert(writer@ =~= old(writer)@ + drawn_notice(
                    old(self).layout,
                    notice,
                    status@,
                ));
                NoticeStep::Continue
            },
            RenderNotice::Reset { generation } => {
                self.active_generation = generation;
                self.first_video_pts_ms = None;
                draw_status_row(writer, self.layout, status);
                NoticeStep::RestartClock
            },
            RenderNotice::RedrawStatus => {
                draw_status_row(writer, self.layout, status);
                NoticeStep::Continue
            },
            RenderNotice::Quit => {
                assert(writer@ =~= old(writer)@ + drawn_notice(
                    old(self).layout,
                    notice,
                    status@,
                ));
                NoticeStep::Stop
            },
        }
    }
}

/// How long a frame of a silent video still has to wait: `delay_ns` must lie
/// between it and the frame before.
pub fn frame_wait_ns(elapsed_ns: u128, delay_ns: u128) -> (wait_ns: u128)
    ensures
        wait_ns == (if elapsed_ns < delay_ns {
            delay_ns - elapsed_ns
        } else {
            0
        }),
        wait_ns == frame_wait(elapsed_ns as nat, delay_ns as nat),
{
    if elapsed_ns < delay_ns {
        delay_ns - elapsed_ns
    } else {
        0
    }
}

/// The first frame of a generation is due at once, also after a notice of the
/// jump that started it.
pub proof fn first_frame_is_due_at_once(state: RenderState, pts_ms: u64, generation: u64)
    requires
        generation != state.active_generation || state.first_video_pts_ms is None,
    ensures
        state.arrival_step(pts_ms, generation, generation) matches FrameStep::Await {
            relative_ms,
            ..
        } && relative_ms == 0,
{
}

/// Frames of one generation are due as far apart as their times are, whatever
/// frames of generations that are over arrive between them.
pub proof fn frames_keep_their_distance(
    state: RenderState,
    first_ms: u64,
    stale_ms: u64,
    stale_generation: u64,
    second_ms: u64,
    generation: u64,
)
    requires
        stale_generation != generation,
        state.first_pts(first_ms, generation) <= first_ms <= second_ms,
    ensures
        ({
            let between = state.after_arrival(first_ms, generation, generation).after_arrival(
                stale_ms,
                stale_generation,
                generation,
            );
            &&& state.arrival_step(first_ms, generation, generation) matches FrameStep::Await {
                relative_ms: first_due,
                ..
            }
            &&& between.arrival_step(second_ms, generation, generation) matches FrameStep::Await {
                relative_ms: second_due,
                restart_clock,
            }
            &&& second_due - first_due == second_ms - first_ms
            &&& !restart_clock
        }),
{
}

/// A frame is shown only if playback runs and is of its generation both when the
/// frame arrives and when its wait is over, and if it is not late for its sound.
pub proof fn shown_frames_are_current(
    state: RenderState,
    pts_ms: u64,
    generation: u64,
    current_at_arrival: u64,
    late: bool,
    running: bool,
    current_generation: u64,
)
    requires
        state.arrival_step(pts_ms, generation, current_at_arrival) is Await,
        is_due(late, running, generation, current_generation),
    ensures
        generation == current_at_arrival,
        generation == current_generation,
        running,
        !late,
{
}

/// After a jump no frame of the generations before it is taken up again.
pub proof fn stale_frames_are_skipped(
    state: RenderState,
    pts_ms: u64,
    generation: u64,
    current_generation: u64,
)
    requires
        generation < current_generation,
    ensures
        state.arrival_step(pts_ms, generation, current_generation) is Skip,
        state.after_arrival(pts_ms, generation, current_generation) == state,
{
}

/// A frame that is on time is shown: whatever its time is, it waits as long as its
/// distance from the first frame of its generation, and once the wait is over it is
/// shown, unless it came late for its sound, playback stopped, or a jump overtook it.
pub proof fn current_frames_are_shown(
    state: RenderState,
    pts_ms: u64,
    generation: u64,
    late: bool,
    running: bool,
    current_generation: u64,
)
    ensures
        state.arrival_step(pts_ms, generation, generation) is Await,
        is_due(late, running, generation, current_generation) <==> !late && running && generation
            == current_generation,
{
}

/// The clock of the frames starts anew exactly with a frame of another generation, and
/// that generation is the one that is shown from there on. Within a generation a frame
/// is due after its distance from the first one; one before the first is due at once.
pub proof fn clock_follows_the_generation(state: RenderState, pts_ms: u64, generation: u64)
    ensures
        ({
            let after = state.after_arrival(pts_ms, generation, generation);
            let same = generation == state.active_generation;
            &&& after.active_generation == generation
            &&& after.layout == state.layout
            &&& after.first_video_pts_ms is Some
            &&& same && state.first_video_pts_ms is Some ==> after == state
            &&& !(same && state.first_video_pts_ms is Some) ==> after.first_video_pts_ms == Some(
                pts_ms,
            )
            &&& state.arrival_step(pts_ms, generation, generation) matches FrameStep::Await {
                relative_ms,
                restart_clock,
            }
            &&& restart_clock <==> !same
            &&& after.first_video_pts_ms->0 <= pts_ms ==> after.first_video_pts_ms->0 + relative_ms
                == pts_ms
            &&& after.first_video_pts_ms->0 > pts_ms ==> relative_ms == 0
        }),
{
}

/// A frame is drawn in the middle of the video area: the cursor goes to a cell that is
/// as far from the left edge as the picture's right edge is from the right, and as far
/// from the top as its lower edge is from the status row, up to one cell. There the
/// terminal reads the pixels in the size of the frame, with the cursor kept in place and
/// the placeholders indented as far, and the status row follows.
pub proof fn frame_is_drawn_in_the_middle(
    layout: VideoTerminalLayout,
    size: VideoDisplaySize,
    rgba: Seq<u8>,
    status: Status,
    tmux_passthrough: bool,
    images: image_ids::TmuxImages,
    left: u16,
    top: u16,
)
    requires
        rgba.len() > 0,
        size.target_cols <= layout.cols,
        size.target_rows <= layout.video_area_rows,
        left <= layout.cols - size.target_cols - left <= left + 1,
        top <= layout.video_area_rows - size.target_rows - top <= top + 1,
    ensures
        ({
            let drawn = drawn_frame(layout, size, rgba, status, tmux_passthrough, images);
            let go = encode_utf8(ansi::move_to_text(left, top));
            let row = status::status_row_bytes(layout, status);
            let sent = drawn.subrange(go.len() as int, drawn.len() - row.len());
            let replaces = tmux_passthrough && images.used[images.turn];
            let stream = match kitty_reader::read_packet(sent, true) {
                Some((_, after)) if replaces => after,
                _ => sent,
            };
            &&& drawn == go + sent + row
            &&& replaces ==> kitty_reader::read_packet(sent, true) == Some(
                (kitty_reader::delete_body(images.ids[images.turn]), stream),
            )
            &&& kitty_reader::read_keys(stream, tmux_passthrough) matches Some(parts)
            &&& kitty_reader::names_frame(
                parts,
                FrameHeader {
                    tmux_passthrough,
                    image_id: if tmux_passthrough {
                        images.ids[images.turn]
                    } else {
                        0
                    },
                    width_px: size.target_w_px,
                    height_px: size.target_h_px,
                    cols: size.target_cols,
                    rows: size.target_rows,
                    prevent_cursor_move: true,
                },
                base64_text::base64_len(rgba.len()) > 4096,
            )
            &&& kitty_reader::read_transmission(stream, tmux_passthrough) matches Some(
                (payload, after),
            )
            &&& base64_text::decoded(decode_utf8(payload)) == rgba
            &&& tmux_passthrough ==> after == encode_utf8(
                tmux::placeholders_text(
                    images.ids[images.turn],
                    size.target_cols,
                    size.target_rows,
                    left,
                    true,
                ),
            )
            &&& !tmux_passthrough ==> after.len() == 0
        }),
{
    let drawn = drawn_frame(layout, size, rgba, status, tmux_passthrough, images);
    let go = encode_utf8(ansi::move_to_text(left, top));
    let row = status::status_row_bytes(layout, status);
    let ids = ImageIds { next: 1 };
    let written = kitty::written_frame(
        rgba,
        size.target_w_px,
        size.target_h_px,
        size.target_cols,
        size.target_rows,
        true,
        left,
        Some(images),
        tmux_passthrough,
        ids,
    );
    assert(video_layout::centered_origin(layout.cols as int, size.target_cols as int) == left);
    assert(video_layout::centered_origin(layout.video_area_rows as int, size.target_rows as int)
        == top);
    assert(drawn == go + written + row);
    assert(drawn.subrange(go.len() as int, drawn.len() - row.len()) =~= written);
    frames::sent_frame_is_read_as_given(
        rgba,
        size.target_w_px,
        size.target_h_px,
        size.target_cols,
        size.target_rows,
        true,
        left,
        Some(images),
        tmux_passthrough,
        ids,
    );
}

/// A new layout empties the terminal and draws the status row where the new layout has
/// it. A jump and a request to draw the row again change nothing but that row, and the
/// end of playback draws nothing.
pub proof fn notices_draw_the_status_row(
    layout: VideoTerminalLayout,
    notice: RenderNotice,
    status: Status,
    screen: Screen,
    row: int,
    col: int,
)
    requires
        ansi::is_plain(status.text()),
    ensures
        ({
            let after = screen.shown(decode_utf8(drawn_notice(layout, notice, status)));
            let shown = match notice {
                RenderNotice::Layout(new_layout) => new_layout,
                _ => layout,
            };
            &&& notice is Quit ==> drawn_notice(layout, notice, status).len() == 0
            &&& !(notice is Quit) && shown.status_row == Some(row as u16) && 0 <= row <= u16::MAX
                ==> after.at(row, col) == (if 0 <= col < shown.cols && col < status.text().len() {
                Some(CellContent::Letter(status.text()[col]))
            } else {
                None
            })
            &&& notice is Layout && shown.status_row != Some(row as u16) && 0 <= row <= u16::MAX
                ==> after.at(row, col) is None
            &&& (notice is Reset || notice is RedrawStatus) && shown.status_row != Some(
                row as u16,
            ) && 0 <= row <= u16::MAX ==> after.at(row, col) == screen.at(row, col)
        }),
{
    match notice {
        RenderNotice::Layout(new_layout) => {
            let blank = ansi::blank_screen_text();
            let emptied = Screen { row: 0, col: 0, ..screen.without(|at: (int, int)| true) };
            let sent = status::status_row_bytes(new_layout, status);
            let rest = decode_utf8(sent);
            status_row_is_text(new_layout, status);
            text::encode_utf8_concat(blank, rest);
            assert(drawn_notice(layout, notice, status) == encode_utf8(blank + rest));
            encode_utf8_decode_utf8(blank + rest);
            ansi::blank_screen_is_empty(screen, rest, row, col);
            status::status_row_is_drawn_in_its_row(new_layout, status, emptied, row, col);
            if new_layout.status_row is None {
                assert(rest =~= seq![]);
                ansi::nothing_is_shown(emptied);
            }
        },
        RenderNotice::Quit => {},
        _ => {
            status_row_is_text(layout, status);
            status::status_row_is_drawn_in_its_row(layout, status, screen, row, col);
            if layout.status_row is None {
                assert(decode_utf8(status::status_row_bytes(layout, status)) =~= seq![]);
                ansi::nothing_is_shown(screen);
            }
        },
    }
}

/// What draws the status row is text.
proof fn status_row_is_text(layout: VideoTerminalLayout, status: Status)
    ensures
        encode_utf8(decode_utf8(status::status_row_bytes(layout, status)))
            == status::status_row_bytes(layout, status),
        layout.status_row is None ==> decode_utf8(status::status_row_bytes(layout, status)).len()
            == 0,
{
    match layout.status_row {
        Some(row) => {
            let go = ansi::move_to_text(0, row);
            let clear = ansi::clear_text(ansi::ClearArea::CurrentLine);
            let shown = status::first_cols(status.text(), layout.cols as int);
            text::encode_utf8_concat(go, clear);
            text::encode_utf8_concat(go + clear, shown);
            encode_utf8_decode_utf8(go + clear + shown);
        },
        None => {
            let none = Seq::<char>::empty();
            assert(encode_utf8(none) =~= Seq::<u8>::empty());
            encode_utf8_decode_utf8(none);
        },
    }
}

/// How long a frame still has to wait.
pub open spec fn frame_wait(elapsed_ns: nat, delay_ns: nat) -> nat {
    if elapsed_ns < delay_ns {
        (delay_ns - elapsed_ns) as nat
    } else {
        0
    }
}

/// With its wait a frame comes just after the delay, or at once where more time than
/// that has gone by.
pub proof fn waits_fill_the_delay(elapsed_ns: nat, delay_ns: nat)
    ensures
        elapsed_ns <= delay_ns ==> elapsed_ns + frame_wait(elapsed_ns, delay_ns) == delay_ns,
        elapsed_ns > delay_ns ==> frame_wait(elapsed_ns, delay_ns) == 0,
{
}

/// After the notice of a jump the first frame of its generation is due at once, with
/// the clock that the notice started, and the frames behind it follow at their distance.
/// A new layout is the one that frames are drawn in from there on, and changes nothing
/// of their times.
pub proof fn notices_take_effect(
    state: RenderState,
    generation: u64,
    first_ms: u64,
    second_ms: u64,
    layout: VideoTerminalLayout,
)
    requires
        first_ms <= second_ms,
    ensures
        ({
            let jumped = state.after_notice(RenderNotice::Reset { generation });
            let first = jumped.arrival_step(first_ms, generation, generation);
            let second = jumped.after_arrival(first_ms, generation, generation).arrival_step(
                second_ms,
                generation,
                generation,
            );
            &&& jumped.layout == state.layout
            &&& first == (FrameStep::Await { relative_ms: 0, restart_clock: false })
            &&& second == (FrameStep::Await {
                relative_ms: (second_ms - first_ms) as u64,
                restart_clock: false,
            })
        }),
        ({
            let resized = state.after_notice(RenderNotice::Layout(layout));
            &&& resized.layout == layout
            &&& resized.arrival_step(first_ms, generation, generation) == state.arrival_step(
                first_ms,
                generation,
                generation,
            )
        }),
        state.after_notice(RenderNotice::RedrawStatus) == state,
        state.after_notice(RenderNotice::Quit) == state,
{
}

/// With a frame the status row tells the time of that frame, and keeps everything else.
pub proof fn status_tells_the_time_of_the_frame(status: Status, pts_ms: u64)
    ensures
        ({
            let after = status_at(status, pts_ms);
            &&& after.current_ms == pts_ms
            &&& after.duration_ms == status.duration_ms
            &&& after.volume_percent == status.volume_percent
            &&& after.message == status.message
            &&& after.input == status.input
        }),
{
}

/// Before the first frame the terminal is empty but for the status row.
pub proof fn screen_opens_with_the_status_row(
    layout: VideoTerminalLayout,
    status: Status,
    screen: Screen,
    row: u16,
    col: int,
)
    requires
        ansi::is_plain(status.text()),
    ensures
        screen.shown(decode_utf8(opened_screen(layout, status))).at(row as int, col) == (
        if layout.status_row == Some(row) && 0 <= col < layout.cols && col < status.text().len() {
            Some(CellContent::Letter(status.text()[col]))
        } else {
            None
        }),
{
    let notice = RenderNotice::Layout(layout);
    notices_draw_the_status_row(layout, notice, status, screen, row as int, col);
    assert(opened_screen(layout, status) == drawn_notice(layout, notice, status));
}

} // verus!
