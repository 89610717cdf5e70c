use kitim::ansi::{
    clear_screen, enter_video_screen, leave_video_screen, move_cursor, move_down_robust,
    move_up_robust,
};
use kitim::image_ids::{ImageIds, TmuxImageState};
use kitim::output::{flush_step, next_sleep_ns, Attempt, OutputStep, WriteProgress};
use kitim::player::{PlaybackState, RenderNotice};
use kitim::pump::{
    advance_audio, advance_video, start_audio, start_video, PumpAction, PumpEvent, PumpStep,
};
use kitim::render::{frame_wait_ns, FrameStep, NoticeStep, RenderState, VideoFrame};
use kitim::status::StatusState;
use kitim::streams::PacketRoute;
use kitim::terminal_geometry::TerminalGeometry;
use kitim::video_layout::VideoTerminalLayout;

fn layout() -> VideoTerminalLayout {
    VideoTerminalLayout::from_geometry(TerminalGeometry::from_cells(20, 6))
}

fn playback() -> PlaybackState {
    PlaybackState::start(layout(), layout().display_size_for(10, 20), None)
}

#[test]
fn cursor_moves_are_written_out() {
    let mut out = Vec::new();
    move_up_robust(&mut out, 12);
    assert_eq!(out, b"\x1b[12A\x1b[1G");

    let mut out = Vec::new();
    move_down_robust(&mut out, 3);
    assert_eq!(out, b"\x1b[3B\x1b[1G");

    let mut out = Vec::new();
    move_cursor(&mut out, 4, 9);
    assert_eq!(out, b"\x1b[10;5H");
}

#[test]
fn video_screen_is_opened_and_closed() {
    let mut out = Vec::new();
    enter_video_screen(&mut out);
    assert_eq!(out, b"\x1b[?1049h\x1b[?25l\x1b[2J\x1b[1;1H");

    let mut out = Vec::new();
    leave_video_screen(&mut out);
    assert_eq!(out, b"\x1b[?25h\x1b[2J\x1b[?1049l\x1b[1;1H");

    let mut out = Vec::new();
    clear_screen(&mut out);
    assert_eq!(out, b"\x1b[2J\x1b[1;1H");
}

#[test]
fn busy_terminals_are_tried_again() {
    let mut progress = WriteProgress::start(10);
    assert_eq!(progress.first_step(), OutputStep::Attempt);
    assert_eq!(progress.record(Attempt::Done(4)), OutputStep::Attempt);
    let busy = Attempt::Failed { would_block: true, os_code: None };
    assert_eq!(progress.record(busy), OutputStep::Pause);
    let busy = Attempt::Failed { would_block: false, os_code: Some(35) };
    assert_eq!(progress.record(busy), OutputStep::Pause);
    assert_eq!(progress.written, 4);
    assert_eq!(progress.record(Attempt::Done(6)), OutputStep::Finished);
    assert_eq!(progress.written, 10);
}

#[test]
fn broken_terminals_are_given_up() {
    let mut progress = WriteProgress::start(1);
    let broken = Attempt::Failed { would_block: false, os_code: Some(32) };
    assert_eq!(progress.record(broken), OutputStep::Fail);
    assert_eq!(progress.record(Attempt::Done(0)), OutputStep::TakesNothing);
    assert_eq!(WriteProgress::start(0).first_step(), OutputStep::Finished);

    assert_eq!(flush_step(Attempt::Done(0)), OutputStep::Finished);
    assert_eq!(flush_step(broken), OutputStep::Fail);
    let busy = Attempt::Failed { would_block: true, os_code: Some(11) };
    assert_eq!(flush_step(busy), OutputStep::Pause);
}

#[test]
fn long_waits_are_cut_into_steps() {
    let mut slept = 0u128;
    let mut waits = Vec::new();
    while let Some(ns) = next_sleep_ns(slept, 25_000_000, true, true) {
        waits.push(ns);
        slept += u128::from(ns);
    }
    assert_eq!(waits, vec![10_000_000, 10_000_000, 5_000_000]);
    assert_eq!(next_sleep_ns(0, 25_000_000, false, true), None);
    assert_eq!(next_sleep_ns(0, 25_000_000, true, false), None);
}

#[test]
fn frames_are_timed_from_the_first_of_their_generation() {
    let mut state = RenderState::new(layout(), 0);
    assert_eq!(
        state.frame_arrived(500, 0, 0),
        FrameStep::Await { relative_ms: 0, restart_clock: false }
    );
    assert_eq!(
        state.frame_arrived(540, 0, 0),
        FrameStep::Await { relative_ms: 40, restart_clock: false }
    );
    assert_eq!(state.frame_arrived(580, 0, 1), FrameStep::Skip);
    assert_eq!(state.first_video_pts_ms, Some(500));
    assert_eq!(
        state.frame_arrived(9_000, 1, 1),
        FrameStep::Await { relative_ms: 0, restart_clock: true }
    );
    assert_eq!(
        state.frame_arrived(8_990, 1, 1),
        FrameStep::Await { relative_ms: 0, restart_clock: false }
    );
}

#[test]
fn silent_frames_wait_for_their_turn() {
    assert_eq!(frame_wait_ns(10, 33), 23);
    assert_eq!(frame_wait_ns(33, 33), 0);
    assert_eq!(frame_wait_ns(50, 33), 0);
}

#[test]
fn screen_is_opened_empty() {
    let mut out = Vec::new();
    RenderState::new(layout(), 0).open_screen(&mut out, &StatusState::default());
    assert_eq!(out, b"\x1b[2J\x1b[1;1H\x1b[6;1H\x1b[2K0:00 / --:-- | Vol 1");
}

#[test]
fn frames_are_drawn_centered_above_the_status() {
    let size = layout().display_size_for(20, 20);
    let state = RenderState::new(layout(), 0);
    let frame = VideoFrame {
        rgba: vec![1, 2, 3, 4],
        pts_ms: 61_000,
        generation: 0,
        display_size: size,
    };
    let mut ids = ImageIds::new();
    let mut images = TmuxImageState::new(&mut ids);
    let mut status = StatusState::default();
    let mut out = Vec::new();
    state.draw_frame(&mut out, &frame, &mut status, &mut images, false, &mut ids);

    assert_eq!(status.current_ms, 61_000);
    assert_eq!(
        String::from_utf8(out).unwrap(),
        "\x1b[3;10H\x1b_Ga=T,f=32,s=20,v=20,C=1,q=2,m=0;AQIDBA==\x1b\\\
         \x1b[6;1H\x1b[2K1:01 / --:-- | Vol 1"
    );
}

#[test]
fn overtaken_frames_are_not_shown() {
    let state = RenderState::new(layout(), 2);
    let frame = VideoFrame {
        rgba: vec![1, 2, 3, 4],
        pts_ms: 61_000,
        generation: 2,
        display_size: layout().display_size_for(20, 20),
    };
    let mut ids = ImageIds::new();
    let mut images = TmuxImageState::new(&mut ids);
    let mut status = StatusState::default();
    let mut finish = |late, running, generation, out: &mut Vec<u8>| {
        let position = state.finish_frame(
            out,
            &frame,
            late,
            running,
            generation,
            &mut status,
            &mut images,
            false,
            &mut ids,
        );
        (position, status.current_ms)
    };
    let mut out = Vec::new();
    assert_eq!(finish(true, true, 2, &mut out), (None, 0));
    assert_eq!(finish(false, false, 2, &mut out), (None, 0));
    assert_eq!(finish(false, true, 3, &mut out), (None, 0));
    assert!(out.is_empty());
    assert_eq!(finish(false, true, 2, &mut out), (Some(61_000), 61_000));
    assert!(out.starts_with(b"\x1b[3;10H\x1b_Ga=T,"));
}

#[test]
fn notices_change_what_is_shown() {
    let mut state = RenderState::new(layout(), 0);
    state.frame_arrived(100, 0, 0);
    let status = StatusState::default();

    let mut out = Vec::new();
    let reset = RenderNotice::Reset { generation: 4 };
    assert_eq!(state.handle_notice(reset, &mut out, &status), NoticeStep::RestartClock);
    assert_eq!(state.active_generation, 4);
    assert_eq!(state.first_video_pts_ms, None);
    assert!(out.starts_with(b"\x1b[6;1H\x1b[2K"));

    let mut out = Vec::new();
    let new_layout = VideoTerminalLayout::from_geometry(TerminalGeometry::from_cells(5, 3));
    let notice = RenderNotice::Layout(new_layout);
    assert_eq!(state.handle_notice(notice, &mut out, &status), NoticeStep::Continue);
    assert_eq!(out, b"\x1b[2J\x1b[1;1H\x1b[3;1H\x1b[2K0:00 ");
    assert_eq!(state.layout, new_layout);

    let mut out = Vec::new();
    let notice = RenderNotice::RedrawStatus;
    assert_eq!(state.handle_notice(notice, &mut out, &status), NoticeStep::Continue);
    assert_eq!(out, b"\x1b[3;1H\x1b[2K0:00 ");

    let mut out = Vec::new();
    assert_eq!(state.handle_notice(RenderNotice::Quit, &mut out, &status), NoticeStep::Stop);
    assert!(out.is_empty());
}

fn video_step(action: PumpAction, event: PumpEvent, running: bool, loops: bool) -> PumpStep {
    advance_video(&playback(), 0, loops, running, false, action, event)
}

#[test]
fn video_packets_run_through_the_player() {
    let receive = PumpAction::ReceiveFrame { route: PacketRoute::Video, ended: false };
    assert_eq!(start_video(true).action, PumpAction::HandleCommands);
    let mut action = PumpAction::HandleCommands;
    let events = [
        (PumpEvent::Done, PumpAction::ReadPacket),
        (PumpEvent::Packet(PacketRoute::Video), PumpAction::SendPacket(PacketRoute::Video)),
        (PumpEvent::Done, receive),
        (PumpEvent::Frame { pts_ms: Some(40) }, PumpAction::ShowFrame { pts_ms: 40 }),
        (PumpEvent::Done, receive),
        (PumpEvent::Nothing, PumpAction::ReleasePacket),
        (PumpEvent::Done, PumpAction::HandleCommands),
        (PumpEvent::Done, PumpAction::ReadPacket),
        (PumpEvent::Packet(PacketRoute::Ignored), PumpAction::ReleasePacket),
        (PumpEvent::Done, PumpAction::HandleCommands),
        (PumpEvent::Done, PumpAction::ReadPacket),
        (PumpEvent::Nothing, PumpAction::Finish),
    ];
    for (event, expected) in events {
        let step = video_step(action, event, true, false);
        assert_eq!(step, PumpStep { action: expected, failed: false, stop: false });
        action = step.action;
    }
}

#[test]
fn looping_videos_restart_at_their_end() {
    let step = video_step(PumpAction::ReadPacket, PumpEvent::Nothing, true, true);
    assert_eq!(step.action, PumpAction::Restart);
    let step = video_step(PumpAction::Restart, PumpEvent::Done, true, true);
    assert_eq!(step.action, PumpAction::HandleCommands);
    let step = video_step(PumpAction::Restart, PumpEvent::Fail, true, true);
    assert_eq!(step, PumpStep { action: PumpAction::Finish, failed: true, stop: false });
    let step = video_step(PumpAction::ReadPacket, PumpEvent::Nothing, false, true);
    assert_eq!(step.action, PumpAction::Finish);
}

#[test]
fn video_failures_release_the_packet_and_end() {
    let step = video_step(PumpAction::ShowFrame { pts_ms: 0 }, PumpEvent::Fail, true, false);
    assert_eq!(step, PumpStep { action: PumpAction::ReleasePacket, failed: true, stop: true });
    let end = advance_video(
        &playback(),
        0,
        true,
        true,
        true,
        PumpAction::ReleasePacket,
        PumpEvent::Done,
    );
    assert_eq!(end, PumpStep { action: PumpAction::Finish, failed: true, stop: false });

    let step = video_step(PumpAction::ShowFrame { pts_ms: 0 }, PumpEvent::Stop, true, false);
    assert_eq!(step, PumpStep { action: PumpAction::ReleasePacket, failed: false, stop: true });
    let step = video_step(PumpAction::PlaySound { ended: false }, PumpEvent::Fail, true, false);
    assert!(step.failed && step.stop);
    let step = video_step(PumpAction::HandleCommands, PumpEvent::Stop, true, false);
    assert_eq!(step, PumpStep { action: PumpAction::Finish, failed: false, stop: false });
    let step = video_step(PumpAction::HandleCommands, PumpEvent::Fail, true, false);
    assert_eq!(step, PumpStep { action: PumpAction::Finish, failed: true, stop: false });
}

#[test]
fn frames_before_a_jump_are_passed_over() {
    let mut playback = playback();
    playback.drop_until_ms = Some(100);
    let video = PumpAction::ReceiveFrame { route: PacketRoute::Video, ended: false };
    let audio = PumpAction::ReceiveFrame { route: PacketRoute::Audio, ended: false };
    let early = PumpEvent::Frame { pts_ms: Some(99) };
    let late = PumpEvent::Frame { pts_ms: Some(100) };
    let untimed = PumpEvent::Frame { pts_ms: None };
    let step = |action, event| {
        advance_video(&playback, 50, false, true, false, action, event).action
    };
    assert_eq!(step(video, early), video);
    assert_eq!(step(video, late), PumpAction::ShowFrame { pts_ms: 100 });
    assert_eq!(step(video, untimed), video);
    assert_eq!(step(audio, early), audio);
    assert_eq!(step(audio, late), PumpAction::PlaySound { ended: false });
    assert_eq!(step(audio, untimed), PumpAction::PlaySound { ended: false });
}

#[test]
fn audio_packets_run_through_the_player() {
    assert_eq!(start_audio(false, true).action, PumpAction::ReadPacket);
    let receive = PumpAction::ReceiveFrame { route: PacketRoute::Audio, ended: false };
    let last = PumpAction::ReceiveFrame { route: PacketRoute::Audio, ended: true };
    let mut action = PumpAction::ReadPacket;
    let events = [
        (PumpEvent::Packet(PacketRoute::Audio), PumpAction::SendPacket(PacketRoute::Audio)),
        (PumpEvent::Done, receive),
        (PumpEvent::Frame { pts_ms: None }, PumpAction::PlaySound { ended: false }),
        (PumpEvent::Done, receive),
        (PumpEvent::Nothing, PumpAction::ReleasePacket),
        (PumpEvent::Done, PumpAction::ReadPacket),
        (PumpEvent::Packet(PacketRoute::Video), PumpAction::ReleasePacket),
        (PumpEvent::Done, PumpAction::ReadPacket),
        (PumpEvent::Nothing, PumpAction::SendEnd),
        (PumpEvent::Nothing, last),
        (PumpEvent::Frame { pts_ms: None }, PumpAction::PlaySound { ended: true }),
        (PumpEvent::Done, last),
        (PumpEvent::Nothing, PumpAction::AwaitSound),
        (PumpEvent::Done, PumpAction::Finish),
    ];
    for (event, expected) in events {
        let step = advance_audio(false, true, action, event);
        assert_eq!(step, PumpStep { action: expected, failed: false, stop: false });
        action = step.action;
    }
}

#[test]
fn stopped_audio_is_not_played_on() {
    assert_eq!(start_audio(true, false).action, PumpAction::AwaitSound);
    let last = PumpAction::ReceiveFrame { route: PacketRoute::Audio, ended: true };
    let frame = PumpEvent::Frame { pts_ms: None };
    assert_eq!(advance_audio(true, false, last, frame).action, PumpAction::AwaitSound);
    assert_eq!(advance_audio(true, true, last, PumpEvent::Nothing).action, PumpAction::Restart);
    let step = advance_audio(false, true, PumpAction::PlaySound { ended: false }, PumpEvent::Fail);
    assert_eq!(step, PumpStep { action: PumpAction::Finish, failed: true, stop: false });
}
