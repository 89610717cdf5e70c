use kitim::controls::{
    handle_input_event, handle_key, ControlInputState, InputAction, InputEvent, KeyCode, KeyEvent,
    KeyKind, KeyModifiers, PlayerCommand,
};
use kitim::player::{
    adjust_volume_percent, clamp_seek_ms, frame_room, should_drop_before_target, CommandStep,
    PlaybackState, PlayerAction, RenderNotice, SeekRequest,
};
use kitim::status::{draw_status_row, status_text, truncate_to_cols, StatusState};
use kitim::terminal_geometry::TerminalGeometry;
use kitim::timestamp::{format_time_ms, parse_timestamp_ms, timestamp_in_range};
use kitim::video_layout::{VideoDisplaySize, VideoTerminalLayout};

fn press(code: KeyCode) -> KeyEvent {
    KeyEvent::new(code, KeyModifiers::none())
}

fn layout() -> VideoTerminalLayout {
    VideoTerminalLayout::from_geometry(TerminalGeometry::from_cells(100, 30))
}

fn size() -> VideoDisplaySize {
    layout().display_size_for(960, 540)
}

fn playback() -> PlaybackState {
    PlaybackState::start(layout(), size(), Some(60_000))
}

#[test]
fn status_row_truncates_to_terminal_width() {
    assert_eq!(truncate_to_cols("abcdef", 3), "abc");
}

#[test]
fn timestamp_parser_accepts_flexible_formats() {
    assert_eq!(parse_timestamp_ms("90"), Some(90_000));
    assert_eq!(parse_timestamp_ms("1:30"), Some(90_000));
    assert_eq!(parse_timestamp_ms("1:02:03"), Some(3_723_000));
}

#[test]
fn timestamp_parser_rejects_invalid_formats() {
    assert_eq!(parse_timestamp_ms(""), None);
    assert_eq!(parse_timestamp_ms("1:"), None);
    assert_eq!(parse_timestamp_ms("1:75"), None);
    assert_eq!(parse_timestamp_ms("1:2:99"), None);
    assert_eq!(parse_timestamp_ms("a:b"), None);
}

#[test]
fn timestamp_parser_trims_and_takes_signs() {
    assert_eq!(parse_timestamp_ms("  2:05\t"), Some(125_000));
    assert_eq!(parse_timestamp_ms("+7"), Some(7_000));
    assert_eq!(parse_timestamp_ms("1: 5"), None);
    assert_eq!(parse_timestamp_ms("1:2:3:4"), None);
    assert_eq!(parse_timestamp_ms("1:60:00"), None);
    assert_eq!(parse_timestamp_ms("-5"), None);
    assert_eq!(parse_timestamp_ms("18446744073709551616"), None);
}

#[test]
fn timestamps_beyond_the_range_are_told() {
    assert!(timestamp_in_range("18446744073709551"));
    assert!(!timestamp_in_range("18446744073709552"));
    assert!(timestamp_in_range("not a time"));
    assert_eq!(parse_timestamp_ms("18446744073709551"), Some(18_446_744_073_709_551_000));
}

#[test]
fn shown_times_read_back() {
    for ms in [0, 59_000, 60_000, 3_599_000, 3_600_000, 3_723_000, 360_000_000] {
        assert_eq!(parse_timestamp_ms(&format_time_ms(ms)), Some(ms));
    }
    assert_eq!(format_time_ms(0), "0:00");
    assert_eq!(format_time_ms(65_999), "1:05");
    assert_eq!(format_time_ms(3_723_000), "1:02:03");
}

#[test]
fn keyboard_shortcuts_map_to_player_commands() {
    let mut state = ControlInputState::default();

    assert_eq!(
        handle_key(press(KeyCode::Char('f')), &mut state).commands,
        vec![PlayerCommand::SeekBy(10_000)]
    );
    assert_eq!(
        handle_key(press(KeyCode::Char('b')), &mut state).commands,
        vec![PlayerCommand::SeekBy(-10_000)]
    );
    assert_eq!(
        handle_key(press(KeyCode::Left), &mut state).commands,
        vec![PlayerCommand::SeekBy(-5_000)]
    );
    assert_eq!(
        handle_key(press(KeyCode::Right), &mut state).commands,
        vec![PlayerCommand::SeekBy(5_000)]
    );
    assert_eq!(
        handle_key(press(KeyCode::Up), &mut state).commands,
        vec![PlayerCommand::VolumeBy(5)]
    );
    assert_eq!(
        handle_key(press(KeyCode::Down), &mut state).commands,
        vec![PlayerCommand::VolumeBy(-5)]
    );
    assert_eq!(
        handle_key(press(KeyCode::Char('q')), &mut state).commands,
        vec![PlayerCommand::Quit]
    );
}

#[test]
fn goto_input_accepts_entered_timestamp() {
    let mut state = ControlInputState::default();
    handle_key(press(KeyCode::Char('g')), &mut state);
    for ch in "1:30".chars() {
        let modifiers = if ch == ':' {
            KeyModifiers::shift()
        } else {
            KeyModifiers::none()
        };
        handle_key(KeyEvent::new(KeyCode::Char(ch), modifiers), &mut state);
    }

    let outcome = handle_key(press(KeyCode::Enter), &mut state);

    assert_eq!(outcome.commands, vec![PlayerCommand::SeekTo(90_000)]);
    assert_eq!(state.goto_buffer, None);
}

#[test]
fn goto_entry_can_be_edited_and_canceled() {
    let mut state = ControlInputState::default();
    let outcome = handle_key(press(KeyCode::Char('g')), &mut state);
    assert_eq!(outcome.message.as_deref(), Some("Enter timestamp"));
    assert!(outcome.redraw_status);
    handle_key(press(KeyCode::Char('1')), &mut state);
    handle_key(press(KeyCode::Char('f')), &mut state);
    handle_key(KeyEvent::new(KeyCode::Char('2'), KeyModifiers::control()), &mut state);
    handle_key(press(KeyCode::Char('7')), &mut state);
    assert_eq!(state.goto_buffer.as_deref(), Some("17"));
    handle_key(press(KeyCode::Backspace), &mut state);
    assert_eq!(state.goto_buffer.as_deref(), Some("1"));

    let outcome = handle_key(press(KeyCode::Esc), &mut state);
    assert_eq!(outcome.message.as_deref(), Some("Goto canceled"));
    assert!(outcome.commands.is_empty());
    assert_eq!(state.goto_buffer, None);
}

#[test]
fn invalid_entry_stays_open() {
    let mut state = ControlInputState { goto_buffer: Some(String::from("1:")) };
    let outcome = handle_key(press(KeyCode::Enter), &mut state);

    assert_eq!(outcome.message.as_deref(), Some("Invalid timestamp"));
    assert!(outcome.commands.is_empty());
    assert_eq!(state.goto_buffer.as_deref(), Some("1:"));
}

#[test]
fn quit_keys_quit_during_an_entry() {
    let mut state = ControlInputState { goto_buffer: Some(String::from("1")) };
    let control_c = KeyEvent::new(KeyCode::Char('c'), KeyModifiers::control());

    assert_eq!(handle_key(control_c, &mut state).commands, vec![PlayerCommand::Quit]);
    assert_eq!(
        handle_key(press(KeyCode::Char('q')), &mut state).commands,
        vec![PlayerCommand::Quit]
    );
    assert!(handle_key(press(KeyCode::Char('c')), &mut state).commands.is_empty());
}

#[test]
fn input_events_reach_the_status_and_the_player() {
    let mut input = ControlInputState::default();
    let mut status = StatusState::default();
    let actions = handle_input_event(
        InputEvent::Key(press(KeyCode::Char('g')), KeyKind::Press),
        &mut input,
        &mut status,
    );
    assert_eq!(actions, vec![InputAction::RedrawStatus]);
    assert_eq!(status.message, "Enter timestamp");
    assert_eq!(status.input_buffer.as_deref(), Some(""));

    let actions = handle_input_event(
        InputEvent::Key(press(KeyCode::Char('q')), KeyKind::Release),
        &mut input,
        &mut status,
    );
    assert!(actions.is_empty());

    let actions = handle_input_event(
        InputEvent::Key(press(KeyCode::Char('q')), KeyKind::Repeat),
        &mut input,
        &mut status,
    );
    assert_eq!(
        actions,
        vec![InputAction::StopPlayback, InputAction::Command(PlayerCommand::Quit)]
    );

    let geometry = TerminalGeometry::from_cells(10, 5);
    let actions = handle_input_event(InputEvent::Resize(geometry), &mut input, &mut status);
    assert_eq!(actions, vec![InputAction::Command(PlayerCommand::Resize(geometry))]);
}

#[test]
fn volume_clamps_to_supported_range() {
    assert_eq!(adjust_volume_percent(100, 5), 105);
    assert_eq!(adjust_volume_percent(100, -5), 95);
    assert_eq!(adjust_volume_percent(195, 10), 200);
    assert_eq!(adjust_volume_percent(5, -10), 0);
}

#[test]
fn seeks_are_clamped_to_the_length() {
    assert_eq!(clamp_seek_ms(5, None), 5);
    assert_eq!(clamp_seek_ms(5, Some(10)), 5);
    assert_eq!(clamp_seek_ms(15, Some(10)), 10);
}

#[test]
fn frames_before_the_target_are_dropped() {
    assert!(should_drop_before_target(Some(10), Some(9)));
    assert!(!should_drop_before_target(Some(10), Some(10)));
    assert!(!should_drop_before_target(Some(10), None));
    assert!(!should_drop_before_target(None, Some(0)));
}

#[test]
fn relative_seek_is_announced_and_clamped() {
    let mut playback = playback();
    let mut status = StatusState::default();

    let back = playback.begin_command(PlayerCommand::SeekBy(-10_000), 4_000, &mut status);
    assert!(matches!(&back, CommandStep::Seek(_)));
    if let CommandStep::Seek(request) = back {
        assert_eq!(request.target_ms, 0);
        assert_eq!(request.message.as_deref(), Some("Seek -10s"));
    }
    let forward = playback.begin_command(PlayerCommand::SeekBy(5_000), 58_000, &mut status);
    if let CommandStep::Seek(request) = forward {
        assert_eq!(request.target_ms, 60_000);
        assert_eq!(request.message.as_deref(), Some("Seek +5s"));
    } else {
        panic!("a seek was asked for");
    }
    assert_eq!(playback.generation, 0);
    assert_eq!(status.message, "");
}

#[test]
fn absolute_seek_names_the_entered_time() {
    let mut playback = playback();
    let mut status = StatusState::default();
    let step = playback.begin_command(PlayerCommand::SeekTo(90_000), 0, &mut status);
    if let CommandStep::Seek(request) = step {
        assert_eq!(request.target_ms, 60_000);
        assert_eq!(request.message.as_deref(), Some("Goto 1:30"));
    } else {
        panic!("a seek was asked for");
    }
}

#[test]
fn successful_seek_starts_a_generation() {
    let mut playback = playback();
    let mut status = StatusState::default();
    status.input_buffer = Some(String::from("9"));
    let request = SeekRequest { target_ms: 7_000, message: Some(String::from("Goto 0:07")) };
    let outcome = playback.finish_seek(request, true, true, &mut status);

    assert!(!outcome.failed);
    assert_eq!(
        outcome.actions,
        vec![
            PlayerAction::FlushVideoDecoder,
            PlayerAction::FlushAudioDecoder,
            PlayerAction::ResetAudio,
            PlayerAction::PublishGeneration(1),
            PlayerAction::PublishPosition(7_000),
            PlayerAction::Notify(RenderNotice::Reset { generation: 1 }),
            PlayerAction::TryNotify(RenderNotice::RedrawStatus),
        ]
    );
    assert_eq!(playback.generation, 1);
    assert_eq!(playback.drop_until_ms, Some(7_000));
    assert_eq!(status.current_ms, 7_000);
    assert_eq!(status.message, "Goto 0:07");
    assert_eq!(status.input_buffer, None);
    assert_eq!(playback.video_frame_time(Some(6_999), 0), None);
    assert_eq!(playback.video_frame_time(Some(7_000), 0), Some(7_000));
    assert_eq!(playback.video_frame_time(None, 7_500), Some(7_500));
    assert!(playback.drops_audio(Some(6_999)));
    assert!(!playback.drops_audio(None));
}

#[test]
fn silent_restart_keeps_the_message() {
    let mut playback = playback();
    let mut status = StatusState::default();
    status.message = String::from("Volume 95%");
    let request = playback.seek_to(0, None);
    let outcome = playback.finish_seek(request, true, false, &mut status);

    assert_eq!(outcome.actions.len(), 5);
    assert_eq!(status.message, "Volume 95%");
}

#[test]
fn failed_seek_changes_only_the_message() {
    let mut playback = playback();
    let before = playback;
    let mut status = StatusState::default();
    let request = SeekRequest { target_ms: 1, message: None };
    let outcome = playback.finish_seek(request, false, true, &mut status);

    assert!(outcome.failed);
    assert_eq!(outcome.actions, vec![PlayerAction::TryNotify(RenderNotice::RedrawStatus)]);
    assert_eq!(status.message, "Seek failed");
    assert_eq!(playback, before);
}

#[test]
fn volume_command_is_published_and_shown() {
    let mut playback = playback();
    let mut status = StatusState::default();
    let step = playback.begin_command(PlayerCommand::VolumeBy(-5), 0, &mut status);
    if let CommandStep::Continue(actions) = step {
        assert_eq!(
            actions,
            vec![
                PlayerAction::PublishVolume(95),
                PlayerAction::TryNotify(RenderNotice::RedrawStatus),
            ]
        );
    } else {
        panic!("playback goes on");
    }
    assert_eq!(playback.volume_percent, 95);
    assert_eq!(status.volume_percent, 95);
    assert_eq!(status.message, "Volume 95%");
}

#[test]
fn quit_command_stops() {
    let mut playback = playback();
    let mut status = StatusState::default();
    let step = playback.begin_command(PlayerCommand::Quit, 0, &mut status);
    if let CommandStep::Stop(actions) = step {
        assert_eq!(
            actions,
            vec![PlayerAction::StopPlayback, PlayerAction::TryNotify(RenderNotice::Quit)]
        );
    } else {
        panic!("playback stops");
    }
}

#[test]
fn resize_replaces_the_buffer_only_for_a_new_size() {
    let mut playback = playback();
    let mut status = StatusState::default();
    let geometry = TerminalGeometry::from_cells(50, 20);
    let step = playback.begin_command(PlayerCommand::Resize(geometry), 0, &mut status);
    let new_layout = match step {
        CommandStep::Fit(layout) => layout,
        _ => panic!("the video is fitted"),
    };
    assert_eq!(new_layout.cols, 50);

    let new_size = new_layout.display_size_for(460, 259);
    let actions = playback.finish_resize(new_layout, new_size, &mut status);
    assert_eq!(
        actions,
        vec![
            PlayerAction::ReplaceFrameBuffer(new_size),
            PlayerAction::Notify(RenderNotice::Layout(new_layout)),
        ]
    );
    let actions = playback.finish_resize(new_layout, new_size, &mut status);
    assert_eq!(actions, vec![PlayerAction::Notify(RenderNotice::Layout(new_layout))]);
    assert_eq!(status.message, "Resized");
    assert_eq!(playback.display_size, new_size);
}

#[test]
fn sound_needs_more_room_for_frames() {
    assert_eq!(frame_room(true), 1024);
    assert_eq!(frame_room(false), 16);
}

#[test]
fn status_text_tells_position_volume_and_message() {
    let mut status = StatusState::default();
    status.duration_ms = Some(125_000);
    status.current_ms = 65_000;
    assert_eq!(
        status_text(&status),
        "1:05 / 2:05 | Vol 100% | f +10s b -10s Left -5s Right +5s Up/Down vol g goto q quit"
    );
    status.message = String::from("Resized");
    assert!(status_text(&status).starts_with("1:05 / 2:05 | Vol 100% | Resized | f +10s"));
    status.input_buffer = Some(String::from("1:3"));
    assert!(status_text(&status).contains("| Goto> 1:3 | Resized | Enter seek Esc cancel |"));
    status.message.clear();
    status.duration_ms = None;
    assert!(status_text(&status)
        .starts_with("1:05 / --:-- | Vol 100% | Goto> 1:3  Enter seek Esc cancel |"));
}

#[test]
fn status_row_is_drawn_below_the_video() {
    let mut out = Vec::new();
    let narrow = VideoTerminalLayout::from_geometry(TerminalGeometry::from_cells(4, 3));
    draw_status_row(&mut out, narrow, &StatusState::default());
    assert_eq!(out, b"\x1b[3;1H\x1b[2K0:00");

    let mut out = Vec::new();
    let single = VideoTerminalLayout::from_geometry(TerminalGeometry::from_cells(4, 1));
    draw_status_row(&mut out, single, &StatusState::default());
    assert!(out.is_empty());
}

#[test]
fn shown_times_can_be_entered() {
    for ms in [5_000, 90_000, 3_723_000] {
        let mut state = ControlInputState::default();
        handle_key(press(KeyCode::Char('g')), &mut state);
        for ch in format_time_ms(ms).chars() {
            handle_key(press(KeyCode::Char(ch)), &mut state);
        }
        let outcome = handle_key(press(KeyCode::Enter), &mut state);
        assert_eq!(outcome.commands, vec![PlayerCommand::SeekTo(ms)]);
    }
}

#[test]
fn opposite_steps_return_to_the_start() {
    let mut playback = playback();
    let mut status = StatusState::default();
    let mut position_ms = 20_000;
    for delta in [10_000, -10_000, -5_000, 5_000] {
        let step = playback.begin_command(PlayerCommand::SeekBy(delta), position_ms, &mut status);
        if let CommandStep::Seek(request) = step {
            position_ms = request.target_ms;
        }
    }
    assert_eq!(position_ms, 20_000);
}

#[test]
fn volume_stops_at_both_ends() {
    let mut percent = 100;
    for _ in 0..50 {
        percent = adjust_volume_percent(percent, 5);
    }
    assert_eq!(percent, 200);
    for _ in 0..100 {
        percent = adjust_volume_percent(percent, -5);
    }
    assert_eq!(percent, 0);
    assert_eq!(adjust_volume_percent(adjust_volume_percent(40, 5), -5), 40);
}

#[test]
fn entries_are_opened_and_closed_by_their_keys_alone() {
    let keys = [
        KeyCode::Char('5'),
        KeyCode::Enter,
        KeyCode::Esc,
        KeyCode::Char('g'),
        KeyCode::Up,
        KeyCode::Char('7'),
        KeyCode::Char('x'),
        KeyCode::Char(':'),
        KeyCode::Enter,
        KeyCode::Backspace,
        KeyCode::Enter,
        KeyCode::Up,
    ];
    let entries = [
        None,
        None,
        None,
        Some(""),
        Some(""),
        Some("7"),
        Some("7"),
        Some("7:"),
        Some("7:"),
        Some("7"),
        None,
        None,
    ];
    let mut state = ControlInputState::default();
    for (code, entry) in keys.into_iter().zip(entries) {
        let outcome = handle_key(press(code), &mut state);
        assert_eq!(state.goto_buffer.as_deref(), entry);
        assert!(outcome.commands.len() <= 1);
        assert!(outcome.message.is_none() || outcome.redraw_status);
    }
}

#[test]
fn commands_are_taken_up_to_the_first_quit() {
    let mut playback = playback();
    let mut status = StatusState::default();
    let commands = [
        PlayerCommand::VolumeBy(5),
        PlayerCommand::SeekTo(7_000),
        PlayerCommand::Quit,
        PlayerCommand::VolumeBy(5),
    ];
    let mut taken = 0;
    for command in commands {
        taken += 1;
        match playback.begin_command(command, 0, &mut status) {
            CommandStep::Seek(request) => {
                assert!(!playback.finish_seek(request, true, false, &mut status).failed);
            }
            CommandStep::Stop(_) => break,
            _ => {}
        }
    }
    assert_eq!(taken, 3);
    assert_eq!(playback.volume_percent, 105);
    assert_eq!(playback.drop_until_ms, Some(7_000));
    assert_eq!(playback.generation, 1);
    assert_eq!(status.message, "Goto 0:07");
}
