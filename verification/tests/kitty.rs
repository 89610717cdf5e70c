use base64::engine::general_purpose::STANDARD;
use base64::Engine;
use kitim::diacritics::diacritic_for;
use kitim::image_ids::{next_image_id, ImageIds, TmuxImageState};
use kitim::kitty::{write_rgba_frame_to, write_rgba_frame_to_with_tmux_state};
use kitim::tmux::{
    append_tmux_placeholders, append_tmux_wrapped_packet, tmux_passthrough_needed,
    tmux_placeholder_cells, write_kitty_packet,
};

#[test]
fn tmux_wrapper_doubles_escapes_inside_dcs_passthrough() {
    let mut wrapped = Vec::new();
    append_tmux_wrapped_packet(&mut wrapped, b"\x1b_Gpayload\x1b\\");

    assert_eq!(wrapped, b"\x1bPtmux;\x1b\x1b_Gpayload\x1b\x1b\\\x1b\\");
}

#[test]
fn tmux_placeholders_encode_image_id_and_cell_coordinates() {
    let mut placeholders = Vec::new();
    append_tmux_placeholders(&mut placeholders, 0x00010203, 2, 2, 3, true);
    let placeholders = String::from_utf8(placeholders).unwrap();

    assert!(placeholders.starts_with("\x1b7\r\x1b[38:2:1:2:3m\x1b[3C"));
    assert!(placeholders.contains("\u{10EEEE}\u{0305}\u{0305}"));
    assert!(placeholders.contains("\u{10EEEE}\u{030D}\u{030D}"));
    assert!(placeholders.ends_with("\x1b[39m\x1b8"));
}

#[test]
fn tmux_placeholder_cells_are_capped_to_available_diacritics() {
    assert_eq!(tmux_placeholder_cells(999, 999), (297, 297));
    assert_eq!(tmux_placeholder_cells(0, 0), (1, 1));
}

#[test]
fn direct_kitty_packet_uses_pixel_size_without_cell_placement() {
    let mut out = Vec::new();
    let mut ids = ImageIds::new();
    write_rgba_frame_to(&mut out, &[0, 0, 0, 255], 1, 1, 1, 1, false, false, &mut ids);
    let packet = String::from_utf8(out).unwrap();

    assert!(packet.starts_with("\x1b_Ga=T,f=32,s=1,v=1,q=2,m=0;"));
    assert!(!packet.contains(",c="));
    assert!(!packet.contains(",r="));
}

#[test]
fn single_packet_carries_the_payload_and_its_end() {
    let mut out = Vec::new();
    let mut ids = ImageIds::new();
    write_rgba_frame_to(&mut out, &[0, 0, 0, 255], 1, 1, 1, 1, false, false, &mut ids);

    assert_eq!(out, b"\x1b_Ga=T,f=32,s=1,v=1,q=2,m=0;AAAA/w==\x1b\\");
    assert_eq!(ids.next, 1);
}

#[test]
fn cursor_is_kept_where_asked_for() {
    let mut out = Vec::new();
    let mut ids = ImageIds::new();
    write_rgba_frame_to(&mut out, &[1, 2, 3, 4], 1, 1, 1, 1, true, false, &mut ids);
    let packet = String::from_utf8(out).unwrap();

    assert!(packet.contains(",C=1"));
    assert!(packet.contains(";AQIDBA==\x1b\\"));
}

#[test]
fn long_payload_is_split_and_reads_back() {
    let pixels: Vec<u8> = (0..40 * 40 * 4).map(|i| (i % 251) as u8).collect();
    let mut out = Vec::new();
    let mut ids = ImageIds::new();
    write_rgba_frame_to(&mut out, &pixels, 40, 40, 4, 2, false, false, &mut ids);
    let text = String::from_utf8(out).unwrap();

    let packets: Vec<&str> = text.split("\x1b_G").skip(1).collect();
    assert_eq!(packets.len(), 3);
    let mut payload = String::new();
    for (i, packet) in packets.iter().enumerate() {
        let (keys, rest) = packet.split_once(';').unwrap();
        let body = rest.strip_suffix("\x1b\\").unwrap();
        let more = if i + 1 < packets.len() { "m=1" } else { "m=0" };
        assert!(keys.ends_with(more));
        assert_eq!(keys.contains("s=40,v=40"), i == 0);
        if i + 1 < packets.len() {
            assert_eq!(body.len(), 4096);
        }
        payload.push_str(body);
    }
    assert_eq!(STANDARD.decode(payload).unwrap(), pixels);
}

#[test]
fn empty_frame_sends_no_packet() {
    let mut out = b"before".to_vec();
    let mut ids = ImageIds::new();
    write_rgba_frame_to(&mut out, &[], 0, 0, 0, 0, false, false, &mut ids);

    assert_eq!(out, b"before");
}

#[test]
fn tmux_frames_take_turns_with_two_images() {
    let mut ids = ImageIds::new();
    let mut state = TmuxImageState::new(&mut ids);
    assert_eq!(ids.next, 3);

    let mut shown = Vec::new();
    for _ in 0..3 {
        let mut out = Vec::new();
        write_rgba_frame_to_with_tmux_state(
            &mut out,
            &[9, 9, 9, 255],
            1,
            1,
            1,
            1,
            true,
            0,
            Some(&mut state),
            true,
            &mut ids,
        );
        shown.push(String::from_utf8(out).unwrap());
    }

    assert!(shown[0].contains("i=1,"));
    assert!(!shown[0].contains("a=d"));
    assert!(shown[1].contains("i=2,"));
    assert!(!shown[1].contains("a=d"));
    assert!(shown[2].starts_with("\x1bPtmux;\x1b\x1b_Ga=d"));
    assert!(shown[2].contains("i=1"));
    assert_eq!(ids.next, 3);
}

#[test]
fn tmux_frame_without_state_draws_a_new_image() {
    let mut ids = ImageIds::new();
    let mut first = Vec::new();
    let mut second = Vec::new();
    write_rgba_frame_to(&mut first, &[0, 0, 0, 0], 1, 1, 1, 1, false, true, &mut ids);
    write_rgba_frame_to(&mut second, &[0, 0, 0, 0], 1, 1, 1, 1, false, true, &mut ids);
    let first = String::from_utf8(first).unwrap();
    let second = String::from_utf8(second).unwrap();

    assert!(first.contains("i=1,"));
    assert!(first.contains("\x1b[38:2:0:0:1m"));
    assert!(second.contains("i=2,"));
    assert!(second.contains("\x1b[38:2:0:0:2m"));
}

#[test]
fn image_ids_stay_within_a_color() {
    let mut ids = ImageIds { next: 0x00ff_ffff };
    assert_eq!(next_image_id(&mut ids), 0x00ff_ffff);
    assert_eq!(next_image_id(&mut ids), 1);
    assert_eq!(next_image_id(&mut ids), 2);
}

#[test]
fn tmux_is_told_by_its_variable() {
    assert!(!tmux_passthrough_needed(None));
    assert!(!tmux_passthrough_needed(Some(b"")));
    assert!(tmux_passthrough_needed(Some(b"/tmp/tmux-0/default,1,0")));
}

#[test]
fn packets_are_wrapped_only_under_tmux() {
    let mut direct = Vec::new();
    write_kitty_packet(&mut direct, b"\x1b_Gx\x1b\\", false);
    assert_eq!(direct, b"\x1b_Gx\x1b\\");

    let mut wrapped = Vec::new();
    write_kitty_packet(&mut wrapped, b"\x1b_Gx\x1b\\", true);
    assert_eq!(wrapped, b"\x1bPtmux;\x1b\x1b_Gx\x1b\x1b\\\x1b\\");
}

#[test]
fn placeholder_rows_are_broken_and_indented() {
    let mut out = Vec::new();
    append_tmux_placeholders(&mut out, 7, 1, 2, 0, true);
    let text = String::from_utf8(out).unwrap();

    assert_eq!(text.matches('\u{10EEEE}').count(), 2);
    assert!(!text.contains("\x1b[0C"));
    let first = text.find("\u{10EEEE}\u{0305}\u{0305}").unwrap();
    let second = text.find("\u{10EEEE}\u{030D}\u{0305}").unwrap();
    assert!(first < second);
}

#[test]
fn numbers_have_their_combining_characters() {
    assert_eq!(diacritic_for(0), '\u{305}');
    assert_eq!(diacritic_for(1), '\u{30d}');
    assert_eq!(diacritic_for(2), '\u{30e}');
    assert_eq!(diacritic_for(29), '\u{36f}');
    assert_eq!(diacritic_for(30), '\u{483}');
    assert_eq!(diacritic_for(283), '\u{10a0f}');
    assert_eq!(diacritic_for(296), '\u{1d244}');
    let all: Vec<char> = (0..297).map(diacritic_for).collect();
    assert!(all.windows(2).all(|pair| pair[0] < pair[1]));
}

fn unwrap_passthrough(text: &str) -> (String, &str) {
    let inner = text.strip_prefix("\x1bPtmux;").unwrap();
    let mut packet = String::new();
    let mut rest = inner;
    loop {
        if let Some(after) = rest.strip_prefix("\x1b\x1b") {
            packet.push('\x1b');
            rest = after;
        } else if let Some(after) = rest.strip_prefix("\x1b\\") {
            return (packet, after);
        } else {
            let c = rest.chars().next().unwrap();
            packet.push(c);
            rest = &rest[c.len_utf8()..];
        }
    }
}

#[test]
fn tmux_frame_reads_back_after_a_deletion() {
    let pixels: Vec<u8> = (0..4 * 2000).map(|i| (i * 7 % 256) as u8).collect();
    let mut ids = ImageIds::new();
    let mut state = TmuxImageState::new(&mut ids);
    let mut text = String::new();
    for _ in 0..3 {
        let mut out = Vec::new();
        write_rgba_frame_to_with_tmux_state(
            &mut out,
            &pixels,
            50,
            40,
            2,
            1,
            true,
            3,
            Some(&mut state),
            true,
            &mut ids,
        );
        text = String::from_utf8(out).unwrap();
    }

    let (deletion, mut rest) = unwrap_passthrough(&text);
    assert_eq!(deletion, "\x1b_Ga=d,d=I,i=1,q=2\x1b\\");
    let mut payload = String::new();
    while rest.starts_with("\x1bPtmux;") {
        let (packet, after) = unwrap_passthrough(rest);
        let body = packet
            .strip_prefix("\x1b_G")
            .and_then(|packet| packet.strip_suffix("\x1b\\"))
            .unwrap();
        payload.push_str(body.split_once(';').unwrap().1);
        rest = after;
    }
    assert_eq!(STANDARD.decode(payload).unwrap(), pixels);
    assert_eq!(
        rest,
        "\x1b7\r\x1b[38:2:0:0:1m\x1b[3C\u{10EEEE}\u{0305}\u{0305}\u{10EEEE}\u{0305}\u{030D}\
         \x1b[39m\x1b8"
    );
}

#[test]
fn placeholder_cells_differ() {
    let mut out = Vec::new();
    append_tmux_placeholders(&mut out, 1, 9, 7, 0, false);
    let text = String::from_utf8(out).unwrap();
    let mut cells: Vec<String> = text
        .split('\u{10EEEE}')
        .skip(1)
        .map(|cell| cell.chars().take(2).collect())
        .collect();
    assert_eq!(cells.len(), 63);
    cells.sort();
    cells.dedup();
    assert_eq!(cells.len(), 63);
}

#[test]
fn direct_frames_ignore_cells_indent_and_images() {
    let mut ids = ImageIds::new();
    let mut state = TmuxImageState::new(&mut ids);
    let mut with_state = Vec::new();
    write_rgba_frame_to_with_tmux_state(
        &mut with_state,
        &[1, 2, 3, 4],
        1,
        1,
        80,
        24,
        true,
        7,
        Some(&mut state),
        false,
        &mut ids,
    );
    let mut without = Vec::new();
    write_rgba_frame_to(&mut without, &[1, 2, 3, 4], 1, 1, 0, 0, true, false, &mut ids);
    assert_eq!(with_state, without);
    assert_eq!(ids.next, 3);
    assert_eq!(state.next_frame_id(), (1, false));
}
