use kitim::image_ids::{ImageIds, TmuxImageState};
use kitim::image_viewer::{
    end_animation, first_frame, is_deep_resizable, is_deep_showable, is_resizable, is_showable,
    kind_of_guess, next_frame, picture_bounds, picture_kind, picture_size_for, reserve_rows,
    show_animation_frame, show_deep_still, show_still, DeepLayout, DeepPicture, ImageDisplaySize,
    Picture, PictureKind, ResizeFilter, MAX_MIXED_PX,
};
use kitim::terminal_geometry::{cells_for_pixels, TerminalGeometry};
use kitim::video_layout::{line_bytes, output_buffer_for, VideoTerminalLayout};

fn layout_from_cells(cols: u16, rows: u16) -> VideoTerminalLayout {
    VideoTerminalLayout::from_geometry(TerminalGeometry::from_cells(cols, rows))
}

#[test]
fn pictures_of_given_pixels_occupy_their_cells() {
    let geometry = TerminalGeometry::from_cells(120, 40);
    let size = picture_size_for(&geometry, 640, 360);
    assert_eq!((size.target_w_px, size.target_h_px), (640, 360));
    assert_eq!((size.target_cols, size.target_rows), (64, 18));

    let geometry = TerminalGeometry::with_cell_size(120, 40, 12, 20);
    let size = picture_size_for(&geometry, 640, 360);
    assert_eq!((size.target_w_px, size.target_h_px), (640, 360));
    assert_eq!((size.target_cols, size.target_rows), (54, 18));
}

#[test]
fn pictures_as_wide_as_their_bounds_keep_the_margin() {
    let geometry = TerminalGeometry::from_cells(80, 24);
    assert_eq!(picture_bounds(&geometry), (760, 440));
    let size = picture_size_for(&geometry, 760, 428);
    assert_eq!((size.target_cols, size.target_rows), (76, 22));
    assert_eq!((size.target_w_px, size.target_h_px), (760, 428));
}

#[test]
fn videos_of_given_pixels_occupy_their_cells() {
    let layout =
        VideoTerminalLayout::from_geometry(TerminalGeometry::with_cell_size(200, 80, 10, 20));
    let size = layout.display_size_for(1280, 720);
    assert_eq!((size.target_w_px, size.target_h_px), (1280, 720));
    assert_eq!((size.target_cols, size.target_rows), (128, 36));

    let layout =
        VideoTerminalLayout::from_geometry(TerminalGeometry::with_cell_size(240, 80, 10, 20));
    let size = layout.display_size_for(1920, 1080);
    assert_eq!((size.target_cols, size.target_rows), (192, 54));

    let layout =
        VideoTerminalLayout::from_geometry(TerminalGeometry::with_cell_size(120, 40, 12, 20));
    let size = layout.display_size_for(640, 360);
    assert_eq!((size.target_w_px, size.target_h_px), (640, 360));
    assert_eq!((size.target_cols, size.target_rows), (54, 18));
}

#[test]
fn videos_of_given_pixels_are_centered() {
    let layout = layout_from_cells(100, 30);
    let bounds = layout.fit_bounds();
    assert_eq!((bounds.max_w_px, bounds.max_h_px), (960, 540));
    let size = layout.display_size_for(960, 540);
    assert_eq!((size.target_cols, size.target_rows), (96, 27));
    assert_eq!(layout.origin_for(size), (2, 1));
    assert_eq!(layout.status_row, Some(29));
}

#[test]
fn videos_of_given_pixels_stay_in_the_video_area() {
    let layout = layout_from_cells(40, 10);
    let bounds = layout.fit_bounds();
    assert_eq!((bounds.max_w_px, bounds.max_h_px), (360, 140));
    let size = layout.display_size_for(249, 140);
    assert_eq!((size.target_cols, size.target_rows), (25, 7));
    assert_eq!(layout.origin_for(size), (7, 1));
}

#[test]
fn tiny_terminals_have_no_status_row() {
    let layout = layout_from_cells(10, 1);
    let size = layout.display_size_for(36, 20);
    assert_eq!(layout.status_row, None);
    assert_eq!(layout.video_area_rows, 1);
    assert_eq!((size.target_cols, size.target_rows), (4, 1));
    assert_eq!(layout.origin_for(size).1, 0);
}

#[test]
fn empty_terminals_count_as_one_cell() {
    let layout = layout_from_cells(0, 0);
    assert_eq!((layout.cols, layout.rows), (1, 1));
    assert_eq!(layout.status_row, None);
    let bounds = layout.fit_bounds();
    assert_eq!((bounds.max_w_px, bounds.max_h_px), (10, 20));
}

#[test]
fn buffers_hold_four_bytes_a_pixel() {
    let size = layout_from_cells(100, 30).display_size_for(3, 5);
    assert_eq!(output_buffer_for(size), vec![0u8; 60]);
    assert_eq!(line_bytes(size), 12);
}

#[test]
fn touched_cells_are_occupied() {
    assert_eq!(cells_for_pixels(0, 10), 0);
    assert_eq!(cells_for_pixels(1, 10), 1);
    assert_eq!(cells_for_pixels(10, 10), 1);
    assert_eq!(cells_for_pixels(11, 10), 2);
    assert_eq!(cells_for_pixels(u32::MAX, 1), u32::MAX);
}

#[test]
fn pictures_are_known_by_their_first_bytes() {
    assert_eq!(picture_kind(b"GIF89a"), PictureKind::Animation);
    assert_eq!(picture_kind(b"GIF87a and more"), PictureKind::Animation);
    assert_eq!(picture_kind(b"GIF88a"), PictureKind::Unrecognized);
    assert_eq!(picture_kind(b"GIF89"), PictureKind::Unrecognized);
    assert_eq!(picture_kind(b"\x89PNG\r\n\x1a\n"), PictureKind::Still);
    assert_eq!(picture_kind(b"BM"), PictureKind::Still);
    assert_eq!(picture_kind(b""), PictureKind::Unrecognized);
    assert_eq!(kind_of_guess(Some(true)), PictureKind::Animation);
    assert_eq!(kind_of_guess(Some(false)), PictureKind::Still);
    assert_eq!(kind_of_guess(None), PictureKind::Unrecognized);
}

fn size(w: u32, h: u32) -> ImageDisplaySize {
    ImageDisplaySize { target_cols: 1, target_rows: 1, target_w_px: w, target_h_px: h }
}

#[test]
fn stills_are_scaled_and_end_their_line() {
    let picture = Picture { pixels: vec![1, 2, 3, 4], width_px: 1, height_px: 1 };
    let mut ids = ImageIds::new();

    let mut out = Vec::new();
    show_still(&mut out, &picture, size(1, 1), false, &mut ids);
    assert_eq!(out, b"\x1b_Ga=T,f=32,s=1,v=1,q=2,m=0;AQIDBA==\x1b\\\n");

    let mut out = Vec::new();
    show_still(&mut out, &picture, size(2, 1), false, &mut ids);
    assert_eq!(out, b"\x1b_Ga=T,f=32,s=2,v=1,q=2,m=0;AQIDBAECAwQ=\x1b\\\n");
}

#[test]
fn stills_mix_pixels_where_animations_pick_one() {
    let picture = Picture {
        pixels: vec![0, 0, 0, 255, 200, 200, 200, 255],
        width_px: 2,
        height_px: 1,
    };
    let mut ids = ImageIds::new();
    let mut images = TmuxImageState::new(&mut ids);
    let mut still = Vec::new();
    show_still(&mut still, &picture, size(1, 1), false, &mut ids);
    let mut frame = Vec::new();
    show_animation_frame(&mut frame, &picture, size(1, 1), &mut images, false, &mut ids);

    assert_eq!(still, b"\x1b_Ga=T,f=32,s=1,v=1,q=2,m=0;ZGRk/w==\x1b\\\n");
    assert_eq!(frame, b"\x1b_Ga=T,f=32,s=1,v=1,C=1,q=2,m=0;yMjI/w==\x1b\\");
}

#[test]
fn animation_frames_replace_each_other_under_tmux() {
    let picture = Picture { pixels: vec![0; 4], width_px: 1, height_px: 1 };
    let mut ids = ImageIds::new();
    let mut images = TmuxImageState::new(&mut ids);
    let mut shown = Vec::new();
    for _ in 0..3 {
        let mut out = Vec::new();
        show_animation_frame(&mut out, &picture, size(1, 1), &mut images, true, &mut ids);
        shown.push(String::from_utf8(out).unwrap());
    }
    assert!(shown[0].contains("a=T,i=1,"));
    assert!(shown[1].contains("a=T,i=2,"));
    assert!(shown[2].contains("a=d,d=I,i=1,"));
    assert!(shown[2].contains("a=T,i=1,"));
    assert_eq!(ids.next, 3);
}

#[test]
fn animations_reserve_their_rows() {
    let mut out = Vec::new();
    reserve_rows(&mut out, 3);
    assert_eq!(out, b"\n\n\n\x1b[3A\x1b[1G");

    let mut out = Vec::new();
    end_animation(&mut out, 3);
    assert_eq!(out, b"\x1b[3B\x1b[1G\n");
}

#[test]
fn animations_show_every_frame_and_may_start_over() {
    assert_eq!(first_frame(0, false), None);
    assert_eq!(first_frame(2, true), Some(0));
    assert_eq!(next_frame(0, 3, false), Some(1));
    assert_eq!(next_frame(1, 3, false), Some(2));
    assert_eq!(next_frame(2, 3, false), None);
    assert_eq!(next_frame(2, 3, true), Some(0));
    assert_eq!(next_frame(0, 1, true), Some(0));
}

#[test]
fn incomplete_pictures_are_refused() {
    let short = Picture { pixels: vec![0; 3], width_px: 1, height_px: 1 };
    let long = Picture { pixels: vec![0; 8], width_px: 1, height_px: 1 };
    let exact = Picture { pixels: vec![0; 4], width_px: 1, height_px: 1 };
    for filter in [ResizeFilter::Nearest, ResizeFilter::Triangle] {
        assert!(!is_resizable(&short, 1, 1, filter));
        assert!(!is_resizable(&long, 1, 1, filter));
        assert!(is_resizable(&exact, 1000, 1000, filter));
        assert!(!is_resizable(&exact, u32::MAX, u32::MAX, filter));
        assert!(is_showable(&exact, size(10, 10), filter));
        assert!(!is_showable(&short, size(10, 10), filter));
        assert!(!is_showable(&exact, size(u32::MAX, u32::MAX), filter));
    }
}

#[test]
fn very_large_pictures_are_not_mixed() {
    let width_px = MAX_MIXED_PX + 1;
    let wide = Picture { pixels: vec![0; 4 * width_px as usize], width_px, height_px: 1 };
    assert!(is_resizable(&wide, 1, 1, ResizeFilter::Nearest));
    assert!(!is_resizable(&wide, 1, 1, ResizeFilter::Triangle));
    assert!(is_resizable(&wide, width_px, 1, ResizeFilter::Triangle));

    let small = Picture { pixels: vec![0; 4], width_px: 1, height_px: 1 };
    assert!(is_resizable(&small, MAX_MIXED_PX, 1, ResizeFilter::Triangle));
    assert!(!is_resizable(&small, 1, MAX_MIXED_PX + 1, ResizeFilter::Triangle));
    let empty = Picture { pixels: vec![], width_px: 0, height_px: 9 };
    assert!(is_resizable(&empty, MAX_MIXED_PX + 1, 1, ResizeFilter::Triangle));
}

#[test]
fn stills_are_mixed_up_to_the_largest_size() {
    let width_px = MAX_MIXED_PX;
    let wide = Picture { pixels: vec![7; 4 * width_px as usize], width_px, height_px: 1 };
    let mut out = Vec::new();
    show_still(&mut out, &wide, size(3, 1), false, &mut ImageIds::new());
    assert_eq!(out, b"\x1b_Ga=T,f=32,s=3,v=1,q=2,m=0;BwcHBwcHBwcHBwcH\x1b\\\n");

    let small = Picture { pixels: vec![7; 4 * 3], width_px: 3, height_px: 1 };
    let mut out = Vec::new();
    show_still(&mut out, &small, size(MAX_MIXED_PX, 1), false, &mut ImageIds::new());
    assert!(out.starts_with(b"\x1b_Ga=T,f=32,s=8388608,v=1,q=2,m=1;BwcHBwcH"));
}

fn deep(samples: Vec<u16>, layout: DeepLayout, width_px: u32) -> DeepPicture {
    DeepPicture { samples, layout, width_px, height_px: 1 }
}

#[test]
fn deep_stills_are_cut_to_eight_bits() {
    let pictures = [
        (deep(vec![65535], DeepLayout::Gray, 1), "/////w=="),
        (deep(vec![65535, 0], DeepLayout::GrayAlpha, 1), "////AA=="),
        (deep(vec![65535, 0, 257], DeepLayout::Rgb, 1), "/wAB/w=="),
        (deep(vec![0, 257, 514, 771], DeepLayout::Rgba, 1), "AAECAw=="),
    ];
    for (picture, payload) in pictures {
        assert!(is_deep_showable(&picture, size(1, 1)));
        let mut out = Vec::new();
        show_deep_still(&mut out, &picture, size(1, 1), false, &mut ImageIds::new());
        let expected = format!("\x1b_Ga=T,f=32,s=1,v=1,q=2,m=0;{payload}\x1b\\\n");
        assert_eq!(String::from_utf8(out).unwrap(), expected);
    }
}

#[test]
fn deep_stills_are_scaled_before_they_are_cut() {
    let picture = deep(vec![0, 0, 0, 0, 514, 514, 514, 514], DeepLayout::Rgba, 2);
    let mut out = Vec::new();
    let mut ids = ImageIds::new();
    show_deep_still(&mut out, &picture, size(1, 1), true, &mut ids);
    let text = String::from_utf8(out).unwrap();
    assert!(text.contains(";AQEBAQ==\x1b\x1b\\"));
    assert!(text.ends_with("\x1b[39m\n"));
    assert_eq!(ids.next, 2);
}

#[test]
fn incomplete_deep_pictures_are_refused() {
    assert!(!is_deep_resizable(&deep(vec![0; 3], DeepLayout::Rgba, 1), 1, 1));
    assert!(is_deep_resizable(&deep(vec![0; 3], DeepLayout::Rgb, 1), 2, 2));
    assert!(!is_deep_resizable(&deep(vec![0; 3], DeepLayout::Rgb, 1), MAX_MIXED_PX + 1, 1));
    assert!(!is_deep_showable(&deep(vec![0], DeepLayout::Gray, 1), size(u32::MAX, u32::MAX)));
    assert_eq!(DeepLayout::GrayAlpha.channel_count(), 2);
}
