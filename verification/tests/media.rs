use kitim::media::{
    classify_extension, classify_lowercase, failure_line, viewer_after, MediaKind, Viewer,
};
use kitim::setup::{
    next_sound_step, next_step, release_audio, screen_failure, setup_failure, silent_video, HeldResources, Player, Resource, SetupStep,
};
use kitim::streams::{
    frame_or_stream, route_packet, select_streams, PacketRoute, StreamKind, StreamSelection,
    TimeBase,
};

#[test]
fn extensions_tell_the_kind() {
    for extension in [
        "mp4", "mkv", "avi", "mov", "webm", "flv", "wmv", "m4v", "mpg", "mpeg", "3gp",
    ] {
        assert_eq!(classify_extension(extension), MediaKind::Video);
    }
    for extension in [
        "mp3", "m4a", "aac", "wav", "flac", "ogg", "opus", "wma", "alac", "aiff", "aif",
    ] {
        assert_eq!(classify_extension(extension), MediaKind::Audio);
    }
    for extension in ["", "png", "gif", "mp", "mp44", "m p4"] {
        assert_eq!(classify_extension(extension), MediaKind::Other);
    }
}

#[test]
fn extensions_are_taken_in_any_case() {
    assert_eq!(classify_extension("MP4"), MediaKind::Video);
    assert_eq!(classify_extension("FlAc"), MediaKind::Audio);
    assert_eq!(classify_extension("M\u{212A}V"), MediaKind::Video);
    assert_eq!(classify_lowercase(&String::from("MP4")), MediaKind::Other);
    assert_eq!(classify_lowercase(&String::from("mp4")), MediaKind::Video);
}

#[test]
fn unknown_files_are_offered_to_every_viewer() {
    assert_eq!(viewer_after(MediaKind::Other, 0), Some(Viewer::Image));
    assert_eq!(viewer_after(MediaKind::Other, 1), Some(Viewer::Video));
    assert_eq!(viewer_after(MediaKind::Other, 2), Some(Viewer::Audio));
    assert_eq!(viewer_after(MediaKind::Other, 3), None);
    assert_eq!(viewer_after(MediaKind::Video, 0), Some(Viewer::Video));
    assert_eq!(viewer_after(MediaKind::Video, 1), None);
    assert_eq!(viewer_after(MediaKind::Audio, 0), Some(Viewer::Audio));
    assert_eq!(viewer_after(MediaKind::Audio, 1), None);
}

#[test]
fn failures_name_the_file() {
    assert_eq!(
        failure_line("a b.mkv", "Video decoder not found"),
        "Error processing a b.mkv: Video decoder not found"
    );
}

#[test]
fn video_setup_failures_say_what_went_wrong() {
    let expected = [
        (SetupStep::OpenInput, "Could not open video file: x.mkv", vec![]),
        (
            SetupStep::ReadStreamInfo,
            "Could not find stream information",
            vec![Resource::Input],
        ),
        (SetupStep::FindStream, "Could not find a video stream", vec![Resource::Input]),
        (SetupStep::FindDecoder, "Video decoder not found", vec![Resource::Input]),
        (
            SetupStep::AllocateContext,
            "Could not allocate video codec context",
            vec![Resource::Input],
        ),
        (
            SetupStep::CopyParameters,
            "Could not copy video codec parameters to context",
            vec![Resource::CodecContext, Resource::Input],
        ),
        (
            SetupStep::OpenCodec,
            "Could not open video codec",
            vec![Resource::CodecContext, Resource::Input],
        ),
    ];
    for (step, message, release) in expected {
        let failure = setup_failure(Player::Video, step, "x.mkv", "unused");
        assert_eq!(failure.message, message);
        assert_eq!(failure.release, release);
    }
}

#[test]
fn audio_setup_failures_say_what_went_wrong() {
    let opened = vec![Resource::Input];
    let decoding = vec![Resource::CodecContext, Resource::Input];
    let expected = [
        (SetupStep::OpenInput, "Could not open audio file: x.mp3", vec![]),
        (SetupStep::ReadStreamInfo, "Could not find stream information", opened.clone()),
        (SetupStep::FindStream, "Could not find an audio stream", opened.clone()),
        (SetupStep::FindDecoder, "Audio decoder not found", opened.clone()),
        (SetupStep::AllocateContext, "Could not allocate audio codec context", opened),
        (
            SetupStep::CopyParameters,
            "Could not copy audio codec parameters to context",
            decoding.clone(),
        ),
        (SetupStep::OpenCodec, "Could not open audio codec", decoding.clone()),
        (SetupStep::FindDevice, "No default audio output device", decoding.clone()),
        (
            SetupStep::QueryDevice,
            "Could not get default audio output config: gone",
            decoding.clone(),
        ),
        (
            SetupStep::BuildStream,
            "Could not build audio output stream: gone",
            decoding.clone(),
        ),
        (
            SetupStep::StartStream,
            "Could not start audio output stream: gone",
            decoding.clone(),
        ),
        (SetupStep::CheckSampleRate, "Audio stream has no sample rate", decoding),
        (
            SetupStep::AllocatePacket,
            "Could not allocate audio packet",
            vec![Resource::Resampler, Resource::CodecContext, Resource::Input],
        ),
        (
            SetupStep::AllocateFrame,
            "Could not allocate audio frame",
            vec![
                Resource::Packet,
                Resource::Resampler,
                Resource::CodecContext,
                Resource::Input,
            ],
        ),
    ];
    for (step, message, release) in expected {
        let failure = setup_failure(Player::Audio, step, "x.mp3", "gone");
        assert_eq!(failure.message, message);
        assert_eq!(failure.release, release);
    }
}

#[test]
fn videos_go_on_without_sound() {
    assert!(silent_video(SetupStep::FindDecoder).is_empty());
    assert!(silent_video(SetupStep::AllocateContext).is_empty());
    assert_eq!(silent_video(SetupStep::CopyParameters), vec![Resource::AudioContext]);
    assert_eq!(silent_video(SetupStep::OpenCodec), vec![Resource::AudioContext]);
    assert!(silent_video(SetupStep::BuildStream).is_empty());
}

#[test]
fn videos_give_back_what_they_hold() {
    assert_eq!(
        screen_failure(true),
        vec![Resource::AudioContext, Resource::CodecContext, Resource::Input]
    );
    assert_eq!(screen_failure(false), vec![Resource::CodecContext, Resource::Input]);

    let everything = HeldResources {
        audio_frame: true,
        scaler: true,
        resampler: true,
        audio_context: true,
    };
    assert_eq!(
        everything.release_all(),
        vec![
            Resource::Packet,
            Resource::Frame,
            Resource::AudioFrame,
            Resource::Scaler,
            Resource::Resampler,
            Resource::CodecContext,
            Resource::AudioContext,
            Resource::Input,
        ]
    );
    let silent = HeldResources {
        audio_frame: false,
        scaler: true,
        resampler: false,
        audio_context: false,
    };
    assert_eq!(
        silent.release_all(),
        vec![
            Resource::Packet,
            Resource::Frame,
            Resource::Scaler,
            Resource::CodecContext,
            Resource::Input,
        ]
    );
}

#[test]
fn first_streams_are_played() {
    let kinds = [
        StreamKind::Other,
        StreamKind::Audio,
        StreamKind::Video,
        StreamKind::Audio,
        StreamKind::Video,
    ];
    let selection = select_streams(&kinds);
    assert_eq!(selection, StreamSelection { video: Some(2), audio: Some(1) });
    assert_eq!(route_packet(2, selection, true), PacketRoute::Video);
    assert_eq!(route_packet(1, selection, true), PacketRoute::Audio);
    assert_eq!(route_packet(1, selection, false), PacketRoute::Ignored);
    assert_eq!(route_packet(3, selection, true), PacketRoute::Ignored);
    assert_eq!(route_packet(-1, selection, true), PacketRoute::Ignored);
    assert_eq!(
        select_streams(&[StreamKind::Other]),
        StreamSelection { video: None, audio: None }
    );
}

#[test]
fn frames_fall_back_to_their_stream() {
    assert_eq!(frame_or_stream(640, 320), 640);
    assert_eq!(frame_or_stream(0, 320), 320);
    assert_eq!(frame_or_stream(-4, 320), 320);
}

#[test]
fn times_need_a_usable_clock() {
    let clock = TimeBase { num: 1, den: 1000 };
    let broken = TimeBase { num: 0, den: 1000 };
    assert_eq!(clock.duration_ticks(5), Some(5));
    assert_eq!(clock.duration_ticks(0), None);
    assert_eq!(broken.duration_ticks(5), None);
    assert_eq!(clock.frame_ticks(0), Some(0));
    assert_eq!(clock.frame_ticks(i64::MIN), None);
    assert_eq!(broken.frame_ticks(1), None);
    assert!(clock.usable());
    assert!(!TimeBase { num: 1, den: 0 }.usable());
}

#[test]
fn sound_gives_back_what_it_holds() {
    assert_eq!(
        release_audio(),
        vec![
            Resource::AudioFrame,
            Resource::Packet,
            Resource::Resampler,
            Resource::CodecContext,
            Resource::Input,
        ]
    );
}

fn steps_of(player: Player) -> Vec<SetupStep> {
    let mut steps = vec![SetupStep::OpenInput];
    while let Some(next) = next_step(player, steps[steps.len() - 1]) {
        steps.push(next);
    }
    steps
}

#[test]
fn players_take_every_step_in_order() {
    let all = [
        SetupStep::OpenInput,
        SetupStep::ReadStreamInfo,
        SetupStep::FindStream,
        SetupStep::FindDecoder,
        SetupStep::AllocateContext,
        SetupStep::CopyParameters,
        SetupStep::OpenCodec,
        SetupStep::FindDevice,
        SetupStep::QueryDevice,
        SetupStep::BuildStream,
        SetupStep::StartStream,
        SetupStep::CheckSampleRate,
        SetupStep::AllocatePacket,
        SetupStep::AllocateFrame,
    ];
    assert_eq!(steps_of(Player::Video), all[..7]);
    assert_eq!(steps_of(Player::Audio), all);

    let mut sound = vec![SetupStep::FindDecoder];
    while let Some(next) = next_sound_step(sound[sound.len() - 1]) {
        sound.push(next);
    }
    assert_eq!(sound, all[3..11]);
}
