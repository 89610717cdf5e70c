use kitim::audio::{
    converted_samples, frame_sample_rate, max_output_frames, sample_count, samples_countable,
    sound_pending,
};
use kitim::sample_queue::{SampleQueue, SILENCE};

#[test]
fn queue_plays_samples_in_order() {
    let mut queue = SampleQueue::for_output(2, 1);
    let samples = [1u32, 2, 3, 4, 5, 6];
    assert_eq!(queue.push_from(&samples, 0), 4);
    assert_eq!(queue.push_from(&samples, 4), 4);

    let mut out = vec![9u32; 3];
    assert_eq!(queue.fill_output(false, &mut out), 3);
    assert_eq!(out, vec![1, 2, 3]);
    assert_eq!(queue.push_from(&samples, 4), 6);

    let mut out = vec![9u32; 5];
    assert_eq!(queue.fill_output(false, &mut out), 3);
    assert_eq!(out, vec![4, 5, 6, SILENCE, SILENCE]);
    assert_eq!(queue.pop(), None);
}

#[test]
fn reset_throws_queued_sound_away() {
    let mut queue = SampleQueue::for_output(4, 2);
    queue.push_from(&[7, 8, 9], 0);
    let mut out = vec![5u32; 2];
    assert_eq!(queue.fill_output(true, &mut out), 0);
    assert_eq!(out, vec![SILENCE, SILENCE]);

    queue.push_from(&[10], 0);
    assert_eq!(queue.fill_output(false, &mut out), 1);
    assert_eq!(out, vec![10, SILENCE]);
}

#[test]
fn queue_can_be_cleared() {
    let mut queue = SampleQueue::for_output(4, 1);
    queue.push_from(&[1, 2, 3], 0);
    queue.clear();
    assert_eq!(queue.pop(), None);
    queue.push_from(&[4], 0);
    assert_eq!(queue.pop(), Some(4));
}

#[test]
fn queue_always_has_room() {
    let mut queue = SampleQueue::for_output(0, 0);
    assert_eq!(queue.push_from(&[1, 2], 0), 1);
    assert_eq!(queue.pop(), Some(1));
}

#[test]
fn queue_wraps_around_many_times() {
    let mut queue = SampleQueue::for_output(3, 1);
    let mut next = 0u32;
    for round in 0..50u32 {
        queue.push_from(&[2 * round, 2 * round + 1], 0);
        let mut out = vec![0u32; 2];
        assert_eq!(queue.fill_output(false, &mut out), 2);
        assert_eq!(out, vec![next, next + 1]);
        next += 2;
    }
}

#[test]
fn resampled_frames_leave_slack() {
    assert_eq!(max_output_frames(1024, 48_000, 48_000), 1280);
    assert_eq!(max_output_frames(1024, 48_000, 44_100), 1370);
    assert_eq!(max_output_frames(0, 48_000, 8_000), 256);
    assert_eq!(max_output_frames(-7, 2, 4), 253);
}

#[test]
fn samples_are_counted_per_channel() {
    assert_eq!(sample_count(1280, 2), 2560);
    assert!(samples_countable(i32::MAX, 1));
    assert!(!samples_countable(i32::MAX, 2));
    assert!(!samples_countable(-1, 1));
    assert_eq!(converted_samples(10, 2, 100), 20);
    assert_eq!(converted_samples(10, 2, 15), 15);
    assert_eq!(converted_samples(0, 2, 15), 0);
    assert_eq!(converted_samples(-3, 2, 15), 0);
}

#[test]
fn frames_fall_back_to_the_rate_of_their_stream() {
    assert_eq!(frame_sample_rate(44_100, 48_000), Some(44_100));
    assert_eq!(frame_sample_rate(0, 48_000), Some(48_000));
    assert_eq!(frame_sample_rate(0, 0), None);
    assert_eq!(frame_sample_rate(-1, -1), None);
}

#[test]
fn sound_is_awaited_until_all_is_played() {
    assert!(sound_pending(true, 9, 10));
    assert!(!sound_pending(true, 10, 10));
    assert!(!sound_pending(false, 0, 10));
}

#[test]
fn samples_are_queued_once_however_often_it_takes() {
    let samples: Vec<u32> = (1..=23).collect();
    let mut queue = SampleQueue::for_output(2, 1);
    let mut played = Vec::new();
    let mut next = queue.push_from(&samples, 0);
    while next < samples.len() {
        let mut out = vec![0u32; 3];
        let read = queue.fill_output(false, &mut out);
        played.extend_from_slice(&out[..read]);
        let before = next;
        next = queue.push_from(&samples, next);
        assert!(next > before);
    }
    while let Some(sample) = queue.pop() {
        played.push(sample);
    }
    assert_eq!(played, samples);
}
