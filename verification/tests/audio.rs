use std::collections::VecDeque;
use walkie::audio::{
    capture, fill_output, meter_frame, mix_down, take_frames, FRAME_SIZE, SAMPLE_RATE,
};
use walkie::history::{push_amp, push_bounded, AMP_HISTORY_LEN};

#[test]
fn frame_is_20_ms() {
    assert_eq!(FRAME_SIZE as u32 * 50, SAMPLE_RATE);
}

#[test]
fn full_frames_are_taken_out() {
    let mut buffer: Vec<u32> = vec![];
    let samples: Vec<u32> = (0..2_000).collect();
    let frames = take_frames(&mut buffer, &samples);
    assert_eq!(frames.len(), 2);
    assert_eq!(frames[0], (0..960).collect::<Vec<u32>>());
    assert_eq!(frames[1], (960..1_920).collect::<Vec<u32>>());
    assert_eq!(buffer, (1_920..2_000).collect::<Vec<u32>>());
}

#[test]
fn portions_make_the_same_frames() {
    let samples: Vec<u32> = (0..5_000).collect();
    let mut whole_rest = vec![];
    let whole = take_frames(&mut whole_rest, &samples);
    let mut rest = vec![];
    let mut parts = vec![];
    for portion in samples.chunks(333) {
        parts.extend(take_frames(&mut rest, &portion.to_vec()));
    }
    assert_eq!(parts, whole);
    assert_eq!(rest, whole_rest);
}

#[test]
fn exactly_one_frame_leaves_nothing() {
    let mut buffer = vec![0u8; 959];
    assert!(take_frames(&mut buffer, &vec![]).is_empty());
    assert_eq!(take_frames(&mut buffer, &vec![1]).len(), 1);
    assert!(buffer.is_empty());
}

#[test]
fn groups_are_mixed_in_order() {
    let mixed = mix_down(&[1, 2, 3, 4, 5], 2, |g: &[i32]| g.iter().sum::<i32>());
    assert_eq!(mixed, vec![3, 7, 5]);
    let mono = mix_down(&[0.5f32, -0.25], 1, |g: &[f32]| g[0]);
    assert_eq!(mono, vec![0.5, -0.25]);
    assert!(mix_down(&[], 3, |g: &[i32]| g.len()).is_empty());
}

#[test]
fn playback_fills_every_channel_then_silence() {
    let mut queue = VecDeque::from(vec![0.5f32, -1.0]);
    let mut data = [7i16; 7];
    fill_output(&mut queue, 0.0, 2, &mut data, |s: f32| (s * 100.0) as i16);
    assert_eq!(data, [50, 50, -100, -100, 0, 0, 0]);
    assert!(queue.is_empty());
}

#[test]
fn playback_goes_on_where_it_stopped() {
    let mut queue = VecDeque::from(vec![1u8, 2, 3]);
    let mut data = [0u8; 4];
    fill_output(&mut queue, 0, 2, &mut data, |s| s);
    assert_eq!(data, [1, 1, 2, 2]);
    assert_eq!(queue, VecDeque::from(vec![3]));
    fill_output(&mut queue, 0, 2, &mut data, |s| s);
    assert_eq!(data, [3, 3, 0, 0]);
}

#[test]
fn frames_are_sent_while_talking() {
    let mut meter = VecDeque::new();
    assert!(meter_frame(&mut meter, 5, true));
    assert!(!meter_frame(&mut meter, 6, false));
    assert_eq!(meter, VecDeque::from(vec![5, 6]));
}

#[test]
fn loudness_history_is_bounded() {
    let mut history = VecDeque::new();
    for amp in 0..AMP_HISTORY_LEN as u64 + 2 {
        push_amp(&mut history, amp);
    }
    assert_eq!(history.len(), 150);
    assert_eq!(history[0], 2);
    assert_eq!(history[149], 151);
}

#[test]
fn limit_of_zero_still_takes_the_entry() {
    let mut history = VecDeque::new();
    push_bounded(&mut history, 0, 'a');
    push_bounded(&mut history, 0, 'b');
    assert_eq!(history, VecDeque::from(vec!['b']));
}

#[test]
fn capture_meters_every_frame_and_sends_while_talking() {
    let mut buffer = vec![7u64; FRAME_SIZE - 1];
    let mut meter = VecDeque::new();
    let asked = std::cell::Cell::new(0);
    let samples: Vec<u64> = (0..2 * FRAME_SIZE as u64 + 3).collect();
    let frames = capture(
        &mut buffer,
        &samples,
        &mut meter,
        |frame: &Vec<u64>| frame[0],
        || {
            asked.set(asked.get() + 1);
            asked.get() != 1
        },
    );
    assert_eq!(meter, VecDeque::from(vec![7, 1, 961]));
    assert_eq!(frames.len(), 2);
    assert_eq!(frames[0], (1..=960).collect::<Vec<u64>>());
    assert_eq!(frames[1], (961..=1_920).collect::<Vec<u64>>());
    assert_eq!(buffer, vec![1_921, 1_922]);
}

#[test]
fn delivered_portions_make_the_same_frames() {
    let data: Vec<u32> = (0..4_000).collect();
    let deliver = |portions: &[&[u32]]| {
        let mut buffer: Vec<u32> = Vec::new();
        let mut meter = VecDeque::new();
        let mut sent = Vec::new();
        for portion in portions {
            let mixed = mix_down(portion, 2, |group: &[u32]| group.iter().sum::<u32>());
            let loudness = |frame: &Vec<u32>| frame[3] as u64;
            sent.extend(capture(&mut buffer, &mixed, &mut meter, loudness, || true));
        }
        (buffer, meter, sent)
    };
    let whole = deliver(&[&data]);
    assert_eq!(whole.2.len(), 2);
    assert_eq!(whole.0.len(), 80);
    for cut in [0, 2, 1_000, 1_918, 1_920, 3_998, 4_000] {
        assert_eq!(deliver(&[&data[..cut], &data[cut..]]), whole);
    }
}
