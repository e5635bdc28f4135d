use std::collections::VecDeque;
use walkie::transport::{
    pong_action, receive_frame, update_ping, CallAction, PongAction, Redial, RtpHeader, RtpSender,
    PING_MARKER, PONG_MARKER,
};

#[test]
fn pings_are_answered() {
    assert_eq!(pong_action(Some(PING_MARKER)), PongAction::Reply(PONG_MARKER));
    assert_eq!(pong_action(Some(0x02)), PongAction::Ignore);
    assert_eq!(pong_action(Some(0x00)), PongAction::Ignore);
    assert_eq!(pong_action(None), PongAction::Stop);
}

#[test]
fn round_trip_time_is_smoothed() {
    assert_eq!(update_ping(0, PONG_MARKER, 1_234), 1_234);
    assert_eq!(update_ping(1_000, PONG_MARKER, 2_000), 1_125);
    assert_eq!(update_ping(1_001, PONG_MARKER, 7), 875);
    assert_eq!(update_ping(1, PONG_MARKER, 1), 0);
    assert_eq!(update_ping(1_000, 0x07, 2_000), 1_000);
    assert_eq!(update_ping(0, PONG_MARKER, (1u128 << 64) + 5), 5);
}

#[test]
fn average_never_exceeds_both() {
    for average in [1u64, 7, 8, 100, 12_345] {
        for sample in [0u128, 1, 15, 999, 50_000] {
            let next = update_ping(average, PONG_MARKER, sample) as u128;
            assert!(next <= sample.max(average as u128));
            assert!(next + 2 > sample.min(average as u128));
        }
    }
}

#[test]
fn packets_are_numbered_and_stamped() {
    let mut sender = RtpSender::new();
    assert_eq!(
        sender.header(),
        RtpHeader {
            version: 2,
            payload_type: 111,
            sequence_number: 0,
            timestamp: 0,
            ssrc: 0x57414c4b,
        }
    );
    assert!(sender.after_send(true));
    assert!(sender.after_send(true));
    assert_eq!((sender.header().sequence_number, sender.header().timestamp), (2, 1_920));
    assert!(!sender.after_send(false));
    assert_eq!(sender.header().sequence_number, 2);
}

#[test]
fn packet_numbers_wrap() {
    let mut sender = RtpSender::new();
    for _ in 0..65_537u32 {
        sender.after_send(true);
    }
    assert_eq!(sender.header().sequence_number, 1);
    assert_eq!(sender.header().timestamp, 65_537 * 960);
    let mut late = RtpSender { sequence_number: 65_535, timestamp: u32::MAX };
    late.after_send(true);
    assert_eq!((late.sequence_number, late.timestamp), (0, 959));
}

#[test]
fn decoded_samples_are_queued() {
    let mut meter = VecDeque::from(vec![1u64]);
    let mut queue = VecDeque::from(vec![9i16]);
    receive_frame(&[1i16, 2, 3, 4], Some(3), 42, &mut meter, &mut queue);
    assert_eq!(queue, VecDeque::from(vec![9, 1, 2, 3]));
    assert_eq!(meter, VecDeque::from(vec![1, 42]));
    receive_frame(&[5i16], None, 43, &mut meter, &mut queue);
    assert_eq!(queue.len(), 4);
    assert_eq!(meter.len(), 2);
}

#[test]
fn waits_double_up_to_half_a_minute() {
    let mut redial = Redial::new();
    let mut waits = vec![];
    for _ in 0..7 {
        match redial.after_attempt(false) {
            CallAction::Retry { after_secs } => waits.push(after_secs),
            CallAction::Serve => panic!("not connected"),
        }
    }
    assert_eq!(waits, vec![2, 4, 8, 16, 30, 30, 30]);
    assert_eq!(redial.after_attempt(true), CallAction::Serve);
    assert_eq!(redial.delay_secs, 30);
}
