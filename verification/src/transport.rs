//! A call: liveness probes, the RTP stream of audio frames, received frames, and redialing.
use crate::audio::FRAME_SIZE;
use crate::history::{push_amp, pushed, AMP_HISTORY_LEN};
use std::collections::VecDeque;
use vstd::prelude::*;

verus! {

/// The RTP payload type of Opus audio.
pub const RTP_PAYLOAD_TYPE: u8 = 111;

/// The RTP synchronisation source of every sender: "WALK".
pub const RTP_SSRC: u32 = 0x57414c4b;

/// The flow that carries the audio.
pub const AUDIO_FLOW: u32 = 0;

/// The byte that asks for a sign of life.
pub const PING_MARKER: u8 = 0x01;

/// The byte that answers `PING_MARKER`.
pub const PONG_MARKER: u8 = 0x02;

/// The seconds between two probes.
pub const PING_INTERVAL_SECS: u64 = 2;

/// The round trip time that stands for none measured.
pub const NO_PING: u64 = 0;

/// What to do about a read from a probe stream.
#[derive(Clone, Copy, Debug, PartialEq, Eq, Structural)]
pub enum PongAction {
    /// Write the byte, and read on.
    Reply(u8),
    /// Read on.
    Ignore,
    /// Stop: the stream has failed.
    Stop,
}

/// The answer to what was read from a probe stream; `None` is a failed read.
pub open spec fn pong_for(read: Option<u8>) -> PongAction {
    match read {
        Some(byte) => if byte == PING_MARKER {
            PongAction::Reply(PONG_MARKER)
        } else {
            PongAction::Ignore
        },
        None => PongAction::Stop,
    }
}

/// Answers a read from a probe stream: a ping gets a pong, and any other byte nothing.
pub fn pong_action(read: Option<u8>) -> (r: PongAction)
    ensures
        r == pong_for(read),
        read == Some(1u8) ==> r == PongAction::Reply(2),
        read is Some && read != Some(1u8) ==> r == PongAction::Ignore,
        read is None ==> r == PongAction::Stop,
{
    match read {
        Some(byte) => {
            if byte == PING_MARKER {
                PongAction::Reply(PONG_MARKER)
            } else {
                PongAction::Ignore
            }
        },
        None => PongAction::Stop,
    }
}

/// The moving average of round trip times, with an eighth for the newest; the first measurement
/// stands for itself.
pub open spec fn smoothed(average: int, sample: int) -> int {
    if average == 0 {
        sample
    } else {
        sample / 8 + average * 7 / 8
    }
}

/// The round trip time shown after a probe was answered with `reply` after `elapsed_us`
/// microseconds, of which the low 64 bits count. Only a pong counts as an answer.
pub open spec fn ping_after(ping_us: int, reply: u8, elapsed_us: int) -> int {
    if reply == PONG_MARKER {
        smoothed(ping_us, elapsed_us % 0x1_0000_0000_0000_0000)
    } else {
        ping_us
    }
}

/// Takes the answer to a probe into the round trip time.
pub fn update_ping(ping_us: u64, reply: u8, elapsed_us: u128) -> (r: u64)
    requires
        reply == PONG_MARKER ==> ping_us * 7 <= u64::MAX,
    ensures
        r == ping_after(ping_us as int, reply, elapsed_us as int),
        reply != 2 ==> r == ping_us,
        reply == 2 && ping_us == 0 ==> r == elapsed_us as int % 0x1_0000_0000_0000_0000,
        reply == 2 && ping_us != 0 ==> r == elapsed_us as int % 0x1_0000_0000_0000_0000 / 8
            + ping_us * 7 / 8,
{
    if reply == PONG_MARKER {
        assert(elapsed_us as u64 == elapsed_us % 0x1_0000_0000_0000_0000) by (bit_vector);
        let sample: u64 = elapsed_us as u64;
        if ping_us == 0 {
            sample
        } else {
            sample / 8 + ping_us * 7 / 8
        }
    } else {
        ping_us
    }
}

/// Probes go out every two seconds, the audio is on the flow number 0, and a round trip time of 0
/// stands for none.
pub proof fn lemma_call_constants()
    ensures
        PING_INTERVAL_SECS == 2,
        AUDIO_FLOW == 0,
        NO_PING == 0,
{
}

/// A ping is answered with a byte that counts as an answer, and nothing else is.
pub proof fn lemma_ping_is_answered(byte: u8, ping_us: int, elapsed_us: int)
    ensures
        pong_for(Some(byte)) == PongAction::Reply(PONG_MARKER) <==> byte == PING_MARKER,
        forall|reply: u8|
            pong_for(Some(byte)) == PongAction::Reply(reply) ==> #[trigger] ping_after(
                ping_us,
                reply,
                elapsed_us,
            ) == smoothed(ping_us, elapsed_us % 0x1_0000_0000_0000_0000),
{
}

/// The first measurement stands for itself; after that the newest counts for an eighth and the
/// average so far for seven eighths, each rounded down. A measurement of zero counts as none.
pub proof fn lemma_newest_counts_for_an_eighth(average: int, sample: int)
    requires
        average >= 0,
        sample >= 0,
    ensures
        average == 0 ==> smoothed(average, sample) == sample,
        average > 0 ==> smoothed(average, sample) * 8 <= sample + average * 7
            < smoothed(average, sample) * 8 + 15,
{
}

/// Equal measurements keep an average that has settled on them, but for one unit of rounding each.
pub proof fn lemma_settled_average_stays(average: int)
    requires
        average >= 0,
    ensures
        average - 1 <= smoothed(average, average) <= average,
{
}

/// The average stays between the average so far and the new sample, but for what the two
/// divisions round off: it is never above both, and never two or more below both.
pub proof fn lemma_average_lies_between(average: int, sample: int)
    requires
        average >= 0,
        sample >= 0,
    ensures
        smoothed(average, sample) <= average || smoothed(average, sample) <= sample,
        smoothed(average, sample) + 2 > average || smoothed(average, sample) + 2 > sample,
        smoothed(average, sample) >= 0,
{
}

/// For as long as no probe takes more than a seventh of the 64-bit range, the average stays in the
/// range that the next measurement needs.
pub proof fn lemma_average_stays_in_range(average: int, sample: int)
    requires
        0 <= average,
        average * 7 <= u64::MAX,
        0 <= sample,
        sample * 7 <= u64::MAX,
    ensures
        smoothed(average, sample) * 7 <= u64::MAX,
{
    lemma_average_lies_between(average, sample);
}

/// The header fields of an audio packet; the rest of the header is as RTP has it by default.
#[derive(Clone, Copy, Debug, PartialEq, Eq, Structural)]
pub struct RtpHeader {
    pub version: u8,
    pub payload_type: u8,
    pub sequence_number: u16,
    pub timestamp: u32,
    pub ssrc: u32,
}

/// The sending side of the audio stream.
#[derive(Clone, Copy, Debug, PartialEq, Eq, Structural)]
pub struct RtpSender {
    pub sequence_number: u16,
    pub timestamp: u32,
}

impl RtpSender {
    /// A stream with nothing sent yet.
    pub open spec fn initial() -> RtpSender {
        RtpSender { sequence_number: 0, timestamp: 0 }
    }

    /// The stream after one more frame: the sequence number counts packets, the timestamp counts
    /// samples, and both wrap around.
    pub open spec fn advanced(self) -> RtpSender {
        RtpSender {
            sequence_number: ((self.sequence_number + 1) % 0x1_0000) as u16,
            timestamp: ((self.timestamp + FRAME_SIZE) % 0x1_0000_0000) as u32,
        }
    }

    /// The stream after `n` frames.
    pub open spec fn after(n: nat) -> RtpSender
        decreases n,
    {
        if n == 0 {
            RtpSender::initial()
        } else {
            RtpSender::after((n - 1) as nat).advanced()
        }
    }

    /// The header of the next packet.
    pub open spec fn next_header(self) -> RtpHeader {
        RtpHeader {
            version: 2,
            payload_type: RTP_PAYLOAD_TYPE,
            sequence_number: self.sequence_number,
            timestamp: self.timestamp,
            ssrc: RTP_SSRC,
        }
    }

    /// A stream with nothing sent yet.
    pub fn new() -> (r: RtpSender)
        ensures
            r == RtpSender::initial(),
            r.sequence_number == 0 && r.timestamp == 0,
    {
        RtpSender { sequence_number: 0, timestamp: 0 }
    }

    /// The header of the next packet.
    pub fn header(&self) -> (r: RtpHeader)
        ensures
            r == self.next_header(),
            r.version == 2 && r.payload_type == 111 && r.ssrc == 0x57414c4b,
            r.sequence_number == self.sequence_number && r.timestamp == self.timestamp,
    {
        RtpHeader {
            version: 2,
            payload_type: RTP_PAYLOAD_TYPE,
            sequence_number: self.sequence_number,
            timestamp: self.timestamp,
            ssrc: RTP_SSRC,
        }
    }

    /// Takes note of whether the packet could be sent, and says whether the stream goes on: it
    /// ends with the first packet that cannot be sent.
    pub fn after_send(&mut self, sent: bool) -> (goes_on: bool)
        ensures
            goes_on == sent,
            *final(self) == (if sent {
                old(self).advanced()
            } else {
                *old(self)
            }),
            sent ==> final(self).sequence_number == (old(self).sequence_number + 1) % 0x1_0000,
            sent ==> final(self).timestamp == (old(self).timestamp + 960) % 0x1_0000_0000,
    {
        if sent {
            self.sequence_number = self.sequence_number.wrapping_add(1);
            self.timestamp = self.timestamp.wrapping_add(FRAME_SIZE as u32);
        }
        sent
    }
}

/// The packet after `n` others has the sequence number `n` and the timestamp of the samples sent
/// before it, each as far as its field holds it.
pub proof fn lemma_stream_counts_packets_and_samples(n: nat)
    ensures
        RtpSender::after(n).next_header().sequence_number == n % 0x1_0000,
        RtpSender::after(n).next_header().timestamp == (n * FRAME_SIZE) % 0x1_0000_0000,
    decreases n,
{
    if n > 0 {
        lemma_stream_counts_packets_and_samples((n - 1) as nat);
        assert((n - 1) * FRAME_SIZE + FRAME_SIZE == n * FRAME_SIZE) by (nonlinear_arith);
    }
}

/// Takes a packet that was decoded to the first `decoded` of `pcm` into playback, and its loudness
/// into the meter; a packet that could not be decoded is dropped.
pub fn receive_frame<T: Copy>(
    pcm: &[T],
    decoded: Option<usize>,
    amp: u64,
    audio_amp: &mut VecDeque<u64>,
    playback: &mut VecDeque<T>,
)
    requires
        decoded matches Some(n) ==> n <= pcm@.len(),
    ensures
        match decoded {
            Some(n) => {
                &&& final(playback)@ == old(playback)@ + pcm@.take(n as int)
                &&& final(audio_amp)@ == pushed(old(audio_amp)@, AMP_HISTORY_LEN as nat, amp)
            },
            None => final(playback)@ == old(playback)@ && final(audio_amp)@ == old(audio_amp)@,
        },
{
    if let Some(n) = decoded {
        push_amp(audio_amp, amp);
        let ghost before = playback@;
        let mut i: usize = 0;
        while i < n
            invariant
                i <= n <= pcm@.len(),
                playback@ == before + pcm@.take(i as int),
            decreases n - i,
        {
            playback.push_back(pcm[i]);
            i = i + 1;
            assert(playback@ == before + pcm@.take(i as int));
        }
    }
}

/// The seconds to wait before the first redial.
pub const FIRST_RETRY_SECS: u64 = 2;

/// The longest wait before a redial, in seconds.
pub const LAST_RETRY_SECS: u64 = 30;

/// The wait after a wait of `secs`: twice as long, up to the longest.
pub open spec fn longer_wait(secs: int) -> int {
    if secs * 2 < LAST_RETRY_SECS {
        secs * 2
    } else {
        LAST_RETRY_SECS as int
    }
}

/// The wait before the redial number `n`, counted from 0.
pub open spec fn wait_before(n: nat) -> int
    decreases n,
{
    if n == 0 {
        FIRST_RETRY_SECS as int
    } else {
        longer_wait(wait_before((n - 1) as nat))
    }
}

/// What to do after an attempt to call.
#[derive(Clone, Copy, Debug, PartialEq, Eq, Structural)]
pub enum CallAction {
    /// Serve the connection, and call no more.
    Serve,
    /// Wait for so many seconds, and call again.
    Retry { after_secs: u64 },
}

/// Attempts to call a peer, with longer and longer waits between them.
#[derive(Clone, Copy, Debug, PartialEq, Eq, Structural)]
pub struct Redial {
    pub delay_secs: u64,
}

impl Redial {
    /// No attempt has failed yet.
    pub fn new() -> (r: Redial)
        ensures
            r.delay_secs == wait_before(0),
            r.delay_secs == 2,
    {
        Redial { delay_secs: FIRST_RETRY_SECS }
    }

    /// What follows an attempt that did or did not connect.
    pub fn after_attempt(&mut self, connected: bool) -> (r: CallAction)
        ensures
            connected ==> r == CallAction::Serve && *final(self) == *old(self),
            !connected ==> r == (CallAction::Retry { after_secs: old(self).delay_secs })
                && final(self).delay_secs == longer_wait(old(self).delay_secs as int),
            !connected && old(self).delay_secs <= 15 ==> final(self).delay_secs
                == old(self).delay_secs * 2,
            !connected && old(self).delay_secs >= 15 ==> final(self).delay_secs == 30,
    {
        if connected {
            CallAction::Serve
        } else {
            let after_secs: u64 = self.delay_secs;
            self.delay_secs =
            if after_secs < LAST_RETRY_SECS / 2 {
                after_secs * 2
            } else {
                LAST_RETRY_SECS
            };
            CallAction::Retry { after_secs }
        }
    }
}

/// The waits between redials are 2, 4, 8 and 16 seconds, and 30 seconds from then on.
pub proof fn lemma_waits_double(n: nat)
    ensures
        wait_before(0) == 2,
        wait_before(n + 1) == (if wait_before(n) * 2 < 30 {
            wait_before(n) * 2
        } else {
            30
        }),
{
}

/// The waits between redials start with `FIRST_RETRY_SECS`, never get shorter, and never exceed
/// `LAST_RETRY_SECS`, which they reach with the fifth.
pub proof fn lemma_waits_grow_to_limit(n: nat)
    ensures
        FIRST_RETRY_SECS <= wait_before(n) <= wait_before(n + 1) <= LAST_RETRY_SECS,
        n >= 4 ==> wait_before(n) == LAST_RETRY_SECS,
    decreases n,
{
    reveal_with_fuel(wait_before, 6);
    if n > 0 {
        lemma_waits_grow_to_limit((n - 1) as nat);
    }
}

} // verus!
