//! Push to talk: the transmit flag and its watchdog.
use vstd::prelude::*;

verus! {

/// How long a talk key counts as held after it was last seen pressed.
pub const PTT_TIMEOUT_MS: u64 = 300;

/// Whether the microphone is transmitted, and when the talk key was last seen pressed; 0 where it
/// is not held.
#[derive(Clone, Copy, Debug, PartialEq, Eq, Structural)]
pub struct PttState {
    pub active: bool,
    pub last_ms: u64,
}

/// Whether a key that was last seen pressed at `last_ms` no longer counts as held at `now_ms`.
pub open spec fn expired(last_ms: u64, now_ms: u64) -> bool {
    last_ms > 0 && now_ms - last_ms >= PTT_TIMEOUT_MS
}

/// Whether the talk key no longer counts as held. A clock that went back does not end the hold.
pub fn ptt_expired(last_ms: u64, now_ms: u64) -> (r: bool)
    ensures
        r == expired(last_ms, now_ms),
        r <==> last_ms > 0 && now_ms >= last_ms + 300,
{
    last_ms > 0 && now_ms.saturating_sub(last_ms) >= PTT_TIMEOUT_MS
}

impl PttState {
    /// The talk key is not held.
    pub open spec fn idle() -> PttState {
        PttState { active: false, last_ms: 0 }
    }

    /// The talk key was seen pressed at `now_ms`.
    pub open spec fn held(now_ms: u64) -> PttState {
        PttState { active: true, last_ms: now_ms }
    }

    /// What the watchdog makes of this state at `now_ms`.
    pub open spec fn watched(self, now_ms: u64) -> PttState {
        if expired(self.last_ms, now_ms) {
            PttState::idle()
        } else {
            self
        }
    }

    /// The state with the talk key up.
    pub fn released() -> (r: PttState)
        ensures
            r == PttState::idle(),
            !r.active && r.last_ms == 0,
    {
        PttState { active: false, last_ms: 0 }
    }

    /// The state with the talk key down.
    pub fn pressed(now_ms: u64) -> (r: PttState)
        ensures
            r == PttState::held(now_ms),
            r.active && r.last_ms == now_ms,
    {
        PttState { active: true, last_ms: now_ms }
    }

    /// Ends the transmission if the talk key no longer counts as held.
    pub fn watch(&mut self, now_ms: u64)
        ensures
            *final(self) == old(self).watched(now_ms),
            old(self).last_ms > 0 && now_ms >= old(self).last_ms + 300 ==> !final(self).active
                && final(self).last_ms == 0,
            !(old(self).last_ms > 0 && now_ms >= old(self).last_ms + 300) ==> *final(self)
                == *old(self),
    {
        if ptt_expired(self.last_ms, now_ms) {
            *self = PttState::released();
        }
    }
}

/// A key seen pressed at `at_ms` transmits until `PTT_TIMEOUT_MS` later, and not after, unless it
/// is seen pressed again.
pub proof fn lemma_hold_lasts_until_timeout(at_ms: u64, now_ms: u64)
    requires
        at_ms > 0,
    ensures
        PttState::held(at_ms).watched(now_ms).active == (now_ms - at_ms < PTT_TIMEOUT_MS),
{
}

/// The watchdog ends a hold 300 milliseconds after the key was last seen pressed, and leaves every
/// other state as it is: one that is not held, one seen later, and one of a clock that went back.
pub proof fn lemma_watchdog_ends_old_holds_alone(state: PttState, now_ms: u64)
    ensures
        state.last_ms > 0 && now_ms >= state.last_ms + 300 ==> !state.watched(now_ms).active
            && state.watched(now_ms).last_ms == 0,
        !(state.last_ms > 0 && now_ms >= state.last_ms + 300) ==> state.watched(now_ms).active
            == state.active && state.watched(now_ms).last_ms == state.last_ms,
{
}

/// The watchdog does nothing where the key is not held, and nothing more when it runs again.
pub proof fn lemma_watchdog_is_idempotent(state: PttState, now_ms: u64)
    ensures
        PttState::idle().watched(now_ms) == PttState::idle(),
        state.watched(now_ms).watched(now_ms) == state.watched(now_ms),
{
}

} // verus!
