//! Bounded histories: the newest entries are kept, the oldest leave first.
use std::collections::VecDeque;
use vstd::prelude::*;

verus! {

/// Loudness values kept for a meter.
pub const AMP_HISTORY_LEN: usize = 150;

/// Lines kept of the chat.
pub const MAX_LOG_LINES: usize = 200;

/// `history` after `entry` was pushed: where it was at its limit, the oldest entry left.
pub open spec fn pushed<T>(history: Seq<T>, limit: nat, entry: T) -> Seq<T> {
    if history.len() >= limit && history.len() > 0 {
        history.drop_first().push(entry)
    } else {
        history.push(entry)
    }
}

/// Appends `entry`; where the history holds `limit` entries or more, the oldest one leaves first.
pub fn push_bounded<T>(history: &mut VecDeque<T>, limit: usize, entry: T)
    ensures
        final(history)@ == pushed(old(history)@, limit as nat, entry),
{
    if history.len() >= limit {
        history.pop_front();
    }
    history.push_back(entry);
}

/// Appends a loudness value to a meter's history.
pub fn push_amp(history: &mut VecDeque<u64>, amp: u64)
    ensures
        final(history)@ == pushed(old(history)@, AMP_HISTORY_LEN as nat, amp),
        old(history)@.len() < 150 ==> final(history)@ == old(history)@.push(amp),
        old(history)@.len() >= 150 ==> final(history)@ == old(history)@.skip(1).push(amp),
{
    push_bounded(history, AMP_HISTORY_LEN, amp);
}

/// An entry that is pushed becomes the last one. Below the limit all others stay before it; at the
/// limit or above all others but the oldest do.
pub proof fn lemma_pushed_loses_oldest_alone<T>(history: Seq<T>, limit: nat, entry: T)
    ensures
        pushed(history, limit, entry).len() > 0,
        pushed(history, limit, entry).last() == entry,
        history.len() < limit || history.len() == 0 ==> pushed(history, limit, entry).drop_last()
            == history,
        history.len() >= limit && history.len() > 0 ==> pushed(history, limit, entry).drop_last()
            == history.skip(1),
{
    assert(history.push(entry).drop_last() =~= history);
    if history.len() > 0 {
        assert(history.drop_first().push(entry).drop_last() =~= history.skip(1));
    }
}

/// A meter keeps 150 values, and the chat 200 lines.
pub proof fn lemma_limits()
    ensures
        AMP_HISTORY_LEN == 150,
        MAX_LOG_LINES == 200,
{
}

/// A history within its limit stays within it, keeps the new entry last, and before it the newest
/// of the entries it had, in their order.
pub proof fn lemma_pushed_keeps_newest<T>(history: Seq<T>, limit: nat, entry: T)
    requires
        history.len() <= limit,
        limit > 0,
    ensures
        pushed(history, limit, entry).len() <= limit,
        pushed(history, limit, entry).last() == entry,
        pushed(history, limit, entry).drop_last() == history.skip(
            if history.len() == limit {
                1
            } else {
                0
            },
        ),
{
}

} // verus!
