//! The rule by which the senders of the full-path animations emit packets.
use vstd::prelude::*;

verus! {

/// Whether a sender emits a packet at the given tick. It has a period and
/// a phase within it, `offset`. It emits once per period; while it has
/// sent fewer than `extra` packets, it also emits every half period.
pub open spec fn sends(tick: u64, offset: u64, period: u64, sent: u64, extra: u64) -> bool {
    ||| (tick + offset) % (period as int) == 0
    ||| (period >= 2 && (tick + offset) % (period as int / 2) == 0 && sent < extra)
}

/// The number of packets sent, after one more. Counting stops at
/// `u64::MAX`, which no number of extra packets exceeds.
pub open spec fn one_more(sent: u64) -> u64 {
    if sent < u64::MAX {
        (sent + 1) as u64
    } else {
        sent
    }
}

/// The number of packets sent after a tick at which the sender was or was
/// not due.
pub open spec fn counted(sent: u64, due: bool) -> u64 {
    if due {
        one_more(sent)
    } else {
        sent
    }
}

/// Whether a sender emits a packet at the given tick. A period of zero
/// ticks is no period.
pub fn is_due(tick: u64, offset: u64, period: u64, sent: u64, extra: u64) -> (due: bool)
    requires
        period >= 1,
    ensures
        due == sends(tick, offset, period, sent, extra),
{
    let at: u128 = tick as u128 + offset as u128;
    let half: u64 = period / 2;
    if at % (period as u128) == 0 {
        true
    } else if half >= 1 {
        at % (half as u128) == 0 && sent < extra
    } else {
        false
    }
}

/// Counts one more packet.
pub fn count(sent: u64) -> (more: u64)
    ensures
        more == one_more(sent),
{
    if sent < u64::MAX {
        sent + 1
    } else {
        sent
    }
}

} // verus!
