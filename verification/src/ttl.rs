//! Hop counter carried by forwarded messages.

use vstd::prelude::*;

verus! {

/// TTL of a message.
///
/// It decreases by one each time the message is forwarded. When it reaches
/// zero the message is handled by the node that holds it at that moment, so a
/// TTL can be read as the number of hops a message may still take.
#[derive(Debug, Clone, Copy, PartialEq, Eq, Hash, PartialOrd, Ord)]
pub struct TimeToLive(u8);

impl View for TimeToLive {
    type V = u8;

    closed spec fn view(&self) -> u8 {
        self.0
    }
}

/// What is left of `value` hops after `hops` of them were taken: the
/// difference, or zero where there were no more than `hops`.
pub open spec fn remaining_hops(value: u8, hops: nat) -> u8 {
    if hops >= value {
        0u8
    } else {
        (value - hops) as u8
    }
}

/// The value that a TTL of `value` has after it was decremented `times`
/// times in a row.
pub open spec fn decremented(value: u8, times: nat) -> u8
    decreases times,
{
    if times == 0 {
        value
    } else {
        remaining_hops(decremented(value, (times - 1) as nat), 1)
    }
}

/// Decrementing saturates: after any number of decrements the value is the
/// starting value less that number, or zero where the number exceeds it. The
/// value never grows, so it never wraps around.
pub proof fn lemma_decrement_saturates(value: u8, times: nat)
    ensures
        decremented(value, times) == remaining_hops(value, times),
        decremented(value, times) <= value,
        value == 0 ==> decremented(value, times) == 0,
    decreases times,
{
    if times > 0 {
        lemma_decrement_saturates(value, (times - 1) as nat);
    }
}

impl TimeToLive {
    /// Makes a new `TimeToLive` instance.
    pub fn new(ttl: u8) -> (r: Self)
        ensures
            r@ == ttl,
    {
        TimeToLive(ttl)
    }

    /// Returns the value of the TTL.
    pub fn as_u8(self) -> (r: u8)
        ensures
            r == self@,
    {
        self.0
    }

    /// Returns `true` if the TTL is expired, otherwise `false`.
    pub fn is_expired(self) -> (r: bool)
        ensures
            r == (self@ == 0),
    {
        self.0 == 0
    }

    /// Returns the TTL after one more hop; an expired TTL stays expired.
    pub fn decrement(self) -> (r: Self)
        ensures
            r@ == remaining_hops(self@, 1),
    {
        if self.0 == 0 {
            TimeToLive(0)
        } else {
            TimeToLive(self.0 - 1)
        }
    }
}

} // verus!
