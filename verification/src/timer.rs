use vstd::prelude::*;

verus! {

/// The value the delay timer holds when the machine is made.
pub const DELAY_START: u8 = 60;

/// What the 60 Hz delay timer holds one tick after holding `count`:
/// it counts down by one and rests at zero.
pub open spec fn timer_after_tick(count: u8) -> u8 {
    if count == 0 {
        0
    } else {
        (count - 1) as u8
    }
}

/// What the delay timer holds `k` ticks after holding `count`.
pub open spec fn timer_after_ticks(count: u8, k: nat) -> u8
    decreases k,
{
    if k == 0 {
        count
    } else {
        timer_after_tick(timer_after_ticks(count, (k - 1) as nat))
    }
}

/// One tick of the delay timer.
pub fn timer_tick(count: u8) -> (next: u8)
    ensures
        next == timer_after_tick(count),
{
    if count != 0 {
        count - 1
    } else {
        count
    }
}

/// The delay timer: a byte that the program writes and reads and that a 60 Hz clock
/// counts down to zero.
pub struct DelayTimer {
    count: u8,
}

impl View for DelayTimer {
    type V = u8;

    closed spec fn view(&self) -> u8 {
        self.count
    }
}

impl DelayTimer {
    /// A timer holding `DELAY_START`.
    pub fn new() -> (t: DelayTimer)
        ensures
            t@ == DELAY_START,
    {
        DelayTimer { count: DELAY_START }
    }

    /// The value the timer holds.
    pub fn read(&self) -> (v: u8)
        ensures
            v == self@,
    {
        self.count
    }

    /// Stores `value` in the timer.
    pub fn set(&mut self, value: u8)
        ensures
            final(self)@ == value,
    {
        self.count = value;
    }

    /// One tick of the clock: the timer counts down by one, resting at zero.
    pub fn tick(&mut self)
        ensures
            final(self)@ == timer_after_tick(old(self)@),
    {
        self.count = timer_tick(self.count);
    }
}

/// Left alone, the delay timer runs down: `k` ticks take `count` down by `k`, so from
/// `count` on at most `count` ticks reach zero, and it stays at zero from then on.
pub proof fn lemma_timer_runs_down(count: u8, k: nat)
    ensures
        timer_after_ticks(count, k) == (if k >= count { 0 } else { count - k }),
        k >= count ==> timer_after_ticks(count, k) == 0,
        timer_after_ticks(count, k) == 0 ==> timer_after_ticks(count, k + 1) == 0,
    decreases k,
{
    if k > 0 {
        lemma_timer_runs_down(count, (k - 1) as nat);
    }
    assert(timer_after_ticks(count, k + 1) == timer_after_tick(timer_after_ticks(count, k)));
}

} // verus!
