//! The programmable interval timer: its reload value and the tick counter
//! that its interrupt advances.
use vstd::prelude::*;

verus! {

/// The PIT's input clock, in Hz.
pub const PIT_BASE_HZ: u32 = 1193182;

/// The reload value programmed into PIT channel 0: about one interrupt per
/// millisecond.
pub const PIT_DIVISOR: u16 = 1193;

/// The command byte for channel 0, low byte then high byte, mode 3.
pub const PIT_COMMAND: u8 = 0x36;

/// The two bytes of a PIT reload value, low byte first, as the data port
/// takes them.
pub fn pit_divisor_bytes(divisor: u16) -> (bytes: (u8, u8))
    ensures
        bytes.0 == divisor % 256,
        bytes.1 == divisor / 256,
        bytes.0 + 256 * bytes.1 == divisor,
{
    let lo = divisor % 256;
    let hi = divisor / 256;
    (lo as u8, hi as u8)
}

/// The value after `x` of a counter that wraps around at 2^64.
pub open spec fn wrapping_successor(x: u64) -> u64 {
    if x == u64::MAX { 0 } else { (x + 1) as u64 }
}

/// Ticks counted since the timer was started.
pub struct TickCounter {
    ticks: u64,
}

impl TickCounter {
    /// The number of ticks counted.
    pub closed spec fn count(&self) -> u64 {
        self.ticks
    }

    /// A counter that has seen no tick.
    pub fn new() -> (t: TickCounter)
        ensures
            t.count() == 0,
    {
        TickCounter { ticks: 0 }
    }

    /// Counts one timer interrupt; the counter wraps around at 2^64.
    pub fn timer_interrupt(&mut self)
        ensures
            final(self).count() == wrapping_successor(old(self).count()),
    {
        self.ticks = self.ticks.wrapping_add(1);
    }
}

/// The number of timer ticks counted so far.
pub fn ticks(timer: &TickCounter) -> (t: u64)
    ensures
        t == timer.count(),
{
    timer.ticks
}

/// The milliseconds counted so far: with the PIT programmed with
/// [`PIT_DIVISOR`] one tick is taken as one millisecond.
pub fn ticks_ms(timer: &TickCounter) -> (ms: u64)
    ensures
        ms == timer.count(),
{
    timer.ticks
}

/// The ticks from `start` to `now` on a counter that wraps at 2^64.
pub open spec fn elapsed(start: u64, now: u64) -> int {
    if now >= start { now - start } else { now - start + 0x1_0000_0000_0000_0000 }
}

/// Whether a wait of `ms` milliseconds begun when the counter read `start`
/// must go on now that it reads `now`: the waiting loop spins while this
/// holds.
pub fn wait_ms(start: u64, now: u64, ms: u64) -> (waiting: bool)
    ensures
        waiting == (elapsed(start, now) < ms),
{
    now.wrapping_sub(start) < ms
}

/// A wait of `ms` milliseconds goes on for exactly `ms` ticks: it is still
/// pending at every reading before `start + ms` and over from then on, as
/// long as the counter does not wrap past `start` again.
pub proof fn lemma_wait_lasts_ms(start: u64, ms: u64, now: u64)
    requires
        start <= now,
    ensures
        (elapsed(start, now) < ms) == (now < start + ms),
{
}

/// The count after a tick is one more, unless the counter wrapped to zero.
pub proof fn lemma_tick_counts_one(t: u64)
    ensures
        t < u64::MAX ==> wrapping_successor(t) == t + 1,
        t == u64::MAX ==> wrapping_successor(t) == 0,
        elapsed(t, wrapping_successor(t)) == 1,
{
}

/// The count after `n` more timer interrupts from `t`.
pub open spec fn count_after(t: u64, n: nat) -> u64
    decreases n,
{
    if n == 0 {
        t
    } else {
        wrapping_successor(count_after(t, (n - 1) as nat))
    }
}

/// Ticks only go up: after `n` interrupts the count has grown by exactly
/// `n`, as long as it does not pass 2^64 - 1.
pub proof fn lemma_ticks_grow_by_interrupts(t: u64, n: nat)
    requires
        t + n <= u64::MAX,
    ensures
        count_after(t, n) == t + n,
        t <= count_after(t, n),
    decreases n,
{
    if n > 0 {
        lemma_ticks_grow_by_interrupts(t, (n - 1) as nat);
    }
}

} // verus!
