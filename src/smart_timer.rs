//! A monotonic clock built on the core's free-running cycle counter.
use vstd::arithmetic::div_mod::{lemma_div_denominator, lemma_div_multiples_vanish_quotient};
use vstd::prelude::*;

verus! {

/// Number of milliseconds in a second.
pub const MS_PER_S: u64 = 1_000;

/// Number of microseconds in a second.
pub const US_PER_S: u64 = 1_000_000;

/// Whole seconds elapsed after `cycles` ticks at `clock` ticks per second.
pub open spec fn seconds_of(clock: nat, cycles: nat) -> nat
    recommends
        clock > 0,
{
    cycles / clock
}

/// Whole milliseconds elapsed after `cycles` ticks at `clock` ticks per second.
pub open spec fn millis_of(clock: nat, cycles: nat) -> nat
    recommends
        clock > 0,
{
    (cycles * 1_000) / clock
}

/// Whole microseconds elapsed after `cycles` ticks at `clock` ticks per second.
pub open spec fn micros_of(clock: nat, cycles: nat) -> nat
    recommends
        clock > 0,
{
    (cycles * 1_000_000) / clock
}

/// For one counter value, the three units agree: the millisecond reading is the
/// microsecond reading in whole thousands, and the second reading is the
/// millisecond reading in whole thousands.
pub proof fn lemma_units_agree(clock: nat, cycles: nat)
    requires
        clock > 0,
    ensures
        micros_of(clock, cycles) / 1_000 == millis_of(clock, cycles),
        millis_of(clock, cycles) / 1_000 == seconds_of(clock, cycles),
{
    let c = cycles as int;
    let f = clock as int;
    lemma_div_denominator(c * 1_000_000, f, 1_000);
    lemma_div_multiples_vanish_quotient(1_000, c * 1_000, f);
    assert(c * 1_000_000 == 1_000 * (c * 1_000)) by (nonlinear_arith);
    assert(f * 1_000 == 1_000 * f) by (nonlinear_arith);
    lemma_div_denominator(c * 1_000, f, 1_000);
    lemma_div_multiples_vanish_quotient(1_000, c, f);
    assert(c * 1_000 == 1_000 * c) by (nonlinear_arith);
}

/// Relies on cortex_m's `DWT::cycle_count`, a read of the DWT cycle counter
/// register. The value depends on the moment of the read; nothing more is known.
#[verifier::external_body]
fn read_cycle_count() -> (r: u32) {
    cortex_m::peripheral::DWT::cycle_count()
}

/// Elapsed time since device start, derived from the cycle counter (which is
/// assumed to be running) and the frequency at which it counts.
#[derive(Clone, Copy, Debug)]
pub struct SmartTimer {
    /// Counting frequency, in ticks per second (Hz).
    pub clock: u32,
}

impl SmartTimer {
    /// A timer is usable when its counting frequency is not zero.
    pub open spec fn wf(&self) -> bool {
        self.clock > 0
    }

    pub fn new(clock: u32) -> (r: SmartTimer)
        requires
            clock > 0,
        ensures
            r.clock == clock,
            r.wf(),
    {
        SmartTimer { clock }
    }

    /// Current raw value of the cycle counter.
    pub fn now_cycles(&self) -> (r: u32) {
        read_cycle_count()
    }

    /// Whole seconds represented by the counter value `cycles`.
    pub fn seconds_at(&self, cycles: u32) -> (r: u64)
        requires
            self.wf(),
        ensures
            r == seconds_of(self.clock as nat, cycles as nat),
    {
        (cycles / self.clock) as u64
    }

    /// Whole milliseconds represented by the counter value `cycles`.
    pub fn millis_at(&self, cycles: u32) -> (r: u64)
        requires
            self.wf(),
        ensures
            r == millis_of(self.clock as nat, cycles as nat),
    {
        assert(cycles as u64 * MS_PER_S <= 0xffff_ffff * 1_000) by (nonlinear_arith);
        let scaled: u64 = cycles as u64 * MS_PER_S;
        scaled / self.clock as u64
    }

    /// Whole microseconds represented by the counter value `cycles`.
    pub fn micros_at(&self, cycles: u32) -> (r: u64)
        requires
            self.wf(),
        ensures
            r == micros_of(self.clock as nat, cycles as nat),
    {
        assert(cycles as u64 * US_PER_S <= 0xffff_ffff * 1_000_000) by (nonlinear_arith);
        let scaled: u64 = cycles as u64 * US_PER_S;
        scaled / self.clock as u64
    }

    /// Whole seconds elapsed since device start, at the moment of the call.
    pub fn now_s(&self) -> (r: u64)
        requires
            self.wf(),
        ensures
            exists|c: u32| r == seconds_of(self.clock as nat, c as nat),
    {
        let c = read_cycle_count();
        self.seconds_at(c)
    }

    /// Whole milliseconds elapsed since device start, at the moment of the call.
    pub fn now_ms(&self) -> (r: u64)
        requires
            self.wf(),
        ensures
            exists|c: u32| r == millis_of(self.clock as nat, c as nat),
    {
        let c = read_cycle_count();
        self.millis_at(c)
    }

    /// Whole microseconds elapsed since device start, at the moment of the call.
    pub fn now_us(&self) -> (r: u64)
        requires
            self.wf(),
        ensures
            exists|c: u32| r == micros_of(self.clock as nat, c as nat),
    {
        let c = read_cycle_count();
        self.micros_at(c)
    }
}

} // verus!
