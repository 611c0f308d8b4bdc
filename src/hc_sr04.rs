//! The HC-SR04 measurement cycle: trigger, wait for the echo to fall, compute
//! the distance, deliver it.
//!
//! The driver decides; it does not touch the pins. On each poll the caller
//! hands it what it observed (the echo line and the cycle counter) and sends
//! the trigger pulse when the driver is idle.
use crate::smart_timer::{SmartTimer, US_PER_S};
use vstd::arithmetic::div_mod::lemma_div_by_multiple;
use vstd::prelude::*;

verus! {

/// Half the speed of sound in air (340.29 m/s), in micrometres per second:
/// the echo covers the distance twice.
pub const HALF_SPEED_OF_SOUND_UM_PER_S: u64 = 170_145_000;

/// Longest round trip the sensor reports, in milliseconds. A wait longer than
/// this has no echo to come.
pub const ECHO_TIMEOUT_MS: u64 = 36;

/// Width of the trigger pulse, in microseconds.
pub const TRIGGER_PULSE_US: u64 = 10;

/// Number of values of the 32-bit cycle counter.
pub open spec fn counter_period() -> nat {
    0x1_0000_0000
}

/// Cycles from `start` to `now` on the 32-bit counter, across at most one wrap.
pub open spec fn elapsed_cycles(start: u32, now: u32) -> nat {
    if now >= start {
        (now - start) as nat
    } else {
        (now + counter_period() - start) as nat
    }
}

/// A wait of `elapsed` cycles at `clock` Hz lasts longer than the echo timeout.
pub open spec fn timed_out(clock: nat, elapsed: nat) -> bool {
    elapsed * 1_000 > ECHO_TIMEOUT_MS * clock
}

/// One-way distance in whole micrometres for a round trip of `elapsed` cycles
/// at `clock` Hz: elapsed seconds times half the speed of sound.
pub open spec fn distance_um_of(clock: nat, elapsed: nat) -> nat
    recommends
        clock > 0,
{
    (elapsed * (HALF_SPEED_OF_SOUND_UM_PER_S as nat)) / clock
}

/// Cycles in a trigger pulse at `clock` Hz.
pub open spec fn trigger_pulse_cycles_of(clock: nat) -> nat {
    (clock * (TRIGGER_PULSE_US as nat)) / (US_PER_S as nat)
}

/// A measured one-way distance.
#[derive(Clone, Copy, Debug, PartialEq, Eq, Structural)]
pub struct Distance {
    /// The distance in micrometres.
    pub micrometers: u64,
}

impl Distance {
    /// The distance in micrometres.
    pub fn um(&self) -> (r: u64)
        ensures
            r == self.micrometers,
    {
        self.micrometers
    }

    /// The distance in whole millimetres.
    pub fn mm(&self) -> (r: u64)
        ensures
            r == self.micrometers / 1_000,
    {
        self.micrometers / 1_000
    }

    /// The distance in whole centimetres.
    pub fn cm(&self) -> (r: u64)
        ensures
            r == self.micrometers / 10_000,
    {
        self.micrometers / 10_000
    }
}

/// The echo line as read on one poll.
#[derive(Clone, Copy, Debug, PartialEq, Eq, Structural)]
pub enum Echo {
    /// The echo pulse is still on: the sound has not come back.
    High,
    /// The echo pulse has ended.
    Low,
    /// The line could not be read.
    ReadFailed,
}

/// Where the sensor stands in its measurement cycle.
#[derive(Clone, Copy, Debug, PartialEq, Eq, Structural)]
pub enum State {
    /// Ready to start a new measurement.
    Idle,
    /// Triggered at the given counter value; the echo has not ended yet.
    Waiting(u32),
    /// The echo has ended; the distance waits to be delivered.
    Ready(Distance),
}

/// What one poll reports.
#[derive(Clone, Copy, Debug, PartialEq, Eq, Structural)]
pub enum Reading {
    /// No result on this poll.
    NotReady,
    /// A completed measurement.
    Measured(Distance),
    /// The echo did not end in time; the measurement was abandoned.
    TimedOut,
}

/// One poll of the sensor in state `s`, at `clock` Hz, with the echo line read
/// as `echo` and then the counter read as `now`: the next state and the report.
pub open spec fn step(clock: nat, s: State, echo: Echo, now: u32) -> (State, Reading) {
    match s {
        State::Idle => (State::Waiting(now), Reading::NotReady),
        State::Waiting(start) => {
            let elapsed = elapsed_cycles(start, now);
            if timed_out(clock, elapsed) {
                (State::Idle, Reading::TimedOut)
            } else if echo == Echo::Low {
                (
                    State::Ready(Distance { micrometers: distance_um_of(clock, elapsed) as u64 }),
                    Reading::NotReady,
                )
            } else {
                (s, Reading::NotReady)
            }
        },
        State::Ready(d) => (State::Idle, Reading::Measured(d)),
    }
}

/// Driver state of one HC-SR04 sensor, timed by a shared clock.
pub struct HcSr04<'a> {
    mode: State,
    timer: &'a SmartTimer,
    echo_faults: u64,
}

impl<'a> HcSr04<'a> {
    /// The current state of the measurement cycle.
    pub closed spec fn spec_mode(&self) -> State {
        self.mode
    }

    /// The counting frequency of the clock the driver reads.
    pub closed spec fn spec_clock(&self) -> nat {
        self.timer.clock as nat
    }

    /// Number of failed echo reads so far (saturating).
    pub closed spec fn spec_echo_faults(&self) -> nat {
        self.echo_faults as nat
    }

    /// The driver reads a usable clock.
    pub closed spec fn wf(&self) -> bool {
        self.timer.wf()
    }

    /// A driver in the idle state. The caller drives the trigger line low.
    pub fn new(timer: &'a SmartTimer) -> (r: HcSr04<'a>)
        requires
            timer.wf(),
        ensures
            r.wf(),
            r.spec_mode() == State::Idle,
            r.spec_clock() == timer.clock,
            r.spec_echo_faults() == 0,
    {
        HcSr04 { mode: State::Idle, timer, echo_faults: 0 }
    }

    /// The current state of the measurement cycle.
    pub fn state(&self) -> (r: State)
        ensures
            r == self.spec_mode(),
    {
        self.mode
    }

    /// Whether the next poll starts a measurement, so that the caller must send
    /// the trigger pulse before reading the counter for it.
    pub fn needs_trigger(&self) -> (r: bool)
        ensures
            r == (self.spec_mode() == State::Idle),
    {
        match self.mode {
            State::Idle => true,
            _ => false,
        }
    }

    /// Number of failed echo reads so far, saturating at `u64::MAX`.
    pub fn echo_faults(&self) -> (r: u64)
        ensures
            r == self.spec_echo_faults(),
    {
        self.echo_faults
    }

    /// Length of the trigger pulse in counter cycles.
    pub fn trigger_pulse_cycles(&self) -> (r: u32)
        requires
            self.wf(),
        ensures
            r == trigger_pulse_cycles_of(self.spec_clock()),
    {
        let c: u64 = self.timer.clock as u64;
        (c * TRIGGER_PULSE_US / US_PER_S) as u32
    }

    /// Counter cycles from `start` to `now`, across at most one wrap.
    fn cycles_between(start: u32, now: u32) -> (r: u32)
        ensures
            r == elapsed_cycles(start, now),
    {
        if now >= start {
            now - start
        } else {
            (u32::MAX - start) + now + 1
        }
    }

    /// Whether a wait of `elapsed` cycles exceeds the echo timeout.
    fn is_timed_out(&self, elapsed: u32) -> (r: bool)
        requires
            self.wf(),
        ensures
            r == timed_out(self.spec_clock(), elapsed as nat),
    {
        elapsed as u64 * 1_000 > ECHO_TIMEOUT_MS * self.timer.clock as u64
    }

    /// The distance for a round trip of `elapsed` cycles.
    fn distance_for(&self, elapsed: u32) -> (r: Distance)
        requires
            self.wf(),
        ensures
            r.micrometers == distance_um_of(self.spec_clock(), elapsed as nat),
    {
        let clock: u64 = self.timer.clock as u64;
        assert(elapsed as u64 * HALF_SPEED_OF_SOUND_UM_PER_S <= 0xffff_ffff * 170_145_000)
            by (nonlinear_arith);
        let scaled: u64 = elapsed as u64 * HALF_SPEED_OF_SOUND_UM_PER_S;
        Distance { micrometers: scaled / clock }
    }

    /// Polls the sensor once and advances the measurement cycle.
    ///
    /// `echo` is the echo line as read on this poll and `now` the cycle counter
    /// read after it. When idle the caller has just sent the trigger pulse: the
    /// driver starts waiting at `now`. While waiting, a wait longer than the
    /// echo timeout is abandoned and reported; otherwise a low echo completes the
    /// measurement, and a high or unreadable one leaves the wait as it is (a
    /// failed read is counted). When a distance is ready it is delivered and
    /// the driver becomes idle. Only that poll, and a timeout, report anything.
    pub fn wait_distance(&mut self, echo: Echo, now: u32) -> (r: Reading)
        requires
            old(self).wf(),
        ensures
            final(self).wf(),
            final(self).spec_clock() == old(self).spec_clock(),
            (final(self).spec_mode(), r) == step(old(self).spec_clock(), old(self).spec_mode(), echo, now),
            final(self).spec_echo_faults() == if old(self).spec_mode() is Waiting && r == Reading::NotReady
                && echo == Echo::ReadFailed && old(self).spec_echo_faults() < u64::MAX {
                old(self).spec_echo_faults() + 1
            } else {
                old(self).spec_echo_faults()
            },
    {
        match self.mode {
            State::Idle => {
                self.mode = State::Waiting(now);
                Reading::NotReady
            },
            State::Waiting(start) => {
                let elapsed = Self::cycles_between(start, now);
                if self.is_timed_out(elapsed) {
                    self.mode = State::Idle;
                    Reading::TimedOut
                } else {
                    match echo {
                        Echo::Low => {
                            self.mode = State::Ready(self.distance_for(elapsed));
                        },
                        Echo::High => {},
                        Echo::ReadFailed => {
                            self.echo_faults = self.echo_faults.saturating_add(1);
                        },
                    }
                    Reading::NotReady
                }
            },
            State::Ready(d) => {
                self.mode = State::Idle;
                Reading::Measured(d)
            },
        }
    }
}

/// The reports and states of successive polls from state `s`: entry `i` holds
/// the state after poll `i` and what that poll reported. Each input is the echo
/// line and the counter value of one poll.
pub open spec fn run(clock: nat, s: State, inputs: Seq<(Echo, u32)>) -> Seq<(State, Reading)>
    decreases inputs.len(),
{
    if inputs.len() == 0 {
        seq![]
    } else {
        let (next, r) = step(clock, s, inputs[0].0, inputs[0].1);
        seq![(next, r)] + run(clock, next, inputs.drop_first())
    }
}

/// While waiting since `start`, polls whose echo is not low and that come
/// before the timeout leave the driver waiting and report nothing; a following
/// poll with a low echo before the timeout makes the distance ready, and the
/// poll after that delivers it and leaves the driver idle.
proof fn lemma_wait_then_deliver(clock: nat, start: u32, inputs: Seq<(Echo, u32)>, n: nat)
    requires
        clock > 0,
        inputs.len() == n + 2,
        forall|i: int|
            0 <= i < n ==> inputs[i].0 != Echo::Low && !timed_out(
                clock,
                elapsed_cycles(start, #[trigger] inputs[i].1),
            ),
        inputs[n as int].0 == Echo::Low,
        !timed_out(clock, elapsed_cycles(start, inputs[n as int].1)),
    ensures
        ({
            let trace = run(clock, State::Waiting(start), inputs);
            let d = Distance {
                micrometers: distance_um_of(clock, elapsed_cycles(start, inputs[n as int].1)) as u64,
            };
            &&& trace.len() == n + 2
            &&& forall|i: int| 0 <= i < n ==> #[trigger] trace[i] == (State::Waiting(start), Reading::NotReady)
            &&& trace[n as int] == (State::Ready(d), Reading::NotReady)
            &&& trace[n as int + 1] == (State::Idle, Reading::Measured(d))
        }),
    decreases n,
{
    let rest = inputs.drop_first();
    let trace = run(clock, State::Waiting(start), inputs);
    if n == 0 {
        let tail = run(clock, step(clock, State::Waiting(start), inputs[0].0, inputs[0].1).0, rest);
        assert(run(clock, State::Idle, rest.drop_first()) =~= seq![]);
        assert(tail.len() == 1);
    } else {
        assert(inputs[0].0 != Echo::Low && !timed_out(clock, elapsed_cycles(start, inputs[0].1)));
        assert forall|i: int| 0 <= i < n - 1 implies rest[i].0 != Echo::Low && !timed_out(
            clock,
            elapsed_cycles(start, #[trigger] rest[i].1),
        ) by {
            assert(rest[i] == inputs[i + 1]);
            assert(!timed_out(clock, elapsed_cycles(start, inputs[i + 1].1)));
        }
        lemma_wait_then_deliver(clock, start, rest, (n - 1) as nat);
        let tail = run(clock, State::Waiting(start), rest);
        assert(trace == seq![(State::Waiting(start), Reading::NotReady)] + tail);
        assert forall|i: int| 0 <= i < n implies #[trigger] trace[i] == (State::Waiting(start), Reading::NotReady) by {
            if i > 0 {
                assert(trace[i] == tail[i - 1]);
            }
        }
    }
}

/// One full measurement cycle. From idle, the first poll starts waiting at its
/// counter value `t0`; polls with an echo that is not low before the timeout
/// keep waiting; the first poll with a low echo before the timeout makes the
/// distance for its counter value ready; the next poll delivers that distance
/// and leaves the driver idle. Every poll but the last reports nothing.
pub proof fn lemma_full_cycle(clock: nat, inputs: Seq<(Echo, u32)>, n: nat)
    requires
        clock > 0,
        inputs.len() == n + 3,
        forall|i: int|
            1 <= i <= n ==> inputs[i].0 != Echo::Low && !timed_out(
                clock,
                elapsed_cycles(inputs[0].1, #[trigger] inputs[i].1),
            ),
        inputs[n as int + 1].0 == Echo::Low,
        !timed_out(clock, elapsed_cycles(inputs[0].1, inputs[n as int + 1].1)),
    ensures
        ({
            let t0 = inputs[0].1;
            let trace = run(clock, State::Idle, inputs);
            let d = Distance { micrometers: distance_um_of(clock, elapsed_cycles(t0, inputs[n as int + 1].1)) as u64 };
            &&& trace.len() == n + 3
            &&& forall|i: int| 0 <= i <= n ==> #[trigger] trace[i] == (State::Waiting(t0), Reading::NotReady)
            &&& trace[n as int + 1] == (State::Ready(d), Reading::NotReady)
            &&& trace[n as int + 2] == (State::Idle, Reading::Measured(d))
        }),
{
    let t0 = inputs[0].1;
    let rest = inputs.drop_first();
    assert forall|i: int| 0 <= i < n implies rest[i].0 != Echo::Low && !timed_out(
        clock,
        elapsed_cycles(t0, #[trigger] rest[i].1),
    ) by {
        assert(rest[i] == inputs[i + 1]);
        assert(!timed_out(clock, elapsed_cycles(t0, inputs[i + 1].1)));
    }
    lemma_wait_then_deliver(clock, t0, rest, n);
    let trace = run(clock, State::Idle, inputs);
    let tail = run(clock, State::Waiting(t0), rest);
    assert(trace == seq![(State::Waiting(t0), Reading::NotReady)] + tail);
    assert forall|i: int| 0 <= i <= n implies #[trigger] trace[i] == (State::Waiting(t0), Reading::NotReady) by {
        if i > 0 {
            assert(trace[i] == tail[i - 1]);
        }
    }
}

/// Failed echo reads while waiting, before the timeout, never change the state
/// and never report anything, however many there are.
pub proof fn lemma_read_failures_keep_waiting(clock: nat, start: u32, nows: Seq<u32>)
    requires
        forall|i: int| 0 <= i < nows.len() ==> !timed_out(clock, elapsed_cycles(start, #[trigger] nows[i])),
    ensures
        ({
            let trace = run(clock, State::Waiting(start), nows.map_values(|t: u32| (Echo::ReadFailed, t)));
            &&& trace.len() == nows.len()
            &&& forall|i: int| 0 <= i < nows.len() ==> #[trigger] trace[i] == (State::Waiting(start), Reading::NotReady)
        }),
    decreases nows.len(),
{
    let inputs = nows.map_values(|t: u32| (Echo::ReadFailed, t));
    let trace = run(clock, State::Waiting(start), inputs);
    if nows.len() > 0 {
        let rest = nows.drop_first();
        assert forall|i: int| 0 <= i < rest.len() implies !timed_out(clock, elapsed_cycles(start, #[trigger] rest[i])) by {
            assert(rest[i] == nows[i + 1]);
        }
        lemma_read_failures_keep_waiting(clock, start, rest);
        assert(inputs.drop_first() =~= rest.map_values(|t: u32| (Echo::ReadFailed, t)));
        let tail = run(clock, State::Waiting(start), inputs.drop_first());
        assert(!timed_out(clock, elapsed_cycles(start, nows[0])));
        assert(trace == seq![(State::Waiting(start), Reading::NotReady)] + tail);
        assert forall|i: int| 0 <= i < nows.len() implies #[trigger] trace[i] == (State::Waiting(start), Reading::NotReady) by {
            if i > 0 {
                assert(trace[i] == tail[i - 1]);
            }
        }
    }
}

/// A wait older than the echo timeout ends on the next poll, whatever the echo
/// line shows: the driver becomes idle and reports the timeout.
pub proof fn lemma_timeout_resets(clock: nat, start: u32, echo: Echo, now: u32)
    requires
        timed_out(clock, elapsed_cycles(start, now)),
    ensures
        step(clock, State::Waiting(start), echo, now) == (State::Idle, Reading::TimedOut),
{
}

/// With a clock of a whole number of kHz, an echo that ends `delta_ms`
/// milliseconds after the trigger, within the echo timeout, gives a distance of
/// exactly `delta_ms` times 170 145 micrometres.
pub proof fn lemma_distance_of_delay(clock: nat, start: u32, now: u32, delta_ms: nat)
    requires
        clock > 0,
        clock % 1_000 == 0,
        delta_ms <= ECHO_TIMEOUT_MS,
        elapsed_cycles(start, now) == delta_ms * (clock / 1_000),
    ensures
        step(clock, State::Waiting(start), Echo::Low, now) == (
            State::Ready(Distance { micrometers: (delta_ms * 170_145) as u64 }),
            Reading::NotReady,
        ),
{
    let k = clock / 1_000;
    let e = elapsed_cycles(start, now);
    assert(clock == 1_000 * k);
    assert(e * 1_000 == delta_ms * clock) by (nonlinear_arith)
        requires
            e == delta_ms * k,
            clock == 1_000 * k,
    ;
    assert(delta_ms * clock <= ECHO_TIMEOUT_MS * clock) by (nonlinear_arith)
        requires
            delta_ms <= ECHO_TIMEOUT_MS,
    ;
    assert(e * 170_145_000 == (delta_ms * 170_145) * clock) by (nonlinear_arith)
        requires
            e == delta_ms * k,
            clock == 1_000 * k,
    ;
    lemma_div_by_multiple((delta_ms * 170_145) as int, clock as int);
    assert(delta_ms * 170_145 <= 36 * 170_145);
}

} // verus!
