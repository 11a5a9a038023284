//! Coin/item hopper driver.
//!
//! Each hopper is polled every millisecond with the current levels of its
//! coin and error sensors. A coin passing the sensor while the motor runs is
//! counted when the pulse length is valid; a dispenser fault is reported as
//! a train of error pulses whose count is the fault code.

use vstd::prelude::*;

use crate::config::{COIN_PULSE_MAX_MS, COIN_PULSE_MIN_MS, PAUSE_BETWEEN_ERROR_CODES_MS};
use crate::error::DispenserError;
use crate::state::Level;

verus! {

/// Command to the hopper task.
#[derive(Debug, Clone, Copy, PartialEq, Eq, Structural)]
pub enum HopperCmd {
    /// Pay out `count` coins from hopper `hopper`.
    Payout { hopper: u8, count: Level },
    /// Stop hopper `hopper`.
    Stop { hopper: u8 },
    /// Clear the fault of hopper `hopper`.
    ClearError { hopper: u8 },
}

/// Event reported by a hopper poll.
#[derive(Debug, Clone, Copy, PartialEq, Eq, Structural)]
pub enum HopperEvent {
    /// One coin left the hopper.
    CoinDispensed { hopper: u8 },
    /// The hopper reported a fault code.
    Error { hopper: u8, error: DispenserError },
    /// A coin pulse lasted too long.
    Timeout { hopper: u8 },
    /// Nothing happened.
    Quiet,
}

/// Phase of the hopper state machine.
#[derive(Debug, Clone, Copy, PartialEq, Eq, Structural)]
pub enum HopperState {
    Idle,
    Paying,
    ErrorLo,
    ErrorHi,
}

/// Static configuration of one hopper.
#[derive(Debug, Clone, Copy, PartialEq, Eq, Structural)]
pub struct HopperConfig {
    /// Hopper number (0 = A, 1 = B).
    pub id: u8,
    /// Hopper A counts coins even with the motor off and skips the motor
    /// pulse when its fault is cleared.
    pub is_hopper_a: bool,
    /// Largest number of coins of one payout request.
    pub max_payout: Level,
}

/// The plain values a hopper holds.
pub struct HopperView {
    pub config: HopperConfig,
    pub state: HopperState,
    pub error_pulse_count: u8,
    pub pulse_time: u64,
    pub coins_to_payout: Level,
    pub coins_dispensed: Level,
    pub motor_on: bool,
    pub coin_sensed: bool,
    pub error_sensed: bool,
}

/// The hopper `v` with the motor switched off.
pub open spec fn motor_off(v: HopperView) -> HopperView {
    HopperView { motor_on: false, ..v }
}

/// One poll of the hopper at time `now` (milliseconds): the next values and
/// the reported event.
///
/// - Idle: an active error sensor stops the motor and starts reading the
///   fault code; an active coin sensor while the motor runs (or on hopper
///   A) starts timing a coin pulse.
/// - Paying: when the coin sensor releases after 30..=300 ms one coin is
///   counted (the motor stops once the requested count is reached), except
///   on hopper A with its motor off: a coin that leaves it unasked is a
///   fault, reported as `Unknown`, and the hopper enters its error state
///   (ErrorLo, no error pulses counted) until the error is cleared; after
///   more than 300 ms the motor stops and a timeout is reported. An active
///   error sensor stops the motor and starts reading the fault code. A
///   release after less than 30 ms is contact bounce: no coin is counted
///   and the hopper waits for the next pulse (Idle).
/// - ErrorLo/ErrorHi: error pulses are counted; a pause of more than
///   400 ms before a pulse ends the train and reports the counted code.
pub open spec fn poll_step(v: HopperView, now: u64) -> (HopperView, HopperEvent) {
    match v.state {
        HopperState::Idle => {
            if v.error_sensed {
                (HopperView { state: HopperState::ErrorLo, ..motor_off(v) }, HopperEvent::Quiet)
            } else if v.coin_sensed && (v.config.is_hopper_a || v.motor_on) {
                (HopperView { pulse_time: now, state: HopperState::Paying, ..v }, HopperEvent::Quiet)
            } else {
                (v, HopperEvent::Quiet)
            }
        },
        HopperState::Paying => {
            let elapsed = now.wrapping_sub(v.pulse_time);
            if !v.coin_sensed && COIN_PULSE_MIN_MS <= elapsed <= COIN_PULSE_MAX_MS && v.config.is_hopper_a
                && !v.motor_on {
                (
                    HopperView { error_pulse_count: 0, state: HopperState::ErrorLo, ..v },
                    HopperEvent::Error { hopper: v.config.id, error: DispenserError::Unknown },
                )
            } else if !v.coin_sensed && COIN_PULSE_MIN_MS <= elapsed <= COIN_PULSE_MAX_MS {
                let dispensed = v.coins_dispensed + 1;
                let next = if dispensed >= v.coins_to_payout {
                    HopperView {
                        motor_on: false,
                        coins_to_payout: 0,
                        coins_dispensed: 0,
                        state: HopperState::Idle,
                        ..v
                    }
                } else {
                    HopperView { coins_dispensed: dispensed as i32, state: HopperState::Idle, ..v }
                };
                (next, HopperEvent::CoinDispensed { hopper: v.config.id })
            } else if !v.coin_sensed && elapsed > COIN_PULSE_MAX_MS {
                (
                    HopperView { state: HopperState::Idle, ..motor_off(v) },
                    HopperEvent::Timeout { hopper: v.config.id },
                )
            } else if v.error_sensed {
                (HopperView { state: HopperState::ErrorLo, ..motor_off(v) }, HopperEvent::Quiet)
            } else if !v.coin_sensed {
                (HopperView { state: HopperState::Idle, ..v }, HopperEvent::Quiet)
            } else {
                (v, HopperEvent::Quiet)
            }
        },
        HopperState::ErrorLo => {
            if !v.error_sensed {
                (HopperView { pulse_time: now, state: HopperState::ErrorHi, ..v }, HopperEvent::Quiet)
            } else {
                (v, HopperEvent::Quiet)
            }
        },
        HopperState::ErrorHi => {
            if v.error_sensed {
                let elapsed = now.wrapping_sub(v.pulse_time);
                if elapsed > PAUSE_BETWEEN_ERROR_CODES_MS && v.error_pulse_count > 0 {
                    (
                        HopperView { error_pulse_count: 1, state: HopperState::ErrorLo, ..v },
                        HopperEvent::Error {
                            hopper: v.config.id,
                            error: DispenserError::of_code(v.error_pulse_count),
                        },
                    )
                } else if elapsed > PAUSE_BETWEEN_ERROR_CODES_MS {
                    (
                        HopperView {
                            error_pulse_count: 1,
                            pulse_time: now,
                            state: HopperState::ErrorLo,
                            ..v
                        },
                        HopperEvent::Quiet,
                    )
                } else {
                    (
                        HopperView {
                            error_pulse_count: v.error_pulse_count.saturating_add(1),
                            pulse_time: now,
                            state: HopperState::ErrorLo,
                            ..v
                        },
                        HopperEvent::Quiet,
                    )
                }
            } else {
                (v, HopperEvent::Quiet)
            }
        },
    }
}

/// One hopper (motor plus coin and error sensors).
pub struct Hopper {
    config: HopperConfig,
    state: HopperState,
    error_pulse_count: u8,
    pulse_time: u64,
    coins_to_payout: Level,
    coins_dispensed: Level,
    motor_on: bool,
    coin_sensed: bool,
    error_sensed: bool,
}

impl View for Hopper {
    type V = HopperView;

    closed spec fn view(&self) -> HopperView {
        HopperView {
            config: self.config,
            state: self.state,
            error_pulse_count: self.error_pulse_count,
            pulse_time: self.pulse_time,
            coins_to_payout: self.coins_to_payout,
            coins_dispensed: self.coins_dispensed,
            motor_on: self.motor_on,
            coin_sensed: self.coin_sensed,
            error_sensed: self.error_sensed,
        }
    }
}

/// The payout counters stay consistent: the number of coins paid so far is
/// below the requested number, or zero.
pub open spec fn counters_ok(v: HopperView) -> bool {
    v.coins_dispensed >= 0 && (v.coins_dispensed < v.coins_to_payout || v.coins_dispensed == 0)
}

/// Busy-wait hint of the processor.
///
/// Trusted: calls `core::hint::spin_loop`, which only signals a spin-wait
/// to the processor; it has no effect on any value.
#[verifier::external_body]
fn spin_hint() {
    core::hint::spin_loop()
}

impl Hopper {
    #[verifier::type_invariant]
    spec fn wf(self) -> bool {
        counters_ok(self@)
    }

    /// A stopped, idle hopper with the given configuration.
    pub fn new(config: HopperConfig) -> (r: Hopper)
        ensures
            r@ == (HopperView {
                config,
                state: HopperState::Idle,
                error_pulse_count: 0,
                pulse_time: 0,
                coins_to_payout: 0,
                coins_dispensed: 0,
                motor_on: false,
                coin_sensed: false,
                error_sensed: false,
            }),
    {
        Hopper {
            config,
            state: HopperState::Idle,
            error_pulse_count: 0,
            pulse_time: 0,
            coins_to_payout: 0,
            coins_dispensed: 0,
            motor_on: false,
            coin_sensed: false,
            error_sensed: false,
        }
    }

    /// The configuration.
    pub fn config(&self) -> (r: HopperConfig)
        ensures
            r == self@.config,
    {
        self.config
    }

    /// Switches the motor on.
    pub fn start_payout(&mut self)
        ensures
            final(self)@ == (HopperView { motor_on: true, ..old(self)@ }),
    {
        proof {
            use_type_invariant(&*self);
        }
        self.motor_on = true;
    }

    /// Switches the motor off.
    pub fn stop_payout(&mut self)
        ensures
            final(self)@ == motor_off(old(self)@),
    {
        proof {
            use_type_invariant(&*self);
        }
        self.motor_on = false;
    }

    /// Clears a fault: the hopper returns to idle with no error pulses
    /// counted; hoppers other than A get a short motor pulse and end with
    /// the motor off, hopper A keeps its motor as it was.
    pub fn clear_error(&mut self)
        ensures
            final(self)@ == (HopperView {
                error_pulse_count: 0,
                state: HopperState::Idle,
                motor_on: if old(self)@.config.is_hopper_a {
                    old(self)@.motor_on
                } else {
                    false
                },
                ..old(self)@
            }),
    {
        proof {
            use_type_invariant(&*self);
        }
        self.error_pulse_count = 0;
        self.state = HopperState::Idle;
        if !self.config.is_hopper_a {
            self.start_payout();
            let mut i: u32 = 0;
            while i < 800
                invariant
                    i <= 800,
                decreases 800 - i,
            {
                spin_hint();
                i = i + 1;
            }
            self.stop_payout();
        }
    }

    /// Records the sensor levels for the next poll.
    pub fn update_sensors(&mut self, coin_sensed: bool, error_sensed: bool)
        ensures
            final(self)@ == (HopperView { coin_sensed, error_sensed, ..old(self)@ }),
    {
        proof {
            use_type_invariant(&*self);
        }
        self.coin_sensed = coin_sensed;
        self.error_sensed = error_sensed;
    }

    /// Polls the hopper at time `now` (milliseconds); see `poll_step`.
    pub fn poll(&mut self, now: u64) -> (r: HopperEvent)
        ensures
            final(self)@ == poll_step(old(self)@, now).0,
            r == poll_step(old(self)@, now).1,
    {
        proof {
            use_type_invariant(&*self);
        }
        match self.state {
            HopperState::Idle => {
                if self.error_sensed {
                    self.state = HopperState::ErrorLo;
                    self.stop_payout();
                    return HopperEvent::Quiet;
                }
                if self.coin_sensed && (self.config.is_hopper_a || self.motor_on) {
                    self.pulse_time = now;
                    self.state = HopperState::Paying;
                }
                HopperEvent::Quiet
            },
            HopperState::Paying => {
                if !self.coin_sensed {
                    let elapsed = now.wrapping_sub(self.pulse_time);
                    if COIN_PULSE_MIN_MS <= elapsed && elapsed <= COIN_PULSE_MAX_MS
                        && self.config.is_hopper_a && !self.motor_on {
                        self.error_pulse_count = 0;
                        self.state = HopperState::ErrorLo;
                        return HopperEvent::Error { hopper: self.config.id, error: DispenserError::Unknown };
                    } else if COIN_PULSE_MIN_MS <= elapsed && elapsed <= COIN_PULSE_MAX_MS {
                        if self.coins_dispensed + 1 >= self.coins_to_payout {
                            self.stop_payout();
                            self.coins_dispensed = 0;
                            self.coins_to_payout = 0;
                        } else {
                            self.coins_dispensed = self.coins_dispensed + 1;
                        }
                        self.state = HopperState::Idle;
                        return HopperEvent::CoinDispensed { hopper: self.config.id };
                    } else if elapsed > COIN_PULSE_MAX_MS {
                        self.stop_payout();
                        self.state = HopperState::Idle;
                        return HopperEvent::Timeout { hopper: self.config.id };
                    }
                }
                if self.error_sensed {
                    self.stop_payout();
                    self.state = HopperState::ErrorLo;
                } else if !self.coin_sensed {
                    self.state = HopperState::Idle;
                }
                HopperEvent::Quiet
            },
            HopperState::ErrorLo => {
                if !self.error_sensed {
                    self.pulse_time = now;
                    self.state = HopperState::ErrorHi;
                }
                HopperEvent::Quiet
            },
            HopperState::ErrorHi => {
                if self.error_sensed {
                    let elapsed = now.wrapping_sub(self.pulse_time);
                    if elapsed > PAUSE_BETWEEN_ERROR_CODES_MS {
                        if self.error_pulse_count > 0 {
                            let error_code = self.error_pulse_count;
                            self.error_pulse_count = 1;
                            self.state = HopperState::ErrorLo;
                            return HopperEvent::Error {
                                hopper: self.config.id,
                                error: DispenserError::from_code(error_code),
                            };
                        }
                        self.error_pulse_count = 1;
                    } else {
                        self.error_pulse_count = self.error_pulse_count.saturating_add(1);
                    }
                    self.pulse_time = now;
                    self.state = HopperState::ErrorLo;
                }
                HopperEvent::Quiet
            },
        }
    }

    /// Requests a payout of `count` coins (at most the configured maximum)
    /// and starts the motor.
    pub fn request_payout(&mut self, count: Level)
        ensures
            final(self)@ == (HopperView {
                coins_to_payout: if count < old(self)@.config.max_payout {
                    count
                } else {
                    old(self)@.config.max_payout
                },
                coins_dispensed: 0,
                motor_on: true,
                ..old(self)@
            }),
    {
        proof {
            use_type_invariant(&*self);
        }
        let limit = if count < self.config.max_payout {
            count
        } else {
            self.config.max_payout
        };
        self.coins_dispensed = 0;
        self.coins_to_payout = limit;
        self.start_payout();
    }

    /// The motor runs.
    pub fn is_paying(&self) -> (r: bool)
        ensures
            r == self@.motor_on,
    {
        self.motor_on
    }

    /// A fault code is being read.
    pub fn is_error(&self) -> (r: bool)
        ensures
            r == (self@.state == HopperState::ErrorLo || self@.state == HopperState::ErrorHi),
    {
        match self.state {
            HopperState::ErrorLo | HopperState::ErrorHi => true,
            _ => false,
        }
    }
}

/// Configuration of hopper A (item dispenser): id 0, at most 100 per request.
pub fn hopper_a_config() -> (r: HopperConfig)
    ensures
        r == (HopperConfig { id: 0, is_hopper_a: true, max_payout: 100 }),
{
    HopperConfig { id: 0, is_hopper_a: true, max_payout: 100 }
}

/// Configuration of hopper B (change): id 1, at most 50 per request.
pub fn hopper_b_config() -> (r: HopperConfig)
    ensures
        r == (HopperConfig { id: 1, is_hopper_a: false, max_payout: 50 }),
{
    HopperConfig { id: 1, is_hopper_a: false, max_payout: 50 }
}

/// One coin pulse seen by a hopper: the coin sensor is active at the poll
/// at `start` and released at the poll `d` ms later, the error sensor idle
/// throughout. The values after both polls and the two events.
pub open spec fn coin_pulse(v: HopperView, start: u64, d: u64) -> (HopperView, HopperEvent, HopperEvent) {
    let (v1, e1) = poll_step(HopperView { coin_sensed: true, error_sensed: false, ..v }, start);
    let (v2, e2) = poll_step(
        HopperView { coin_sensed: false, error_sensed: false, ..v1 },
        (start + d) as u64,
    );
    (v2, e1, e2)
}

/// Coin pulses starting at the times `starts`, the `i`-th lasting
/// `durs[i]` ms, one after another.
pub open spec fn coin_pulses(v: HopperView, starts: Seq<u64>, durs: Seq<u64>) -> HopperView
    decreases starts.len(),
{
    if starts.len() == 0 || durs.len() == 0 {
        v
    } else {
        coin_pulses(coin_pulse(v, starts[0], durs[0]).0, starts.drop_first(), durs.drop_first())
    }
}

/// A coin pulse of valid length (30..=300 ms) seen by an idle hopper whose
/// motor runs is counted exactly once: the first poll reports
/// nothing, the second reports one coin of this hopper. The hopper is idle
/// again; when the requested count is reached its motor stops and its
/// counters are reset, otherwise one more coin is counted.
pub proof fn lemma_valid_pulse_counts_one_coin(v: HopperView, start: u64, d: u64)
    requires
        v.state == HopperState::Idle,
        v.motor_on,
        COIN_PULSE_MIN_MS <= d <= COIN_PULSE_MAX_MS,
        start + d <= u64::MAX,
    ensures
        ({
            let (w, e1, e2) = coin_pulse(v, start, d);
            &&& e1 == HopperEvent::Quiet
            &&& e2 == (HopperEvent::CoinDispensed { hopper: v.config.id })
            &&& w.state == HopperState::Idle
            &&& w.config == v.config
            &&& if v.coins_dispensed + 1 >= v.coins_to_payout {
                &&& !w.motor_on
                &&& w.coins_to_payout == 0
                &&& w.coins_dispensed == 0
            } else {
                &&& w.motor_on == v.motor_on
                &&& w.coins_to_payout == v.coins_to_payout
                &&& w.coins_dispensed == v.coins_dispensed + 1
            }
        }),
{
    let t1 = (start + d) as u64;
    assert(t1.wrapping_sub(start) == d);
}

/// A pulse shorter than 30 ms seen by an idle hopper whose motor runs (or
/// hopper A) is contact bounce: neither poll reports anything, no coin is
/// counted, and the hopper is idle again with its payout unchanged, so a
/// later poll with both sensors idle reports nothing either.
pub proof fn lemma_bounce_counts_no_coin(v: HopperView, start: u64, d: u64, later: u64)
    requires
        v.state == HopperState::Idle,
        v.motor_on || v.config.is_hopper_a,
        d < COIN_PULSE_MIN_MS,
        start + d <= u64::MAX,
    ensures
        ({
            let (w, e1, e2) = coin_pulse(v, start, d);
            &&& e1 == HopperEvent::Quiet
            &&& e2 == HopperEvent::Quiet
            &&& w.state == HopperState::Idle
            &&& w.motor_on == v.motor_on
            &&& w.coins_to_payout == v.coins_to_payout
            &&& w.coins_dispensed == v.coins_dispensed
            &&& poll_step(w, later).1 == HopperEvent::Quiet
        }),
{
    let t1 = (start + d) as u64;
    assert(t1.wrapping_sub(start) == d);
}

/// A payout request of `n` coins keeps the motor running for exactly `n`
/// valid coin pulses, whatever their lengths within 30..=300 ms: after
/// fewer the motor runs and the pulses are counted, after the `n`-th it
/// has stopped and the counters are reset.
pub proof fn lemma_payout_stops_after_count(v: HopperView, starts: Seq<u64>, durs: Seq<u64>)
    requires
        v.state == HopperState::Idle,
        v.motor_on,
        0 <= v.coins_dispensed < v.coins_to_payout,
        starts.len() == durs.len(),
        v.coins_dispensed + starts.len() <= v.coins_to_payout,
        forall|i: int| 0 <= i < durs.len() ==> COIN_PULSE_MIN_MS <= #[trigger] durs[i] <= COIN_PULSE_MAX_MS,
        forall|i: int| 0 <= i < starts.len() ==> starts[i] + durs[i] <= u64::MAX,
    ensures
        ({
            let w = coin_pulses(v, starts, durs);
            &&& w.state == HopperState::Idle
            &&& w.config == v.config
            &&& if v.coins_dispensed + starts.len() < v.coins_to_payout {
                &&& w.motor_on
                &&& w.coins_to_payout == v.coins_to_payout
                &&& w.coins_dispensed == v.coins_dispensed + starts.len()
            } else {
                &&& !w.motor_on
                &&& w.coins_to_payout == 0
                &&& w.coins_dispensed == 0
            }
        }),
    decreases starts.len(),
{
    if starts.len() > 0 {
        assert(COIN_PULSE_MIN_MS <= durs[0] <= COIN_PULSE_MAX_MS);
        lemma_valid_pulse_counts_one_coin(v, starts[0], durs[0]);
        let w1 = coin_pulse(v, starts[0], durs[0]).0;
        assert(coin_pulses(v, starts, durs) == coin_pulses(w1, starts.drop_first(), durs.drop_first()));
        if v.coins_dispensed + 1 < v.coins_to_payout {
            assert forall|i: int| 0 <= i < durs.drop_first().len() implies COIN_PULSE_MIN_MS
                <= #[trigger] durs.drop_first()[i] <= COIN_PULSE_MAX_MS by {
                assert(durs.drop_first()[i] == durs[i + 1]);
            }
            assert forall|i: int| 0 <= i < starts.drop_first().len() implies starts.drop_first()[i]
                + durs.drop_first()[i] <= u64::MAX by {
                assert(starts.drop_first()[i] == starts[i + 1]);
                assert(durs.drop_first()[i] == durs[i + 1]);
            }
            lemma_payout_stops_after_count(w1, starts.drop_first(), durs.drop_first());
        } else {
            assert(starts.len() == 1);
            assert(starts.drop_first().len() == 0);
            assert(coin_pulses(w1, starts.drop_first(), durs.drop_first()) == w1);
        }
    }
}

/// On hopper A, a coin of valid length that leaves while the motor is off
/// is a fault: the release reports an `Unknown` error of hopper A and the
/// hopper enters its error state with no error pulses counted.
pub proof fn lemma_unasked_coin_is_a_fault(v: HopperView, start: u64, d: u64)
    requires
        v.state == HopperState::Idle,
        v.config.is_hopper_a,
        !v.motor_on,
        COIN_PULSE_MIN_MS <= d <= COIN_PULSE_MAX_MS,
        start + d <= u64::MAX,
    ensures
        ({
            let (w, e1, e2) = coin_pulse(v, start, d);
            &&& e1 == HopperEvent::Quiet
            &&& e2 == (HopperEvent::Error { hopper: v.config.id, error: DispenserError::Unknown })
            &&& w.state == HopperState::ErrorLo
            &&& !w.motor_on
            &&& w.error_pulse_count == 0
        }),
{
    let t1 = (start + d) as u64;
    assert(t1.wrapping_sub(start) == d);
}

/// One error pulse seen by a hopper reading a fault code: the error sensor
/// is released at the poll at `start` and active again at the poll `d` ms
/// later, the coin sensor idle throughout. The values after both polls and
/// the event of the second poll.
pub open spec fn error_pulse(v: HopperView, start: u64, d: u64) -> (HopperView, HopperEvent) {
    let v1 = poll_step(HopperView { coin_sensed: false, error_sensed: false, ..v }, start).0;
    poll_step(HopperView { coin_sensed: false, error_sensed: true, ..v1 }, (start + d) as u64)
}

/// Error pulses starting at the times `starts`, each `d` ms long.
pub open spec fn error_pulses(v: HopperView, starts: Seq<u64>, d: u64) -> HopperView
    decreases starts.len(),
{
    if starts.len() == 0 {
        v
    } else {
        error_pulses(error_pulse(v, starts[0], d).0, starts.drop_first(), d)
    }
}

/// A dispenser fault is read as a pulse train whose length is the fault
/// code: while a code is read, each pulse that follows the previous one
/// within 400 ms adds one to the count, and the first pulse after a pause
/// of more than 400 ms reports the counted code (as a dispenser fault of
/// this hopper) and starts a new count.
pub proof fn lemma_error_code_is_pulse_count(
    v: HopperView,
    starts: Seq<u64>,
    d: u64,
    t: u64,
    pause: u64,
)
    requires
        v.state == HopperState::ErrorLo,
        v.error_pulse_count as int + starts.len() <= 255,
        d <= PAUSE_BETWEEN_ERROR_CODES_MS,
        forall|i: int| 0 <= i < starts.len() ==> starts[i] + d <= u64::MAX,
        pause > PAUSE_BETWEEN_ERROR_CODES_MS,
        t + pause <= u64::MAX,
    ensures
        ({
            let w = error_pulses(v, starts, d);
            let k = v.error_pulse_count + starts.len();
            &&& w.state == HopperState::ErrorLo
            &&& w.error_pulse_count == k
            &&& w.config == v.config
            &&& k > 0 ==> error_pulse(w, t, pause) == (
                HopperView {
                    coin_sensed: false,
                    error_sensed: true,
                    error_pulse_count: 1,
                    state: HopperState::ErrorLo,
                    pulse_time: t,
                    ..w
                },
                HopperEvent::Error {
                    hopper: v.config.id,
                    error: DispenserError::of_code(k as u8),
                },
            )
        }),
    decreases starts.len(),
{
    if starts.len() > 0 {
        let t0 = starts[0];
        let t1 = (t0 + d) as u64;
        assert(t1.wrapping_sub(t0) == d);
        let w1 = error_pulse(v, t0, d).0;
        assert(w1.error_pulse_count == v.error_pulse_count + 1);
        assert forall|i: int| 0 <= i < starts.drop_first().len() implies starts.drop_first()[i] + d
            <= u64::MAX by {
            assert(starts.drop_first()[i] == starts[i + 1]);
        }
        lemma_error_code_is_pulse_count(w1, starts.drop_first(), d, t, pause);
        assert(error_pulses(v, starts, d) == error_pulses(w1, starts.drop_first(), d));
    }
    let t2 = (t + pause) as u64;
    assert(t2.wrapping_sub(t) == pause);
}

/// A command to the hopper task: payout, stop or fault clearing for the
/// hopper it names; a command naming no hopper of the pair is ignored.
pub fn apply_hopper_cmd(a: &mut Hopper, b: &mut Hopper, cmd: HopperCmd)
    ensures
        match cmd {
            HopperCmd::Payout { hopper, count } => if hopper == 0 {
                final(b)@ == old(b)@ && final(a)@ == (HopperView {
                    coins_to_payout: if count < old(a)@.config.max_payout {
                        count
                    } else {
                        old(a)@.config.max_payout
                    },
                    coins_dispensed: 0,
                    motor_on: true,
                    ..old(a)@
                })
            } else if hopper == 1 {
                final(a)@ == old(a)@ && final(b)@ == (HopperView {
                    coins_to_payout: if count < old(b)@.config.max_payout {
                        count
                    } else {
                        old(b)@.config.max_payout
                    },
                    coins_dispensed: 0,
                    motor_on: true,
                    ..old(b)@
                })
            } else {
                final(a)@ == old(a)@ && final(b)@ == old(b)@
            },
            HopperCmd::Stop { hopper } => if hopper == 0 {
                final(b)@ == old(b)@ && final(a)@ == motor_off(old(a)@)
            } else if hopper == 1 {
                final(a)@ == old(a)@ && final(b)@ == motor_off(old(b)@)
            } else {
                final(a)@ == old(a)@ && final(b)@ == old(b)@
            },
            HopperCmd::ClearError { hopper } => if hopper == 0 {
                final(b)@ == old(b)@ && final(a)@ == (HopperView {
                    error_pulse_count: 0,
                    state: HopperState::Idle,
                    motor_on: if old(a)@.config.is_hopper_a {
                        old(a)@.motor_on
                    } else {
                        false
                    },
                    ..old(a)@
                })
            } else if hopper == 1 {
                final(a)@ == old(a)@ && final(b)@ == (HopperView {
                    error_pulse_count: 0,
                    state: HopperState::Idle,
                    motor_on: if old(b)@.config.is_hopper_a {
                        old(b)@.motor_on
                    } else {
                        false
                    },
                    ..old(b)@
                })
            } else {
                final(a)@ == old(a)@ && final(b)@ == old(b)@
            },
        },
{
    match cmd {
        HopperCmd::Payout { hopper, count } => {
            if hopper == 0 {
                a.request_payout(count);
            } else if hopper == 1 {
                b.request_payout(count);
            }
        },
        HopperCmd::Stop { hopper } => {
            if hopper == 0 {
                a.stop_payout();
            } else if hopper == 1 {
                b.stop_payout();
            }
        },
        HopperCmd::ClearError { hopper } => {
            if hopper == 0 {
                a.clear_error();
            } else if hopper == 1 {
                b.clear_error();
            }
        },
    }
}

/// One poll of both hoppers at `now` with the sensor levels read for
/// each (coin, error): the events other than `Quiet`, hopper A's first.
pub fn poll_hoppers(
    a: &mut Hopper,
    b: &mut Hopper,
    now: u64,
    sensors_a: (bool, bool),
    sensors_b: (bool, bool),
) -> (r: Vec<HopperEvent>)
    ensures
        ({
            let (na, ea) = poll_step(
                HopperView { coin_sensed: sensors_a.0, error_sensed: sensors_a.1, ..old(a)@ },
                now,
            );
            let (nb, eb) = poll_step(
                HopperView { coin_sensed: sensors_b.0, error_sensed: sensors_b.1, ..old(b)@ },
                now,
            );
            &&& final(a)@ == na
            &&& final(b)@ == nb
            &&& r@ == (if ea == HopperEvent::Quiet {
                seq![]
            } else {
                seq![ea]
            }) + (if eb == HopperEvent::Quiet {
                seq![]
            } else {
                seq![eb]
            })
        }),
{
    let mut events: Vec<HopperEvent> = Vec::new();
    a.update_sensors(sensors_a.0, sensors_a.1);
    let ea = a.poll(now);
    match ea {
        HopperEvent::Quiet => {},
        _ => events.push(ea),
    }
    b.update_sensors(sensors_b.0, sensors_b.1);
    let eb = b.poll(now);
    let ghost mid = events@;
    match eb {
        HopperEvent::Quiet => {},
        _ => events.push(eb),
    }
    proof {
        let sa: Seq<HopperEvent> = if ea == HopperEvent::Quiet { seq![] } else { seq![ea] };
        let sb: Seq<HopperEvent> = if eb == HopperEvent::Quiet { seq![] } else { seq![eb] };
        assert(mid =~= sa);
        assert(events@ =~= sa + sb);
    }
    events
}

} // verus!
