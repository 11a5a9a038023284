//! Coin acceptor decoding.
//!
//! Two modes. In normal mode each of the six channels has its own line and
//! a coin shows as a line going low for a while. In pulse mode one line
//! carries a train of pulses whose count selects the channel: one pulse is
//! channel 0, two pulses channel 1, and so on. The application polls the
//! lines every millisecond and hands the levels to a decoder here; a
//! decoded coin of an enabled channel with a positive value is returned as
//! a `CoinEvent`.

use vstd::prelude::*;
use vstd::std_specs::bits::u8_trailing_zeros;

use crate::config::COIN_CHANNEL_COUNT;
use crate::state::{Cash, VendingState};

verus! {

/// An accepted coin.
#[derive(Debug, Clone, Copy, PartialEq, Eq, Structural)]
pub struct CoinEvent {
    /// Acceptor channel (0..5).
    pub channel: u8,
    /// Value of the coin.
    pub value: Cash,
}

/// How the acceptor signals coins.
#[derive(Debug, Clone, Copy, PartialEq, Eq, Structural)]
pub enum CoinMode {
    /// One line per channel.
    Normal,
    /// One line, the pulse count selects the channel.
    Pulse,
}

/// Stage of the normal-mode decoder.
#[derive(Debug, Clone, Copy, PartialEq, Eq, Structural)]
pub enum NormalStage {
    Idle,
    PreAccept,
    Accept,
}

/// Stage of the pulse-mode decoder.
#[derive(Debug, Clone, Copy, PartialEq, Eq, Structural)]
pub enum PulseStage {
    Idle,
    Accept,
    PostAccept,
}

/// Normal mode: time a coin line must stay low before it is taken, in ms.
pub const PULSE_MIDLE_MS: u64 = 15;
/// Longest coin pulse, in ms.
pub const PULSE_MAX_MS: u64 = 100;
/// Pulse mode: shortest valid pulse, in ms.
pub const PULSE_MIN_MS: u64 = 30;
/// Pulse mode: a pause this long ends a pulse train, in ms.
pub const INTER_PULSE_MAX_MS: u64 = 200;

/// The mode set in the settings.
pub fn coin_mode(state: &VendingState) -> (r: CoinMode)
    ensures
        r == if state.settings.coin_acceptor.pulse_mode {
            CoinMode::Pulse
        } else {
            CoinMode::Normal
        },
{
    if state.settings.coin_acceptor.pulse_mode {
        CoinMode::Pulse
    } else {
        CoinMode::Normal
    }
}

/// Value of a coin of channel `channel` (0 for channels past the last).
pub open spec fn coin_value(state: VendingState, channel: int) -> Cash {
    if 0 <= channel < COIN_CHANNEL_COUNT {
        state.settings.coin_acceptor.coin_values[channel]
    } else {
        0
    }
}

/// Value of a coin of channel `channel` (0 for channels past the last).
pub fn get_coin_value(state: &VendingState, channel: usize) -> (r: Cash)
    ensures
        r == coin_value(*state, channel as int),
{
    if channel < COIN_CHANNEL_COUNT {
        state.settings.coin_acceptor.coin_values[channel]
    } else {
        0
    }
}

/// Bits of the enabled channels among the first `k`: bit `i` is set when
/// channel `i < k` is enabled.
pub open spec fn enabled_bits(enable: [bool; COIN_CHANNEL_COUNT], k: int) -> u8
    decreases k,
{
    if k <= 0 {
        0
    } else {
        let rest = enabled_bits(enable, k - 1);
        if enable[k - 1] {
            rest | (1u8 << (k - 1) as u8)
        } else {
            rest
        }
    }
}

/// Mask of the enabled channels: bit `i` set when channel `i` is enabled.
pub open spec fn channel_mask_spec(enable: [bool; COIN_CHANNEL_COUNT]) -> u8 {
    enabled_bits(enable, COIN_CHANNEL_COUNT as int)
}

/// Mask of the enabled channels: bit `i` set when channel `i` is enabled.
pub fn get_channel_mask(state: &VendingState) -> (r: u8)
    ensures
        r == channel_mask_spec(state.settings.coin_acceptor.coin_enable),
{
    let en = state.settings.coin_acceptor.coin_enable;
    let mut mask: u8 = 0;
    let mut i: usize = 0;
    while i < COIN_CHANNEL_COUNT
        invariant
            i <= COIN_CHANNEL_COUNT,
            en == state.settings.coin_acceptor.coin_enable,
            mask == enabled_bits(en, i as int),
        decreases COIN_CHANNEL_COUNT - i,
    {
        if en[i] {
            mask = mask | (1u8 << i as u8);
        }
        i = i + 1;
    }
    mask
}

/// Levels of the six channel lines, bit `i` for channel `i` (1 = high).
/// The lines are not wired yet: all read low.
pub fn read_coin_channels() -> (r: u8)
    ensures
        r == 0,
{
    0
}

/// Level of the pulse line (`true` = a pulse). The line is not wired yet:
/// it never shows a pulse.
pub fn read_coin_pulse_pin() -> (r: bool)
    ensures
        !r,
{
    false
}

/// The coin of channel `ch` if that channel's coin has a positive value.
pub open spec fn coin_of(state: VendingState, ch: int) -> Option<CoinEvent> {
    if coin_value(state, ch) > 0 {
        Some(CoinEvent { channel: ch as u8, value: coin_value(state, ch) })
    } else {
        None
    }
}

fn coin_event(state: &VendingState, ch: u8) -> (r: Option<CoinEvent>)
    ensures
        r == coin_of(*state, ch as int),
{
    let value = get_coin_value(state, ch as usize);
    if value > 0 {
        Some(CoinEvent { channel: ch, value })
    } else {
        None
    }
}

// ── Normal mode ───────────────────────────────────────────────────────────

/// Normal-mode decoder.
#[derive(Debug, Clone, Copy, PartialEq, Eq, Structural)]
pub struct NormalDecoder {
    pub stage: NormalStage,
    /// Enabled lines that were high when the coin was taken.
    pub active_channels: u8,
    /// Time the current stage started, in ms.
    pub stage_start: u64,
}

/// One poll of the normal-mode decoder with line levels `levels` and
/// enabled-channel mask `mask` at time `now`: the next decoder and the
/// channel of a finished coin, if any.
///
/// - Idle: an enabled line low starts timing; the high enabled lines are
///   remembered.
/// - PreAccept: after 15 ms the high enabled lines are remembered again
///   and the coin is awaited.
/// - Accept: when every enabled line is high again, the lowest enabled
///   line that was low is the coin's channel; after more than 100 ms
///   without that, the coin is dropped. Either way the decoder is idle.
pub open spec fn normal_step(d: NormalDecoder, levels: u8, mask: u8, now: u64) -> (
    NormalDecoder,
    Option<u8>,
) {
    let cur = levels & mask;
    match d.stage {
        NormalStage::Idle => if cur != mask {
            (NormalDecoder { stage: NormalStage::PreAccept, active_channels: cur, stage_start: now }, None)
        } else {
            (d, None)
        },
        NormalStage::PreAccept => if now - d.stage_start >= PULSE_MIDLE_MS {
            (NormalDecoder { stage: NormalStage::Accept, active_channels: cur, stage_start: now }, None)
        } else {
            (d, None)
        },
        NormalStage::Accept => if cur == mask {
            let detected = mask ^ d.active_channels;
            let ch = u8_trailing_zeros(detected);
            (
                NormalDecoder { stage: NormalStage::Idle, active_channels: 0, ..d },
                if detected != 0 && ch < COIN_CHANNEL_COUNT {
                    Some(ch as u8)
                } else {
                    None
                },
            )
        } else if now - d.stage_start > PULSE_MAX_MS {
            (NormalDecoder { stage: NormalStage::Idle, active_channels: 0, ..d }, None)
        } else {
            (d, None)
        },
    }
}

impl NormalDecoder {
    /// Idle, nothing remembered.
    pub fn new() -> (r: NormalDecoder)
        ensures
            r == (NormalDecoder { stage: NormalStage::Idle, active_channels: 0, stage_start: 0 }),
    {
        NormalDecoder { stage: NormalStage::Idle, active_channels: 0, stage_start: 0 }
    }

    /// One poll at time `now` (not before the stage started) with line
    /// levels `levels`, the enabled channels taken from the settings: see
    /// `normal_step`. A finished coin is returned when its channel's value
    /// is positive.
    pub fn step(&mut self, state: &VendingState, levels: u8, now: u64) -> (r: Option<CoinEvent>)
        requires
            now >= old(self).stage_start,
        ensures
            ({
                let mask = channel_mask_spec(state.settings.coin_acceptor.coin_enable);
                let (next, ch) = normal_step(*old(self), levels, mask, now);
                &&& *final(self) == next
                &&& r == match ch {
                    Some(c) => coin_of(*state, c as int),
                    None => None,
                }
            }),
    {
        let mask = get_channel_mask(state);
        let cur = levels & mask;
        match self.stage {
            NormalStage::Idle => {
                if cur != mask {
                    self.stage_start = now;
                    self.stage = NormalStage::PreAccept;
                    self.active_channels = cur;
                }
                None
            },
            NormalStage::PreAccept => {
                if now - self.stage_start >= PULSE_MIDLE_MS {
                    self.active_channels = cur;
                    self.stage_start = now;
                    self.stage = NormalStage::Accept;
                }
                None
            },
            NormalStage::Accept => {
                if cur == mask {
                    let detected = mask ^ self.active_channels;
                    let mut r: Option<CoinEvent> = None;
                    if detected != 0 {
                        let ch = detected.trailing_zeros();
                        if ch < COIN_CHANNEL_COUNT as u32 {
                            r = coin_event(state, ch as u8);
                        }
                    }
                    self.stage = NormalStage::Idle;
                    self.active_channels = 0;
                    r
                } else {
                    if now - self.stage_start > PULSE_MAX_MS {
                        self.stage = NormalStage::Idle;
                        self.active_channels = 0;
                    }
                    None
                }
            },
        }
    }
}

// ── Pulse mode ────────────────────────────────────────────────────────────

/// Pulse-mode decoder.
#[derive(Debug, Clone, Copy, PartialEq, Eq, Structural)]
pub struct PulseDecoder {
    pub stage: PulseStage,
    /// Valid pulses counted in the current train.
    pub pulse_count: u8,
    /// Time the current stage started, in ms.
    pub stage_start: u64,
}

/// One poll of the pulse-mode decoder with the line `active` at time `now`:
/// the next decoder and the channel of a finished train, if any.
///
/// - Idle: a pulse starts timing.
/// - Accept: when the pulse ends after 30..100 ms it is counted and the
///   pause is timed; a shorter or longer pulse drops the train.
/// - PostAccept: a new pulse within 100 ms is timed; a later one drops the
///   train; a pause of 200 ms ends the train, and `k` pulses (1..=6) give
///   channel `k - 1`.
pub open spec fn pulse_step(d: PulseDecoder, active: bool, now: u64) -> (PulseDecoder, Option<u8>) {
    let dropped = PulseDecoder { stage: PulseStage::Idle, pulse_count: 0, ..d };
    match d.stage {
        PulseStage::Idle => if active {
            (PulseDecoder { stage: PulseStage::Accept, stage_start: now, ..d }, None)
        } else {
            (d, None)
        },
        PulseStage::Accept => if !active {
            let elapsed = now - d.stage_start;
            if PULSE_MIN_MS <= elapsed < PULSE_MAX_MS {
                (
                    PulseDecoder {
                        stage: PulseStage::PostAccept,
                        pulse_count: (d.pulse_count + 1) as u8,
                        stage_start: now,
                    },
                    None,
                )
            } else {
                (dropped, None)
            }
        } else if now - d.stage_start > PULSE_MAX_MS {
            (dropped, None)
        } else {
            (d, None)
        },
        PulseStage::PostAccept => if active {
            if now - d.stage_start < PULSE_MAX_MS {
                (PulseDecoder { stage: PulseStage::Accept, stage_start: now, ..d }, None)
            } else {
                (dropped, None)
            }
        } else if now - d.stage_start >= INTER_PULSE_MAX_MS {
            (
                dropped,
                if 0 < d.pulse_count <= COIN_CHANNEL_COUNT {
                    Some((d.pulse_count - 1) as u8)
                } else {
                    None
                },
            )
        } else {
            (d, None)
        },
    }
}

impl PulseDecoder {
    /// Idle, no pulse counted.
    pub fn new() -> (r: PulseDecoder)
        ensures
            r == (PulseDecoder { stage: PulseStage::Idle, pulse_count: 0, stage_start: 0 }),
    {
        PulseDecoder { stage: PulseStage::Idle, pulse_count: 0, stage_start: 0 }
    }

    /// One poll at time `now` (not before the stage started) with the
    /// pulse line `active`: see `pulse_step`. A finished train is returned
    /// as a coin when its channel's value is positive.
    pub fn step(&mut self, state: &VendingState, active: bool, now: u64) -> (r: Option<CoinEvent>)
        requires
            now >= old(self).stage_start,
            old(self).pulse_count < u8::MAX,
        ensures
            ({
                let (next, ch) = pulse_step(*old(self), active, now);
                &&& *final(self) == next
                &&& r == match ch {
                    Some(c) => coin_of(*state, c as int),
                    None => None,
                }
            }),
    {
        match self.stage {
            PulseStage::Idle => {
                if active {
                    self.stage_start = now;
                    self.stage = PulseStage::Accept;
                }
                None
            },
            PulseStage::Accept => {
                if !active {
                    let elapsed = now - self.stage_start;
                    if PULSE_MIN_MS <= elapsed && elapsed < PULSE_MAX_MS {
                        self.pulse_count = self.pulse_count + 1;
                        self.stage_start = now;
                        self.stage = PulseStage::PostAccept;
                    } else {
                        self.pulse_count = 0;
                        self.stage = PulseStage::Idle;
                    }
                } else if now - self.stage_start > PULSE_MAX_MS {
                    self.pulse_count = 0;
                    self.stage = PulseStage::Idle;
                }
                None
            },
            PulseStage::PostAccept => {
                if active {
                    let elapsed = now - self.stage_start;
                    if elapsed < PULSE_MAX_MS {
                        self.stage = PulseStage::Accept;
                        self.stage_start = now;
                    } else {
                        self.pulse_count = 0;
                        self.stage = PulseStage::Idle;
                    }
                    None
                } else if now - self.stage_start >= INTER_PULSE_MAX_MS {
                    let mut r: Option<CoinEvent> = None;
                    if self.pulse_count > 0 && self.pulse_count <= COIN_CHANNEL_COUNT as u8 {
                        r = coin_event(state, self.pulse_count - 1);
                    }
                    self.pulse_count = 0;
                    self.stage = PulseStage::Idle;
                    r
                } else {
                    None
                }
            },
        }
    }
}

/// The decoder after one pulse: the line goes active at `start` and is
/// released `w` ms later.
pub open spec fn pulse_polls(d: PulseDecoder, start: u64, w: u64) -> PulseDecoder {
    let d1 = pulse_step(d, true, start).0;
    pulse_step(d1, false, (start + w) as u64).0
}

/// The decoder after `k` pulses of `w` ms, each starting `p` ms after the
/// time `t` the previous one ended.
pub open spec fn pulse_train(d: PulseDecoder, k: nat, t: u64, w: u64, p: u64) -> PulseDecoder
    decreases k,
{
    if k == 0 {
        d
    } else {
        pulse_train(pulse_polls(d, (t + p) as u64, w), (k - 1) as nat, (t + p + w) as u64, w, p)
    }
}

proof fn lemma_train_counts(d: PulseDecoder, k: nat, t: u64, w: u64, p: u64)
    requires
        d.stage == PulseStage::PostAccept,
        d.stage_start == t,
        d.pulse_count + k <= COIN_CHANNEL_COUNT,
        PULSE_MIN_MS <= w < PULSE_MAX_MS,
        p < PULSE_MAX_MS,
        t + k * (p + w) <= u64::MAX,
    ensures
        pulse_train(d, k, t, w, p) == (PulseDecoder {
            stage: PulseStage::PostAccept,
            pulse_count: (d.pulse_count + k) as u8,
            stage_start: (t + k * (p + w)) as u64,
        }),
    decreases k,
{
    if k > 0 {
        assert((k - 1) * (p + w) + (p + w) == k * (p + w)) by (nonlinear_arith);
        assert(0 <= (k - 1) * (p + w)) by (nonlinear_arith)
            requires
                k >= 1,
        ;
        let d1 = pulse_polls(d, (t + p) as u64, w);
        assert(d1 == PulseDecoder {
            stage: PulseStage::PostAccept,
            pulse_count: (d.pulse_count + 1) as u8,
            stage_start: (t + p + w) as u64,
        });
        lemma_train_counts(d1, (k - 1) as nat, (t + p + w) as u64, w, p);
        assert(pulse_train(d, k, t, w, p) == pulse_train(d1, (k - 1) as nat, (t + p + w) as u64, w, p));
    } else {
        assert(k * (p + w) == 0) by (nonlinear_arith)
            requires
                k == 0,
        ;
    }
}

/// A train of `k` pulses (1 to 6) of valid width, each following the
/// previous within 100 ms, and then a pause of at least 200 ms, decodes as
/// channel `k - 1`: one pulse is channel 0, two pulses channel 1, and so
/// on; the decoder is idle again.
pub proof fn lemma_pulse_count_selects_channel(
    d: PulseDecoder,
    k: nat,
    t: u64,
    w: u64,
    p: u64,
    gap: u64,
)
    requires
        d.stage == PulseStage::Idle,
        d.pulse_count == 0,
        1 <= k <= COIN_CHANNEL_COUNT,
        PULSE_MIN_MS <= w < PULSE_MAX_MS,
        p < PULSE_MAX_MS,
        gap >= INTER_PULSE_MAX_MS,
        t + k * (p + w) + gap <= u64::MAX,
    ensures
        ({
            let end = (t + k * (p + w)) as u64;
            let e = pulse_train(d, k, t, w, p);
            &&& e == (PulseDecoder {
                stage: PulseStage::PostAccept,
                pulse_count: k as u8,
                stage_start: end,
            })
            &&& pulse_step(e, false, (end + gap) as u64) == (
                PulseDecoder { stage: PulseStage::Idle, pulse_count: 0, stage_start: end },
                Some((k - 1) as u8),
            )
        }),
{
    assert((k - 1) * (p + w) + (p + w) == k * (p + w)) by (nonlinear_arith);
    assert(0 <= (k - 1) * (p + w)) by (nonlinear_arith)
        requires
            k >= 1,
    ;
    let d1 = pulse_polls(d, (t + p) as u64, w);
    assert(d1 == PulseDecoder {
        stage: PulseStage::PostAccept,
        pulse_count: 1,
        stage_start: (t + p + w) as u64,
    });
    lemma_train_counts(d1, (k - 1) as nat, (t + p + w) as u64, w, p);
}

/// A coin on channel `c` in normal mode is decoded as channel `c`: with
/// `c` enabled, its line alone going low at `t0` (the other enabled lines
/// high), still low at the check `t1` at least 15 ms later, and every
/// enabled line high again at `t2`, the third poll reports channel `c` and
/// the decoder is idle again.
pub proof fn lemma_normal_coin_channel(
    d: NormalDecoder,
    mask: u8,
    c: u8,
    t0: u64,
    t1: u64,
    t2: u64,
)
    requires
        d.stage == NormalStage::Idle,
        c < COIN_CHANNEL_COUNT,
        mask & (1u8 << c) != 0,
        t0 + PULSE_MIDLE_MS <= t1 <= t2,
    ensures
        ({
            let low = mask & !(1u8 << c);
            let (d1, e1) = normal_step(d, low, mask, t0);
            let (d2, e2) = normal_step(d1, low, mask, t1);
            let (d3, e3) = normal_step(d2, mask, mask, t2);
            &&& e1 is None && e2 is None
            &&& e3 == Some(c)
            &&& d3.stage == NormalStage::Idle
            &&& d3.active_channels == 0
        }),
{
    let b = 1u8 << c;
    let low = mask & !b;
    assert(low & mask == low && low != mask && mask & mask == mask) by (bit_vector)
        requires
            low == mask & !b,
            mask & b != 0,
    ;
    assert(mask ^ low == b) by (bit_vector)
        requires
            low == mask & !b,
            mask & b != 0,
            b == 1u8 << c,
            c < 6,
    ;
    broadcast use vstd::std_specs::bits::axiom_u8_trailing_zeros;
    let tz = u8_trailing_zeros(b);
    assert(b != 0 && (b >> c) & 1u8 == 1u8) by (bit_vector)
        requires
            b == 1u8 << c,
            c < 6,
    ;
    assert(u8_trailing_zeros(b) < 8);
    assert((b >> tz as u8) & 1u8 == 1u8);
    assert(forall|x: u8| x < 8 && (b >> x) & 1u8 == 1u8 ==> x == c) by (bit_vector)
        requires
            b == 1u8 << c,
            c < 6,
    ;
    assert(tz == c);
}

} // verus!
