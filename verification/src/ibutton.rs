//! iButton (DS1990A) reader on a bit-banged 1-Wire bus, and key checks.
//!
//! A key is read as: reset pulse (the key answers with a presence pulse),
//! Read ROM command 0x33, then eight bytes (family, serial, CRC), each
//! least significant bit first. The CRC is the Dallas/Maxim CRC-8
//! (x^8 + x^5 + x^4 + 1, reflected 0x8C) of the first seven bytes.
//!
//! Bus timing is the application's: the driver here returns the bus
//! operations of each step, in order, and decodes the sampled levels.

use vstd::prelude::*;

use crate::gsm::cmux::{crc8_bits, crc8_byte, crc8_fold, crc8_update};
use crate::state::{IbuttonKey, Settings, IBUTTON_LEN};

verus! {

/// Read ROM command.
pub const CMD_READ_ROM: u8 = 0x33;
/// Match ROM command.
pub const CMD_MATCH_ROM: u8 = 0x55;
/// Skip ROM command.
pub const CMD_SKIP_ROM: u8 = 0xCC;

/// A key touched the reader.
#[derive(Debug, Clone, Copy)]
pub struct IbuttonEvent {
    /// The key's eight ROM bytes.
    pub key: IbuttonKey,
    /// The key is on the whitelist.
    pub accepted: bool,
}

/// One operation on the 1-Wire bus.
#[derive(Debug, Clone, Copy, PartialEq, Eq, Structural)]
pub enum BusOp {
    /// Drive the bus low.
    PullLow,
    /// Release the bus (pulled up).
    Release,
    /// Wait this many microseconds.
    DelayUs(u64),
    /// Sample the bus level.
    Sample,
}

/// Reset: 480 us low, release, sample the presence after 70 us, 410 us
/// to finish.
pub open spec fn reset_ops() -> Seq<BusOp> {
    seq![
        BusOp::PullLow,
        BusOp::DelayUs(480),
        BusOp::Release,
        BusOp::DelayUs(70),
        BusOp::Sample,
        BusOp::DelayUs(410),
    ]
}

/// Write slot of one bit: a 1 is a 6 us low pulse and 64 us released, a 0
/// a 60 us low pulse and 10 us released.
pub open spec fn write_bit_ops(bit: u8) -> Seq<BusOp> {
    if bit != 0 {
        seq![BusOp::PullLow, BusOp::DelayUs(6), BusOp::Release, BusOp::DelayUs(64)]
    } else {
        seq![BusOp::PullLow, BusOp::DelayUs(60), BusOp::Release, BusOp::DelayUs(10)]
    }
}

/// Read slot of one bit: 10 us low, release, sample after 9 us, 55 us to
/// finish.
pub open spec fn read_bit_ops() -> Seq<BusOp> {
    seq![
        BusOp::PullLow,
        BusOp::DelayUs(10),
        BusOp::Release,
        BusOp::DelayUs(9),
        BusOp::Sample,
        BusOp::DelayUs(55),
    ]
}

/// Bit `i` of `b`.
pub open spec fn bit_of(b: u8, i: int) -> u8 {
    ((b >> i as u8) & 1u8) as u8
}

/// Write slots of the first `k` bits of `b`, least significant first.
pub open spec fn write_byte_ops(b: u8, k: int) -> Seq<BusOp>
    decreases k,
{
    if k <= 0 {
        seq![]
    } else {
        write_byte_ops(b, k - 1) + write_bit_ops(bit_of(b, k - 1))
    }
}

/// `k` read slots.
pub open spec fn read_slots(k: nat) -> Seq<BusOp>
    decreases k,
{
    if k == 0 {
        seq![]
    } else {
        read_slots((k - 1) as nat) + read_bit_ops()
    }
}

/// The byte whose bit `i` is 1 exactly when `samples[i]` is high, for the
/// first `k` samples.
pub open spec fn byte_of_samples(samples: Seq<bool>, k: int) -> u8
    decreases k,
{
    if k <= 0 {
        0
    } else {
        byte_of_samples(samples, k - 1) | (if samples[k - 1] {
            (1u8 << (k - 1) as u8) as u8
        } else {
            0u8
        })
    }
}

/// The 1-Wire bus driver.
pub struct IbuttonDriver {}

fn push_op(ops: &mut Vec<BusOp>, op: BusOp)
    ensures
        final(ops)@ == old(ops)@.push(op),
{
    ops.push(op);
}

impl IbuttonDriver {
    /// A driver for the reader's bus.
    pub fn new() -> (r: IbuttonDriver) {
        IbuttonDriver {  }
    }

    /// Bus set-up: release the bus.
    pub fn init(&self) -> (r: Vec<BusOp>)
        ensures
            r@ == seq![BusOp::Release],
    {
        self.release_bus()
    }

    /// Drives the bus low.
    pub fn pull_low(&self) -> (r: Vec<BusOp>)
        ensures
            r@ == seq![BusOp::PullLow],
    {
        let mut v: Vec<BusOp> = Vec::new();
        push_op(&mut v, BusOp::PullLow);
        assert(v@ =~= seq![BusOp::PullLow]);
        v
    }

    /// Releases the bus.
    pub fn release_bus(&self) -> (r: Vec<BusOp>)
        ensures
            r@ == seq![BusOp::Release],
    {
        let mut v: Vec<BusOp> = Vec::new();
        push_op(&mut v, BusOp::Release);
        assert(v@ =~= seq![BusOp::Release]);
        v
    }

    /// The bus level. The pin is not wired yet: the bus reads high
    /// (released, nothing present).
    pub fn read_bus(&self) -> (r: bool)
        ensures
            r,
    {
        true
    }

    /// The reset slot (see `reset_ops`).
    pub fn reset_pulse(&self) -> (r: Vec<BusOp>)
        ensures
            r@ == reset_ops(),
    {
        let mut v: Vec<BusOp> = Vec::new();
        push_op(&mut v, BusOp::PullLow);
        push_op(&mut v, BusOp::DelayUs(480));
        push_op(&mut v, BusOp::Release);
        push_op(&mut v, BusOp::DelayUs(70));
        push_op(&mut v, BusOp::Sample);
        push_op(&mut v, BusOp::DelayUs(410));
        assert(v@ =~= reset_ops());
        v
    }

    /// A key is present when the bus was sampled low after the reset.
    pub fn presence(sample: bool) -> (r: bool)
        ensures
            r == !sample,
    {
        !sample
    }

    fn emit_write_bit(ops: &mut Vec<BusOp>, bit: u8)
        ensures
            final(ops)@ == old(ops)@ + write_bit_ops(bit),
    {
        push_op(ops, BusOp::PullLow);
        if bit != 0 {
            push_op(ops, BusOp::DelayUs(6));
            push_op(ops, BusOp::Release);
            push_op(ops, BusOp::DelayUs(64));
        } else {
            push_op(ops, BusOp::DelayUs(60));
            push_op(ops, BusOp::Release);
            push_op(ops, BusOp::DelayUs(10));
        }
        assert(final(ops)@ =~= old(ops)@ + write_bit_ops(bit));
    }

    /// The write slot of one bit (see `write_bit_ops`).
    pub fn write_bit(&self, bit: u8) -> (r: Vec<BusOp>)
        ensures
            r@ == write_bit_ops(bit),
    {
        let mut v: Vec<BusOp> = Vec::new();
        Self::emit_write_bit(&mut v, bit);
        assert(v@ =~= write_bit_ops(bit));
        v
    }

    fn emit_read_bit(ops: &mut Vec<BusOp>)
        ensures
            final(ops)@ == old(ops)@ + read_bit_ops(),
    {
        push_op(ops, BusOp::PullLow);
        push_op(ops, BusOp::DelayUs(10));
        push_op(ops, BusOp::Release);
        push_op(ops, BusOp::DelayUs(9));
        push_op(ops, BusOp::Sample);
        push_op(ops, BusOp::DelayUs(55));
        assert(final(ops)@ =~= old(ops)@ + read_bit_ops());
    }

    /// The read slot of one bit (see `read_bit_ops`).
    pub fn read_bit(&self) -> (r: Vec<BusOp>)
        ensures
            r@ == read_bit_ops(),
    {
        let mut v: Vec<BusOp> = Vec::new();
        Self::emit_read_bit(&mut v);
        assert(v@ =~= read_bit_ops());
        v
    }

    /// The bit value of a read slot's sample: 1 when the bus was high.
    pub fn bit_value(sample: bool) -> (r: u8)
        ensures
            r == if sample {
                1u8
            } else {
                0u8
            },
    {
        if sample {
            1
        } else {
            0
        }
    }

    fn emit_write_byte(ops: &mut Vec<BusOp>, byte: u8)
        ensures
            final(ops)@ == old(ops)@ + write_byte_ops(byte, 8),
    {
        let mut b = byte;
        let mut i: u8 = 0;
        assert(byte >> 0u8 == byte) by (bit_vector);
        while i < 8
            invariant
                i <= 8,
                b == byte >> i,
                ops@ == old(ops)@ + write_byte_ops(byte, i as int),
            decreases 8 - i,
        {
            assert(b & 1u8 == bit_of(byte, i as int)) by (bit_vector)
                requires
                    b == byte >> i,
                    i < 8,
            ;
            Self::emit_write_bit(ops, b & 0x01);
            assert(ops@ =~= old(ops)@ + write_byte_ops(byte, i + 1));
            let i1: u8 = i + 1;
            assert(b >> 1u8 == byte >> i1) by (bit_vector)
                requires
                    b == byte >> i,
                    i < 8,
                    i1 == i + 1,
            ;
            b = b >> 1;
            i = i1;
        }
    }

    /// The write slots of a byte, least significant bit first.
    pub fn write_byte(&self, byte: u8) -> (r: Vec<BusOp>)
        ensures
            r@ == write_byte_ops(byte, 8),
    {
        let mut v: Vec<BusOp> = Vec::new();
        Self::emit_write_byte(&mut v, byte);
        assert(v@ =~= write_byte_ops(byte, 8));
        v
    }

    /// Eight read slots, for one byte.
    pub fn read_byte(&self) -> (r: Vec<BusOp>)
        ensures
            r@ == read_slots(8),
    {
        let mut v: Vec<BusOp> = Vec::new();
        let mut i: u8 = 0;
        while i < 8
            invariant
                i <= 8,
                v@ == read_slots(i as nat),
            decreases 8 - i,
        {
            Self::emit_read_bit(&mut v);
            i = i + 1;
        }
        v
    }

    /// The byte read from eight samples, least significant bit first.
    pub fn byte_from_samples(samples: &[bool; 8]) -> (r: u8)
        ensures
            r == byte_of_samples(samples@, 8),
    {
        let mut result: u8 = 0;
        let mut i: u8 = 0;
        while i < 8
            invariant
                i <= 8,
                result == byte_of_samples(samples@, i as int),
            decreases 8 - i,
        {
            let bit = Self::bit_value(samples[i as usize]);
            assert((bit << i) == (if samples@[i as int] {
                (1u8 << i) as u8
            } else {
                0u8
            })) by {
                if bit == 1 {
                } else {
                    assert((0u8 << i) == 0u8) by (bit_vector);
                }
            }
            result = result | (bit << i);
            i = i + 1;
        }
        result
    }

    /// The bus operations of a key read after a presence pulse: the Read
    /// ROM command, then 64 read slots.
    pub fn read_rom_ops(&self) -> (r: Vec<BusOp>)
        ensures
            r@ == write_byte_ops(CMD_READ_ROM, 8) + read_slots(64),
    {
        let mut v = self.write_byte(CMD_READ_ROM);
        let ghost head = v@;
        let mut i: u8 = 0;
        while i < 64
            invariant
                i <= 64,
                v@ == head + read_slots(i as nat),
            decreases 64 - i,
        {
            Self::emit_read_bit(&mut v);
            assert(v@ =~= head + read_slots((i + 1) as nat));
            i = i + 1;
        }
        v
    }

    /// The key read from the reset sample and the 64 bit samples: none
    /// without a presence pulse or when the CRC does not match, otherwise
    /// the eight bytes (byte `j` from samples `8j..8j+8`).
    pub fn read_rom(&self, reset_sample: bool, samples: &[bool; 64]) -> (r: Option<IbuttonKey>)
        ensures
            reset_sample ==> r is None,
            !reset_sample ==> match r {
                Some(key) => (forall|j: int|
                    0 <= j < 8 ==> #[trigger] key[j] == byte_of_samples(
                        samples@.subrange(8 * j, 8 * j + 8),
                        8,
                    )) && crc_ok(key@),
                None => !crc_ok(rom_bytes(samples@)),
            },
    {
        if !Self::presence(reset_sample) {
            return None;
        }
        let mut key: [u8; 8] = [0u8; 8];
        let mut j: usize = 0;
        while j < 8
            invariant
                j <= 8,
                forall|k: int|
                    0 <= k < j ==> #[trigger] key[k] == byte_of_samples(
                        samples@.subrange(8 * k, 8 * k + 8),
                        8,
                    ),
            decreases 8 - j,
        {
            let chunk: [bool; 8] = [
                samples[8 * j],
                samples[8 * j + 1],
                samples[8 * j + 2],
                samples[8 * j + 3],
                samples[8 * j + 4],
                samples[8 * j + 5],
                samples[8 * j + 6],
                samples[8 * j + 7],
            ];
            assert(chunk@ =~= samples@.subrange(8 * j as int, 8 * j + 8));
            key[j] = Self::byte_from_samples(&chunk);
            j = j + 1;
        }
        assert(key@ =~= rom_bytes(samples@));
        if check_crc(&key) {
            Some(key)
        } else {
            None
        }
    }
}

/// The eight bytes carried by 64 bit samples.
pub open spec fn rom_bytes(samples: Seq<bool>) -> Seq<u8> {
    Seq::new(8, |j: int| byte_of_samples(samples.subrange(8 * j, 8 * j + 8), 8))
}

/// Reflected form of the Dallas/Maxim polynomial x^8 + x^5 + x^4 + 1.
pub const DALLAS_POLY: u8 = 0x8C;

/// The last byte of a key is the CRC of the first seven.
pub open spec fn crc_ok(key: Seq<u8>) -> bool {
    crc8_fold(0, key.take(7), DALLAS_POLY) == key[7]
}

/// Dallas/Maxim CRC-8 of `data` (from 0).
pub fn compute_crc(data: &[u8]) -> (r: u8)
    ensures
        r == crc8_fold(0, data@, DALLAS_POLY),
{
    crc8_update(0, data, DALLAS_POLY)
}

/// The key's last byte is the CRC of its first seven.
pub fn check_crc(key: &[u8; IBUTTON_LEN]) -> (r: bool)
    ensures
        r == crc_ok(key@),
{
    let first: [u8; 7] = [key[0], key[1], key[2], key[3], key[4], key[5], key[6]];
    assert(first@ =~= key@.take(7));
    compute_crc(first.as_slice()) == key[7]
}

/// Appending the CRC of some bytes gives bytes whose CRC is 0, and a key
/// made of seven bytes and their CRC passes the check.
pub proof fn lemma_crc_residue(data: Seq<u8>)
    ensures
        crc8_fold(0, data.push(crc8_fold(0, data, DALLAS_POLY)), DALLAS_POLY) == 0,
        data.len() == 7 ==> crc_ok(data.push(crc8_fold(0, data, DALLAS_POLY))),
{
    let c = crc8_fold(0, data, DALLAS_POLY);
    let s = data.push(c);
    assert(s.drop_last() =~= data);
    assert(c ^ c == 0u8) by (bit_vector);
    lemma_crc8_zero(8);
    if data.len() == 7 {
        assert(s.take(7) =~= data);
    }
}

proof fn lemma_crc8_zero(k: nat)
    ensures
        crc8_bits(0, k, DALLAS_POLY) == 0,
    decreases k,
{
    if k > 0 {
        assert(0u8 & 1u8 == 0u8 && (0u8 >> 1u8) == 0u8) by (bit_vector);
        lemma_crc8_zero((k - 1) as nat);
    }
}

/// The bits written for a byte, read back as samples, give the byte back:
/// a byte goes over the bus least significant bit first, one slot per bit.
pub proof fn lemma_byte_bits_roundtrip(b: u8)
    ensures
        byte_of_samples(Seq::new(8, |i: int| bit_of(b, i) == 1u8), 8) == b,
{
    let s = Seq::new(8, |i: int| bit_of(b, i) == 1u8);
    reveal_with_fuel(byte_of_samples, 9);
    assert(((0u8 | (if (b >> 0u8) & 1 == 1 { 1u8 << 0u8 } else { 0u8 })) | (if (b >> 1u8) & 1
        == 1 { 1u8 << 1u8 } else { 0u8 }) | (if (b >> 2u8) & 1 == 1 { 1u8 << 2u8 } else { 0u8 })
        | (if (b >> 3u8) & 1 == 1 { 1u8 << 3u8 } else { 0u8 }) | (if (b >> 4u8) & 1 == 1 {
        1u8 << 4u8
    } else {
        0u8
    }) | (if (b >> 5u8) & 1 == 1 { 1u8 << 5u8 } else { 0u8 }) | (if (b >> 6u8) & 1 == 1 {
        1u8 << 6u8
    } else {
        0u8
    }) | (if (b >> 7u8) & 1 == 1 { 1u8 << 7u8 } else { 0u8 })) == b) by (bit_vector);
}

// ── Key whitelist ─────────────────────────────────────────────────────────

/// Access level of a key.
#[derive(Debug, Clone, Copy, PartialEq, Eq, Structural)]
pub enum KeyAccess {
    /// Service key (full access).
    Service,
    /// Technical key (limited access).
    Technical,
}

impl KeyAccess {
    /// Numeric level: service 0, technical 1.
    pub fn code(&self) -> (r: u8)
        ensures
            *self == KeyAccess::Service ==> r == 0,
            *self == KeyAccess::Technical ==> r == 1,
    {
        match self {
            KeyAccess::Service => 0,
            KeyAccess::Technical => 1,
        }
    }
}

/// Every byte of the key is zero (an empty slot).
pub open spec fn key_is_empty(k: IbuttonKey) -> bool {
    forall|i: int| 0 <= i < 8 ==> k[i] == 0
}

/// Slot `slot` of level `level` holds `key` (and is not empty).
pub open spec fn slot_holds(s: Settings, level: int, slot: int, key: IbuttonKey) -> bool {
    !key_is_empty(s.keys[level][slot]) && s.keys[level][slot]@ == key@
}

/// Some slot of level `level` holds `key`.
pub open spec fn level_holds(s: Settings, level: int, key: IbuttonKey) -> bool {
    slot_holds(s, level, 0, key) || slot_holds(s, level, 1, key)
}

/// The access a key grants: none for the empty key; service when a
/// service slot holds it; technical when a slot of another level holds it.
pub open spec fn key_access(s: Settings, key: IbuttonKey) -> Option<KeyAccess> {
    if key_is_empty(key) {
        None
    } else if level_holds(s, 0, key) {
        Some(KeyAccess::Service)
    } else if level_holds(s, 1, key) || level_holds(s, 2, key) {
        Some(KeyAccess::Technical)
    } else {
        None
    }
}

/// What a key grants, in terms of the stored slots: a non-empty key that a
/// non-empty slot of level 0 holds grants service access; one that no
/// level-0 slot holds but a non-empty slot of level 1 or 2 holds grants
/// technical access; otherwise (the empty key, or a key no slot holds)
/// nothing. In particular service access is granted only through a level-0
/// slot.
pub proof fn lemma_key_access_by_level(s: Settings, key: IbuttonKey)
    ensures
        key_access(s, key) == Some(KeyAccess::Service) <==> (exists|i: int| 0 <= i < 8 && key[i] != 0)
            && (exists|slot: int|
            0 <= slot < 2 && s.keys[0][slot]@ == key@ && exists|i: int|
                0 <= i < 8 && s.keys[0][slot][i] != 0),
        key_access(s, key) == Some(KeyAccess::Technical) <==> (exists|i: int| 0 <= i < 8 && key[i] != 0)
            && !(exists|slot: int| 0 <= slot < 2 && s.keys[0][slot]@ == key@) && (exists|
            level: int,
            slot: int,
        |
            1 <= level < 3 && 0 <= slot < 2 && s.keys[level][slot]@ == key@),
        key_access(s, key) is None <==> (forall|i: int| 0 <= i < 8 ==> key[i] == 0) || (forall|
            level: int,
            slot: int,
        | 0 <= level < 3 && 0 <= slot < 2 ==> s.keys[level][slot]@ != key@),
{
    assert forall|level: int, slot: int|
        0 <= level < 3 && 0 <= slot < 2 && s.keys[level][slot]@ == key@ implies (key_is_empty(
        s.keys[level][slot],
    ) <==> key_is_empty(key)) by {
        assert forall|i: int| 0 <= i < 8 implies s.keys[level][slot][i] == key[i] by {
            assert(s.keys[level][slot]@[i] == key@[i]);
        }
    }
    if exists|slot: int| 0 <= slot < 2 && s.keys[0][slot]@ == key@ {
        let slot = choose|slot: int| 0 <= slot < 2 && s.keys[0][slot]@ == key@;
        assert(slot == 0 || slot == 1);
    }
    if exists|level: int, slot: int|
        1 <= level < 3 && 0 <= slot < 2 && s.keys[level][slot]@ == key@ {
        let (level, slot) = choose|level: int, slot: int|
            1 <= level < 3 && 0 <= slot < 2 && s.keys[level][slot]@ == key@;
        assert(level == 1 || level == 2);
        assert(slot == 0 || slot == 1);
    }
    if level_holds(s, 1, key) {
        if slot_holds(s, 1, 0, key) {
            assert(s.keys[1][0]@ == key@);
        } else {
            assert(s.keys[1][1]@ == key@);
        }
    }
    if level_holds(s, 2, key) {
        if slot_holds(s, 2, 0, key) {
            assert(s.keys[2][0]@ == key@);
        } else {
            assert(s.keys[2][1]@ == key@);
        }
    }
    if level_holds(s, 0, key) {
        if slot_holds(s, 0, 0, key) {
            assert(s.keys[0][0]@ == key@);
        } else {
            assert(s.keys[0][1]@ == key@);
        }
    }
}

fn is_zero_key(k: &IbuttonKey) -> (r: bool)
    ensures
        r == key_is_empty(*k),
{
    let mut i: usize = 0;
    while i < 8
        invariant
            i <= 8,
            forall|j: int| 0 <= j < i ==> k[j] == 0,
        decreases 8 - i,
    {
        if k[i] != 0 {
            return false;
        }
        i = i + 1;
    }
    true
}

fn same_key(a: &IbuttonKey, b: &IbuttonKey) -> (r: bool)
    ensures
        r == (a@ == b@),
{
    let mut i: usize = 0;
    while i < 8
        invariant
            i <= 8,
            forall|j: int| 0 <= j < i ==> a[j] == b[j],
        decreases 8 - i,
    {
        if a[i] != b[i] {
            return false;
        }
        i = i + 1;
    }
    assert(a@ =~= b@);
    true
}

/// The access `key` grants (see `key_access`): levels are searched in
/// order, so a key stored at several levels gets the first.
pub fn check_key(settings: &Settings, key: &IbuttonKey) -> (r: Option<KeyAccess>)
    ensures
        r == key_access(*settings, *key),
{
    if is_zero_key(key) {
        return None;
    }
    let mut level: usize = 0;
    while level < 3
        invariant
            level <= 3,
            !key_is_empty(*key),
            forall|l: int| 0 <= l < level ==> !level_holds(*settings, l, *key),
        decreases 3 - level,
    {
        let mut slot: usize = 0;
        while slot < 2
            invariant
                level < 3,
                slot <= 2,
                !key_is_empty(*key),
                forall|l: int| 0 <= l < level ==> !level_holds(*settings, l, *key),
                forall|t: int| 0 <= t < slot ==> !slot_holds(*settings, level as int, t, *key),
            decreases 2 - slot,
        {
            let stored = settings.keys[level][slot];
            if !is_zero_key(&stored) && same_key(&stored, key) {
                if level == 0 {
                    return Some(KeyAccess::Service);
                } else {
                    return Some(KeyAccess::Technical);
                }
            }
            slot = slot + 1;
        }
        level = level + 1;
    }
    None
}

/// The event of a key read: the key and whether it is on the whitelist.
pub fn key_event(settings: &Settings, key: IbuttonKey) -> (r: IbuttonEvent)
    ensures
        r.key == key,
        r.accepted == (key_access(*settings, key) is Some),
{
    let access = check_key(settings, &key);
    IbuttonEvent { key, accepted: access.is_some() }
}

} // verus!
