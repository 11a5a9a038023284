//! The byte record of the working state kept in the EEPROM.
//!
//! Numbers are stored little-endian (two's complement for signed ones),
//! flags as one byte (0 or 1), kinds and phases by their numeric codes, in
//! the order of the fields; arrays entry after entry.

use vstd::prelude::*;

use crate::error::Errors;
use crate::event::{EventEntry, EventInfo, EventKind, TransactionEntry};
use crate::state::{Accounting, AppState, VendingStateData};

verus! {

/// The two bytes of `x`, low byte first.
pub open spec fn u16_bytes(x: u16) -> Seq<u8> {
    seq![(x & 0xFF) as u8, (x >> 8u16) as u8]
}

/// The four bytes of `x`, lowest first.
pub open spec fn u32_bytes(x: u32) -> Seq<u8> {
    seq![
        (x & 0xFF) as u8,
        ((x >> 8u32) & 0xFF) as u8,
        ((x >> 16u32) & 0xFF) as u8,
        (x >> 24u32) as u8,
    ]
}

/// The eight bytes of `x`, lowest first.
pub open spec fn u64_bytes(x: u64) -> Seq<u8> {
    u32_bytes((x & 0xFFFF_FFFF) as u32) + u32_bytes((x >> 32u64) as u32)
}

/// The four bytes of `x` in two's complement, lowest first.
pub open spec fn i32_bytes(x: i32) -> Seq<u8> {
    u32_bytes(x as u32)
}

/// The 16-bit number stored from byte `o` of `b`.
pub open spec fn u16_at(b: Seq<u8>, o: int) -> u16 {
    (b[o] as u16 | ((b[o + 1] as u16) << 8u16)) as u16
}

/// The 32-bit number stored from byte `o` of `b`.
pub open spec fn u32_at(b: Seq<u8>, o: int) -> u32 {
    (b[o] as u32 | ((b[o + 1] as u32) << 8u32) | ((b[o + 2] as u32) << 16u32) | ((b[o + 3] as u32)
        << 24u32)) as u32
}

/// The 64-bit number stored from byte `o` of `b`.
pub open spec fn u64_at(b: Seq<u8>, o: int) -> u64 {
    (u32_at(b, o) as u64 | ((u32_at(b, o + 4) as u64) << 32u64)) as u64
}

/// The signed 32-bit number stored from byte `o` of `b`.
pub open spec fn i32_at(b: Seq<u8>, o: int) -> i32 {
    u32_at(b, o) as i32
}

/// `b` holds the bytes `p` from byte `o` on.
pub open spec fn holds_at(b: Seq<u8>, o: int, p: Seq<u8>) -> bool {
    &&& 0 <= o
    &&& o + p.len() <= b.len()
    &&& forall|j: int| 0 <= j < p.len() ==> #[trigger] b[o + j] == p[j]
}

proof fn lemma_u16_at(b: Seq<u8>, o: int, x: u16)
    requires
        holds_at(b, o, u16_bytes(x)),
    ensures
        u16_at(b, o) == x,
{
    let p = u16_bytes(x);
    assert(b[o + 0] == p[0] && b[o + 1] == p[1]);
    let b0 = b[o];
    let b1 = b[o + 1];
    assert((b0 as u16 | ((b1 as u16) << 8u16)) as u16 == x) by (bit_vector)
        requires
            b0 == (x & 0xFF) as u8,
            b1 == (x >> 8u16) as u8,
    ;
}

proof fn lemma_u32_at(b: Seq<u8>, o: int, x: u32)
    requires
        holds_at(b, o, u32_bytes(x)),
    ensures
        u32_at(b, o) == x,
{
    let p = u32_bytes(x);
    assert(b[o + 0] == p[0] && b[o + 1] == p[1] && b[o + 2] == p[2] && b[o + 3] == p[3]);
    let b0 = b[o];
    let b1 = b[o + 1];
    let b2 = b[o + 2];
    let b3 = b[o + 3];
    assert((b0 as u32 | ((b1 as u32) << 8u32) | ((b2 as u32) << 16u32) | ((b3 as u32) << 24u32))
        as u32 == x) by (bit_vector)
        requires
            b0 == (x & 0xFF) as u8,
            b1 == ((x >> 8u32) & 0xFF) as u8,
            b2 == ((x >> 16u32) & 0xFF) as u8,
            b3 == (x >> 24u32) as u8,
    ;
}

proof fn lemma_u64_at(b: Seq<u8>, o: int, x: u64)
    requires
        holds_at(b, o, u64_bytes(x)),
    ensures
        u64_at(b, o) == x,
{
    let lo = (x & 0xFFFF_FFFF) as u32;
    let hi = (x >> 32u64) as u32;
    let p = u64_bytes(x);
    assert forall|j: int| 0 <= j < 4 implies #[trigger] b[o + j] == u32_bytes(lo)[j] by {
        assert(b[o + j] == p[j]);
    }
    assert forall|j: int| 0 <= j < 4 implies #[trigger] b[(o + 4) + j] == u32_bytes(hi)[j] by {
        assert(b[o + (4 + j)] == p[4 + j]);
    }
    lemma_u32_at(b, o, lo);
    lemma_u32_at(b, o + 4, hi);
    assert((lo as u64 | ((hi as u64) << 32u64)) as u64 == x) by (bit_vector)
        requires
            lo == (x & 0xFFFF_FFFF) as u32,
            hi == (x >> 32u64) as u32,
    ;
}

proof fn lemma_i32_at(b: Seq<u8>, o: int, x: i32)
    requires
        holds_at(b, o, i32_bytes(x)),
    ensures
        i32_at(b, o) == x,
{
    lemma_u32_at(b, o, x as u32);
    assert(((x as u32) as i32) == x) by (bit_vector);
}

proof fn lemma_holds_split(b: Seq<u8>, o: int, x: Seq<u8>, y: Seq<u8>)
    requires
        holds_at(b, o, x + y),
    ensures
        holds_at(b, o, x),
        holds_at(b, o + x.len(), y),
{
    assert forall|j: int| 0 <= j < x.len() implies #[trigger] b[o + j] == x[j] by {
        assert(b[o + j] == (x + y)[j]);
    }
    assert forall|j: int| 0 <= j < y.len() implies #[trigger] b[(o + x.len()) + j] == y[j] by {
        assert(b[o + (x.len() + j)] == (x + y)[x.len() + j]);
    }
}

// ── Bytes out ─────────────────────────────────────────────────────────────

fn push_u8(v: &mut Vec<u8>, x: u8)
    ensures
        final(v)@ == old(v)@ + seq![x],
{
    v.push(x);
}

fn push_u16(v: &mut Vec<u8>, x: u16)
    ensures
        final(v)@ == old(v)@ + u16_bytes(x),
{
    v.push((x & 0xFF) as u8);
    v.push((x >> 8) as u8);
}

fn push_u32(v: &mut Vec<u8>, x: u32)
    ensures
        final(v)@ == old(v)@ + u32_bytes(x),
{
    v.push((x & 0xFF) as u8);
    v.push(((x >> 8) & 0xFF) as u8);
    v.push(((x >> 16) & 0xFF) as u8);
    v.push((x >> 24) as u8);
}

fn push_u64(v: &mut Vec<u8>, x: u64)
    ensures
        final(v)@ == old(v)@ + u64_bytes(x),
{
    let ghost v0 = v@;
    push_u32(v, (x & 0xFFFF_FFFF) as u32);
    push_u32(v, (x >> 32) as u32);
    assert(v@ =~= v0 + u64_bytes(x));
}

fn push_i32(v: &mut Vec<u8>, x: i32)
    ensures
        final(v)@ == old(v)@ + i32_bytes(x),
{
    push_u32(v, x as u32);
}

// ── Bytes in ──────────────────────────────────────────────────────────────

fn read_u16(b: &[u8], o: usize) -> (r: u16)
    requires
        o + 2 <= b@.len(),
    ensures
        r == u16_at(b@, o as int),
{
    (b[o] as u16 | ((b[o + 1] as u16) << 8)) as u16
}

fn read_u32(b: &[u8], o: usize) -> (r: u32)
    requires
        o + 4 <= b@.len(),
    ensures
        r == u32_at(b@, o as int),
{
    (b[o] as u32 | ((b[o + 1] as u32) << 8) | ((b[o + 2] as u32) << 16) | ((b[o + 3] as u32) << 24))
        as u32
}

fn read_u64(b: &[u8], o: usize) -> (r: u64)
    requires
        o + 8 <= b@.len(),
    ensures
        r == u64_at(b@, o as int),
{
    let _n = b.len();
    let lo = read_u32(b, o);
    let hi = read_u32(b, o + 4);
    (lo as u64 | ((hi as u64) << 32)) as u64
}

fn read_i32(b: &[u8], o: usize) -> (r: i32)
    requires
        o + 4 <= b@.len(),
    ensures
        r == i32_at(b@, o as int),
{
    read_u32(b, o) as i32
}

// ── Entries ───────────────────────────────────────────────────────────────

/// Stored code of an event kind.
pub open spec fn kind_code(k: EventKind) -> u8 {
    match k {
        EventKind::Empty => 0,
        EventKind::CoinIn => 1,
        EventKind::ItemDispensed => 2,
        EventKind::HopperError => 3,
        EventKind::ErrorCleared => 4,
        EventKind::SettingsChanged => 5,
        EventKind::DoorOpen => 6,
        EventKind::DoorClose => 7,
        EventKind::PowerFail => 8,
        EventKind::GsmError => 10,
        EventKind::IbuttonKey => 12,
        EventKind::FreeItemDispensed => 14,
        EventKind::GsmSmsSent => 15,
        EventKind::GsmSmsReceived => 16,
        EventKind::CoinsRefill => 17,
        EventKind::ItemsRefill => 18,
    }
}

/// The event kind of a stored code; an unknown code reads as `Empty`.
pub open spec fn kind_of(c: u8) -> EventKind {
    if c == 1 {
        EventKind::CoinIn
    } else if c == 2 {
        EventKind::ItemDispensed
    } else if c == 3 {
        EventKind::HopperError
    } else if c == 4 {
        EventKind::ErrorCleared
    } else if c == 5 {
        EventKind::SettingsChanged
    } else if c == 6 {
        EventKind::DoorOpen
    } else if c == 7 {
        EventKind::DoorClose
    } else if c == 8 {
        EventKind::PowerFail
    } else if c == 10 {
        EventKind::GsmError
    } else if c == 12 {
        EventKind::IbuttonKey
    } else if c == 14 {
        EventKind::FreeItemDispensed
    } else if c == 15 {
        EventKind::GsmSmsSent
    } else if c == 16 {
        EventKind::GsmSmsReceived
    } else if c == 17 {
        EventKind::CoinsRefill
    } else if c == 18 {
        EventKind::ItemsRefill
    } else {
        EventKind::Empty
    }
}

fn kind_from_code(c: u8) -> (r: EventKind)
    ensures
        r == kind_of(c),
{
    if c == 1 {
        EventKind::CoinIn
    } else if c == 2 {
        EventKind::ItemDispensed
    } else if c == 3 {
        EventKind::HopperError
    } else if c == 4 {
        EventKind::ErrorCleared
    } else if c == 5 {
        EventKind::SettingsChanged
    } else if c == 6 {
        EventKind::DoorOpen
    } else if c == 7 {
        EventKind::DoorClose
    } else if c == 8 {
        EventKind::PowerFail
    } else if c == 10 {
        EventKind::GsmError
    } else if c == 12 {
        EventKind::IbuttonKey
    } else if c == 14 {
        EventKind::FreeItemDispensed
    } else if c == 15 {
        EventKind::GsmSmsSent
    } else if c == 16 {
        EventKind::GsmSmsReceived
    } else if c == 17 {
        EventKind::CoinsRefill
    } else if c == 18 {
        EventKind::ItemsRefill
    } else {
        EventKind::Empty
    }
}

/// Stored code of a phase.
pub open spec fn phase_code(a: AppState) -> u8 {
    match a {
        AppState::AcceptCash => 0,
        AppState::PayoutItems => 1,
        AppState::PayoutReminder => 2,
        AppState::ProcessResidual => 3,
    }
}

/// The phase of a stored code; an unknown code reads as `AcceptCash`.
pub open spec fn phase_of(c: u8) -> AppState {
    if c == 1 {
        AppState::PayoutItems
    } else if c == 2 {
        AppState::PayoutReminder
    } else if c == 3 {
        AppState::ProcessResidual
    } else {
        AppState::AcceptCash
    }
}

fn phase_from_code(c: u8) -> (r: AppState)
    ensures
        r == phase_of(c),
{
    if c == 1 {
        AppState::PayoutItems
    } else if c == 2 {
        AppState::PayoutReminder
    } else if c == 3 {
        AppState::ProcessResidual
    } else {
        AppState::AcceptCash
    }
}

/// Stored byte of a flag.
pub open spec fn flag_byte(f: bool) -> u8 {
    if f {
        1
    } else {
        0
    }
}

/// The 25 bytes of a transaction entry.
pub open spec fn tx_bytes(t: TransactionEntry) -> Seq<u8> {
    u32_bytes(t.timestamp) + i32_bytes(t.cash_in) + i32_bytes(t.cash_out) + i32_bytes(t.items_out)
        + u64_bytes(t.errors.bits) + seq![flag_byte(t.closed)]
}

/// The transaction entry stored from byte `o` of `b`.
#[verifier::opaque]
pub open spec fn tx_at(b: Seq<u8>, o: int) -> TransactionEntry {
    TransactionEntry {
        timestamp: u32_at(b, o),
        cash_in: i32_at(b, o + 4),
        cash_out: i32_at(b, o + 8),
        items_out: i32_at(b, o + 12),
        errors: Errors { bits: u64_at(b, o + 16) },
        closed: b[o + 24] != 0,
    }
}

proof fn lemma_tx_at(b: Seq<u8>, o: int, t: TransactionEntry)
    requires
        holds_at(b, o, tx_bytes(t)),
    ensures
        tx_at(b, o) == t,
{
    reveal(tx_at);
    let p1 = u32_bytes(t.timestamp);
    let p2 = i32_bytes(t.cash_in);
    let p3 = i32_bytes(t.cash_out);
    let p4 = i32_bytes(t.items_out);
    let p5 = u64_bytes(t.errors.bits);
    let p6 = seq![flag_byte(t.closed)];
    lemma_holds_split(b, o, p1 + p2 + p3 + p4 + p5, p6);
    lemma_holds_split(b, o, p1 + p2 + p3 + p4, p5);
    lemma_holds_split(b, o, p1 + p2 + p3, p4);
    lemma_holds_split(b, o, p1 + p2, p3);
    lemma_holds_split(b, o, p1, p2);
    lemma_u32_at(b, o, t.timestamp);
    lemma_i32_at(b, o + 4, t.cash_in);
    lemma_i32_at(b, o + 8, t.cash_out);
    lemma_i32_at(b, o + 12, t.items_out);
    lemma_u64_at(b, o + 16, t.errors.bits);
    assert(b[(o + 24) + 0] == p6[0]);
}

fn push_tx(v: &mut Vec<u8>, t: &TransactionEntry)
    ensures
        final(v)@ == old(v)@ + tx_bytes(*t),
{
    let ghost v0 = v@;
    push_u32(v, t.timestamp);
    push_i32(v, t.cash_in);
    push_i32(v, t.cash_out);
    push_i32(v, t.items_out);
    push_u64(v, t.errors.bits);
    push_u8(v, if t.closed { 1 } else { 0 });
    assert(v@ =~= v0 + tx_bytes(*t));
}

fn read_tx(b: &[u8], o: usize) -> (r: TransactionEntry)
    requires
        o + 25 <= b@.len(),
    ensures
        r == tx_at(b@, o as int),
{
    reveal(tx_at);
    let _n = b.len();
    TransactionEntry {
        timestamp: read_u32(b, o),
        cash_in: read_i32(b, o + 4),
        cash_out: read_i32(b, o + 8),
        items_out: read_i32(b, o + 12),
        errors: Errors { bits: read_u64(b, o + 16) },
        closed: b[o + 24] != 0,
    }
}

/// The 9 bytes of an event entry.
pub open spec fn ev_bytes(e: EventEntry) -> Seq<u8> {
    u32_bytes(e.timestamp) + seq![kind_code(e.kind)] + u16_bytes(e.info.param1) + u16_bytes(
        e.info.param2,
    )
}

/// The event entry stored from byte `o` of `b`.
#[verifier::opaque]
pub open spec fn ev_at(b: Seq<u8>, o: int) -> EventEntry {
    EventEntry {
        timestamp: u32_at(b, o),
        kind: kind_of(b[o + 4]),
        info: EventInfo { param1: u16_at(b, o + 5), param2: u16_at(b, o + 7) },
    }
}

proof fn lemma_ev_at(b: Seq<u8>, o: int, e: EventEntry)
    requires
        holds_at(b, o, ev_bytes(e)),
    ensures
        ev_at(b, o) == e,
{
    reveal(ev_at);
    let p1 = u32_bytes(e.timestamp);
    let p2 = seq![kind_code(e.kind)];
    let p3 = u16_bytes(e.info.param1);
    let p4 = u16_bytes(e.info.param2);
    lemma_holds_split(b, o, p1 + p2 + p3, p4);
    lemma_holds_split(b, o, p1 + p2, p3);
    lemma_holds_split(b, o, p1, p2);
    lemma_u32_at(b, o, e.timestamp);
    assert(b[(o + 4) + 0] == p2[0]);
    lemma_u16_at(b, o + 5, e.info.param1);
    lemma_u16_at(b, o + 7, e.info.param2);
}

fn push_ev(v: &mut Vec<u8>, e: &EventEntry)
    ensures
        final(v)@ == old(v)@ + ev_bytes(*e),
{
    let ghost v0 = v@;
    push_u32(v, e.timestamp);
    let c = e.kind.code();
    assert(c == kind_code(e.kind));
    push_u8(v, c);
    push_u16(v, e.info.param1);
    push_u16(v, e.info.param2);
    assert(v@ =~= v0 + ev_bytes(*e));
}

fn read_ev(b: &[u8], o: usize) -> (r: EventEntry)
    requires
        o + 9 <= b@.len(),
    ensures
        r == ev_at(b@, o as int),
{
    reveal(ev_at);
    let _n = b.len();
    EventEntry {
        timestamp: read_u32(b, o),
        kind: kind_from_code(b[o + 4]),
        info: EventInfo { param1: read_u16(b, o + 5), param2: read_u16(b, o + 7) },
    }
}

/// The 28 bytes of an accounting.
pub open spec fn acc_bytes(a: Accounting) -> Seq<u8> {
    i32_bytes(a.cash_in) + i32_bytes(a.cash_out) + i32_bytes(a.items_out) + i32_bytes(
        a.free_items_out,
    ) + i32_bytes(a.coins_refill[0]) + i32_bytes(a.coins_refill[1]) + i32_bytes(a.items_refill)
}

/// The accounting stored from byte `o` of `b`.
#[verifier::opaque]
pub open spec fn acc_at(b: Seq<u8>, o: int) -> Accounting {
    Accounting {
        cash_in: i32_at(b, o),
        cash_out: i32_at(b, o + 4),
        items_out: i32_at(b, o + 8),
        free_items_out: i32_at(b, o + 12),
        coins_refill: [i32_at(b, o + 16), i32_at(b, o + 20)],
        items_refill: i32_at(b, o + 24),
    }
}

proof fn lemma_acc_at(b: Seq<u8>, o: int, a: Accounting)
    requires
        holds_at(b, o, acc_bytes(a)),
    ensures
        acc_at(b, o) == a,
{
    reveal(acc_at);
    let p1 = i32_bytes(a.cash_in);
    let p2 = i32_bytes(a.cash_out);
    let p3 = i32_bytes(a.items_out);
    let p4 = i32_bytes(a.free_items_out);
    let p5 = i32_bytes(a.coins_refill[0]);
    let p6 = i32_bytes(a.coins_refill[1]);
    let p7 = i32_bytes(a.items_refill);
    lemma_holds_split(b, o, p1 + p2 + p3 + p4 + p5 + p6, p7);
    lemma_holds_split(b, o, p1 + p2 + p3 + p4 + p5, p6);
    lemma_holds_split(b, o, p1 + p2 + p3 + p4, p5);
    lemma_holds_split(b, o, p1 + p2 + p3, p4);
    lemma_holds_split(b, o, p1 + p2, p3);
    lemma_holds_split(b, o, p1, p2);
    lemma_i32_at(b, o, a.cash_in);
    lemma_i32_at(b, o + 4, a.cash_out);
    lemma_i32_at(b, o + 8, a.items_out);
    lemma_i32_at(b, o + 12, a.free_items_out);
    lemma_i32_at(b, o + 16, a.coins_refill[0]);
    lemma_i32_at(b, o + 20, a.coins_refill[1]);
    lemma_i32_at(b, o + 24, a.items_refill);
    assert(acc_at(b, o).coins_refill =~= a.coins_refill);
}

fn push_acc(v: &mut Vec<u8>, a: &Accounting)
    ensures
        final(v)@ == old(v)@ + acc_bytes(*a),
{
    let ghost v0 = v@;
    push_i32(v, a.cash_in);
    push_i32(v, a.cash_out);
    push_i32(v, a.items_out);
    push_i32(v, a.free_items_out);
    push_i32(v, a.coins_refill[0]);
    push_i32(v, a.coins_refill[1]);
    push_i32(v, a.items_refill);
    assert(v@ =~= v0 + acc_bytes(*a));
}

fn read_acc(b: &[u8], o: usize) -> (r: Accounting)
    requires
        o + 28 <= b@.len(),
    ensures
        r == acc_at(b@, o as int),
{
    reveal(acc_at);
    let _n = b.len();
    Accounting {
        cash_in: read_i32(b, o),
        cash_out: read_i32(b, o + 4),
        items_out: read_i32(b, o + 8),
        free_items_out: read_i32(b, o + 12),
        coins_refill: [read_i32(b, o + 16), read_i32(b, o + 20)],
        items_refill: read_i32(b, o + 24),
    }
}

// ── Logs ──────────────────────────────────────────────────────────────────

/// The transaction entries `q`, one after another.
pub open spec fn txs_bytes(q: Seq<TransactionEntry>) -> Seq<u8>
    decreases q.len(),
{
    if q.len() == 0 {
        seq![]
    } else {
        txs_bytes(q.drop_last()) + tx_bytes(q.last())
    }
}

/// The event entries `q`, one after another.
pub open spec fn evs_bytes(q: Seq<EventEntry>) -> Seq<u8>
    decreases q.len(),
{
    if q.len() == 0 {
        seq![]
    } else {
        evs_bytes(q.drop_last()) + ev_bytes(q.last())
    }
}

proof fn lemma_txs_holds(b: Seq<u8>, o: int, q: Seq<TransactionEntry>)
    requires
        holds_at(b, o, txs_bytes(q)),
    ensures
        txs_bytes(q).len() == 25 * q.len(),
        forall|k: int| 0 <= k < q.len() ==> #[trigger] tx_at(b, o + 25 * k) == q[k],
    decreases q.len(),
{
    if q.len() > 0 {
        let dl = q.drop_last();
        lemma_holds_split(b, o, txs_bytes(dl), tx_bytes(q.last()));
        lemma_txs_holds(b, o, dl);
        lemma_tx_at(b, o + 25 * dl.len(), q.last());
        assert forall|k: int| 0 <= k < q.len() implies #[trigger] tx_at(b, o + 25 * k) == q[k] by {
            if k < dl.len() {
                assert(dl[k] == q[k]);
            }
        }
    }
}

proof fn lemma_evs_holds(b: Seq<u8>, o: int, q: Seq<EventEntry>)
    requires
        holds_at(b, o, evs_bytes(q)),
    ensures
        evs_bytes(q).len() == 9 * q.len(),
        forall|k: int| 0 <= k < q.len() ==> #[trigger] ev_at(b, o + 9 * k) == q[k],
    decreases q.len(),
{
    if q.len() > 0 {
        let dl = q.drop_last();
        lemma_holds_split(b, o, evs_bytes(dl), ev_bytes(q.last()));
        lemma_evs_holds(b, o, dl);
        lemma_ev_at(b, o + 9 * dl.len(), q.last());
        assert forall|k: int| 0 <= k < q.len() implies #[trigger] ev_at(b, o + 9 * k) == q[k] by {
            if k < dl.len() {
                assert(dl[k] == q[k]);
            }
        }
    }
}

// ── The whole state ───────────────────────────────────────────────────────

/// Length of the state record, in bytes.
pub const STATE_RECORD_LEN: usize = 429;

/// The first 34 bytes: version, levels, cash, pending counts and phase.
pub open spec fn head_bytes(s: VendingStateData) -> Seq<u8> {
    seq![s.version] + i32_bytes(s.item_level) + i32_bytes(s.coin_levels[0]) + i32_bytes(
        s.coin_levels[1],
    ) + i32_bytes(s.cash) + i32_bytes(s.coins_pending[0]) + i32_bytes(s.coins_pending[1])
        + i32_bytes(s.items_pending) + i32_bytes(s.free_items_pending) + seq![
        phase_code(s.app_state),
    ]
}

/// The pending messages: four fault sets of 8 bytes.
pub open spec fn messages_bytes(s: VendingStateData) -> Seq<u8> {
    u64_bytes(s.messages_pending[0][0].bits) + u64_bytes(s.messages_pending[0][1].bits) + u64_bytes(
        s.messages_pending[1][0].bits,
    ) + u64_bytes(s.messages_pending[1][1].bits)
}

/// The state record: the head, the transaction log, the event log, the
/// overall and period accountings, the pending messages and the CRC field.
#[verifier::opaque]
pub open spec fn state_bytes(s: VendingStateData) -> Seq<u8> {
    head_bytes(s) + txs_bytes(s.transactions@) + evs_bytes(s.events@) + acc_bytes(
        s.overall_accounting,
    ) + acc_bytes(s.period_accounting) + messages_bytes(s) + u16_bytes(s.crc)
}

/// The state a record of `STATE_RECORD_LEN` bytes holds.
pub open spec fn state_at(b: Seq<u8>) -> VendingStateData {
    VendingStateData {
        version: b[0],
        item_level: i32_at(b, 1),
        coin_levels: [i32_at(b, 5), i32_at(b, 9)],
        cash: i32_at(b, 13),
        coins_pending: [i32_at(b, 17), i32_at(b, 21)],
        items_pending: i32_at(b, 25),
        free_items_pending: i32_at(b, 29),
        app_state: phase_of(b[33]),
        transactions: [tx_at(b, 34), tx_at(b, 59), tx_at(b, 84), tx_at(b, 109), tx_at(b, 134)],
        events: [
            ev_at(b, 159),
            ev_at(b, 168),
            ev_at(b, 177),
            ev_at(b, 186),
            ev_at(b, 195),
            ev_at(b, 204),
            ev_at(b, 213),
            ev_at(b, 222),
            ev_at(b, 231),
            ev_at(b, 240),
            ev_at(b, 249),
            ev_at(b, 258),
            ev_at(b, 267),
            ev_at(b, 276),
            ev_at(b, 285),
            ev_at(b, 294),
            ev_at(b, 303),
            ev_at(b, 312),
            ev_at(b, 321),
            ev_at(b, 330),
        ],
        overall_accounting: acc_at(b, 339),
        period_accounting: acc_at(b, 367),
        messages_pending: [
            [Errors { bits: u64_at(b, 395) }, Errors { bits: u64_at(b, 403) }],
            [Errors { bits: u64_at(b, 411) }, Errors { bits: u64_at(b, 419) }],
        ],
        crc: u16_at(b, 427),
    }
}

/// Where the parts of a state's record lie.
proof fn lemma_state_layout(s: VendingStateData)
    ensures
        state_bytes(s).len() == STATE_RECORD_LEN,
        holds_at(state_bytes(s), 0, head_bytes(s)),
        holds_at(state_bytes(s), 34, txs_bytes(s.transactions@)),
        holds_at(state_bytes(s), 159, evs_bytes(s.events@)),
        holds_at(state_bytes(s), 339, acc_bytes(s.overall_accounting)),
        holds_at(state_bytes(s), 367, acc_bytes(s.period_accounting)),
        holds_at(state_bytes(s), 395, messages_bytes(s)),
        holds_at(state_bytes(s), 427, u16_bytes(s.crc)),
{
    reveal(state_bytes);
    let b = state_bytes(s);
    assert(holds_at(b, 0, b)) by {
        assert forall|j: int| 0 <= j < b.len() implies #[trigger] b[0 + j] == b[j] by {}
    }
    let h = head_bytes(s);
    let t = txs_bytes(s.transactions@);
    let e = evs_bytes(s.events@);
    let a1 = acc_bytes(s.overall_accounting);
    let a2 = acc_bytes(s.period_accounting);
    let m = messages_bytes(s);
    let c = u16_bytes(s.crc);
    assert(h.len() == 34);
    assert(a1.len() == 28 && a2.len() == 28 && m.len() == 32 && c.len() == 2);
    lemma_txs_len(s.transactions@);
    lemma_evs_len(s.events@);
    lemma_holds_split(b, 0, h + t + e + a1 + a2 + m, c);
    lemma_holds_split(b, 0, h + t + e + a1 + a2, m);
    lemma_holds_split(b, 0, h + t + e + a1, a2);
    lemma_holds_split(b, 0, h + t + e, a1);
    lemma_holds_split(b, 0, h + t, e);
    lemma_holds_split(b, 0, h, t);
}

proof fn lemma_record_len(s: VendingStateData)
    ensures
        state_bytes(s).len() == STATE_RECORD_LEN,
{
    lemma_state_layout(s);
}

proof fn lemma_txs_len(q: Seq<TransactionEntry>)
    ensures
        txs_bytes(q).len() == 25 * q.len(),
    decreases q.len(),
{
    if q.len() > 0 {
        lemma_txs_len(q.drop_last());
    }
}

proof fn lemma_evs_len(q: Seq<EventEntry>)
    ensures
        evs_bytes(q).len() == 9 * q.len(),
    decreases q.len(),
{
    if q.len() > 0 {
        lemma_evs_len(q.drop_last());
    }
}

proof fn lemma_tx_index(b: Seq<u8>, o: int, q: Seq<TransactionEntry>, k: int)
    requires
        holds_at(b, o, txs_bytes(q)),
        0 <= k < q.len(),
    ensures
        tx_at(b, o + 25 * k) == q[k],
{
    lemma_txs_holds(b, o, q);
}

proof fn lemma_ev_index(b: Seq<u8>, o: int, q: Seq<EventEntry>, k: int)
    requires
        holds_at(b, o, evs_bytes(q)),
        0 <= k < q.len(),
    ensures
        ev_at(b, o + 9 * k) == q[k],
{
    lemma_evs_holds(b, o, q);
}

/// The log entries of a state's record read back as the state's entries.
#[verifier::rlimit(40)]
proof fn lemma_log_entries(s: VendingStateData)
    ensures
        tx_at(state_bytes(s), 34) == s.transactions[0],
        tx_at(state_bytes(s), 59) == s.transactions[1],
        tx_at(state_bytes(s), 84) == s.transactions[2],
        tx_at(state_bytes(s), 109) == s.transactions[3],
        tx_at(state_bytes(s), 134) == s.transactions[4],
        ev_at(state_bytes(s), 159) == s.events[0],
        ev_at(state_bytes(s), 168) == s.events[1],
        ev_at(state_bytes(s), 177) == s.events[2],
        ev_at(state_bytes(s), 186) == s.events[3],
        ev_at(state_bytes(s), 195) == s.events[4],
        ev_at(state_bytes(s), 204) == s.events[5],
        ev_at(state_bytes(s), 213) == s.events[6],
        ev_at(state_bytes(s), 222) == s.events[7],
        ev_at(state_bytes(s), 231) == s.events[8],
        ev_at(state_bytes(s), 240) == s.events[9],
        ev_at(state_bytes(s), 249) == s.events[10],
        ev_at(state_bytes(s), 258) == s.events[11],
        ev_at(state_bytes(s), 267) == s.events[12],
        ev_at(state_bytes(s), 276) == s.events[13],
        ev_at(state_bytes(s), 285) == s.events[14],
        ev_at(state_bytes(s), 294) == s.events[15],
        ev_at(state_bytes(s), 303) == s.events[16],
        ev_at(state_bytes(s), 312) == s.events[17],
        ev_at(state_bytes(s), 321) == s.events[18],
        ev_at(state_bytes(s), 330) == s.events[19],
{
    let b = state_bytes(s);
    lemma_state_layout(s);
    lemma_tx_index(b, 34, s.transactions@, 0);
    lemma_tx_index(b, 34, s.transactions@, 1);
    lemma_tx_index(b, 34, s.transactions@, 2);
    lemma_tx_index(b, 34, s.transactions@, 3);
    lemma_tx_index(b, 34, s.transactions@, 4);
    lemma_ev_index(b, 159, s.events@, 0);
    lemma_ev_index(b, 159, s.events@, 1);
    lemma_ev_index(b, 159, s.events@, 2);
    lemma_ev_index(b, 159, s.events@, 3);
    lemma_ev_index(b, 159, s.events@, 4);
    lemma_ev_index(b, 159, s.events@, 5);
    lemma_ev_index(b, 159, s.events@, 6);
    lemma_ev_index(b, 159, s.events@, 7);
    lemma_ev_index(b, 159, s.events@, 8);
    lemma_ev_index(b, 159, s.events@, 9);
    lemma_ev_index(b, 159, s.events@, 10);
    lemma_ev_index(b, 159, s.events@, 11);
    lemma_ev_index(b, 159, s.events@, 12);
    lemma_ev_index(b, 159, s.events@, 13);
    lemma_ev_index(b, 159, s.events@, 14);
    lemma_ev_index(b, 159, s.events@, 15);
    lemma_ev_index(b, 159, s.events@, 16);
    lemma_ev_index(b, 159, s.events@, 17);
    lemma_ev_index(b, 159, s.events@, 18);
    lemma_ev_index(b, 159, s.events@, 19);
}

/// The other fields of a state's record read back as the state's fields.
proof fn lemma_other_fields(s: VendingStateData)
    ensures
        ({
            let b = state_bytes(s);
            &&& b[0] == s.version
            &&& i32_at(b, 1) == s.item_level
            &&& i32_at(b, 5) == s.coin_levels[0]
            &&& i32_at(b, 9) == s.coin_levels[1]
            &&& i32_at(b, 13) == s.cash
            &&& i32_at(b, 17) == s.coins_pending[0]
            &&& i32_at(b, 21) == s.coins_pending[1]
            &&& i32_at(b, 25) == s.items_pending
            &&& i32_at(b, 29) == s.free_items_pending
            &&& phase_of(b[33]) == s.app_state
            &&& acc_at(b, 339) == s.overall_accounting
            &&& acc_at(b, 367) == s.period_accounting
            &&& u64_at(b, 395) == s.messages_pending[0][0].bits
            &&& u64_at(b, 403) == s.messages_pending[0][1].bits
            &&& u64_at(b, 411) == s.messages_pending[1][0].bits
            &&& u64_at(b, 419) == s.messages_pending[1][1].bits
            &&& u16_at(b, 427) == s.crc
        }),
{
    let b = state_bytes(s);
    lemma_state_layout(s);
    lemma_head(b, s);
    lemma_acc_at(b, 339, s.overall_accounting);
    lemma_acc_at(b, 367, s.period_accounting);
    lemma_messages(b, 395, s);
    lemma_u16_at(b, 427, s.crc);
}

/// A state read back from its record is the state written: the record is
/// `STATE_RECORD_LEN` bytes long and decodes to exactly the same state.
#[verifier::rlimit(40)]
pub proof fn lemma_record_round_trip(s: VendingStateData)
    ensures
        state_bytes(s).len() == STATE_RECORD_LEN,
        state_at(state_bytes(s)) == s,
{
    lemma_record_len(s);
    lemma_log_entries(s);
    lemma_other_fields(s);
    let r = state_at(state_bytes(s));
    assert forall|k: int| 0 <= k < 5 implies r.transactions[k] == s.transactions[k] by {
        if k == 0 { assert(r.transactions[0] == s.transactions[0]); }
        if k == 1 { assert(r.transactions[1] == s.transactions[1]); }
        if k == 2 { assert(r.transactions[2] == s.transactions[2]); }
        if k == 3 { assert(r.transactions[3] == s.transactions[3]); }
        if k == 4 { assert(r.transactions[4] == s.transactions[4]); }
    }
    assert forall|k: int| 0 <= k < 20 implies r.events[k] == s.events[k] by {
        if k == 0 { assert(r.events[0] == s.events[0]); }
        if k == 1 { assert(r.events[1] == s.events[1]); }
        if k == 2 { assert(r.events[2] == s.events[2]); }
        if k == 3 { assert(r.events[3] == s.events[3]); }
        if k == 4 { assert(r.events[4] == s.events[4]); }
        if k == 5 { assert(r.events[5] == s.events[5]); }
        if k == 6 { assert(r.events[6] == s.events[6]); }
        if k == 7 { assert(r.events[7] == s.events[7]); }
        if k == 8 { assert(r.events[8] == s.events[8]); }
        if k == 9 { assert(r.events[9] == s.events[9]); }
        if k == 10 { assert(r.events[10] == s.events[10]); }
        if k == 11 { assert(r.events[11] == s.events[11]); }
        if k == 12 { assert(r.events[12] == s.events[12]); }
        if k == 13 { assert(r.events[13] == s.events[13]); }
        if k == 14 { assert(r.events[14] == s.events[14]); }
        if k == 15 { assert(r.events[15] == s.events[15]); }
        if k == 16 { assert(r.events[16] == s.events[16]); }
        if k == 17 { assert(r.events[17] == s.events[17]); }
        if k == 18 { assert(r.events[18] == s.events[18]); }
        if k == 19 { assert(r.events[19] == s.events[19]); }
    }
    assert(r.transactions =~= s.transactions);
    assert(r.events =~= s.events);
    assert(r.coin_levels =~= s.coin_levels);
    assert(r.coins_pending =~= s.coins_pending);
    assert(r.messages_pending[0] =~= s.messages_pending[0]);
    assert(r.messages_pending[1] =~= s.messages_pending[1]);
    assert(r.messages_pending =~= s.messages_pending);
}

proof fn lemma_head(b: Seq<u8>, s: VendingStateData)
    requires
        holds_at(b, 0, head_bytes(s)),
    ensures
        b[0] == s.version,
        i32_at(b, 1) == s.item_level,
        i32_at(b, 5) == s.coin_levels[0],
        i32_at(b, 9) == s.coin_levels[1],
        i32_at(b, 13) == s.cash,
        i32_at(b, 17) == s.coins_pending[0],
        i32_at(b, 21) == s.coins_pending[1],
        i32_at(b, 25) == s.items_pending,
        i32_at(b, 29) == s.free_items_pending,
        phase_of(b[33]) == s.app_state,
{
    let p0 = seq![s.version];
    let p1 = i32_bytes(s.item_level);
    let p2 = i32_bytes(s.coin_levels[0]);
    let p3 = i32_bytes(s.coin_levels[1]);
    let p4 = i32_bytes(s.cash);
    let p5 = i32_bytes(s.coins_pending[0]);
    let p6 = i32_bytes(s.coins_pending[1]);
    let p7 = i32_bytes(s.items_pending);
    let p8 = i32_bytes(s.free_items_pending);
    let p9 = seq![phase_code(s.app_state)];
    lemma_holds_split(b, 0, p0 + p1 + p2 + p3 + p4 + p5 + p6 + p7 + p8, p9);
    lemma_holds_split(b, 0, p0 + p1 + p2 + p3 + p4 + p5 + p6 + p7, p8);
    lemma_holds_split(b, 0, p0 + p1 + p2 + p3 + p4 + p5 + p6, p7);
    lemma_holds_split(b, 0, p0 + p1 + p2 + p3 + p4 + p5, p6);
    lemma_holds_split(b, 0, p0 + p1 + p2 + p3 + p4, p5);
    lemma_holds_split(b, 0, p0 + p1 + p2 + p3, p4);
    lemma_holds_split(b, 0, p0 + p1 + p2, p3);
    lemma_holds_split(b, 0, p0 + p1, p2);
    lemma_holds_split(b, 0, p0, p1);
    assert(b[0int + 0] == p0[0]);
    assert(b[33int + 0] == p9[0]);
    lemma_i32_at(b, 1, s.item_level);
    lemma_i32_at(b, 5, s.coin_levels[0]);
    lemma_i32_at(b, 9, s.coin_levels[1]);
    lemma_i32_at(b, 13, s.cash);
    lemma_i32_at(b, 17, s.coins_pending[0]);
    lemma_i32_at(b, 21, s.coins_pending[1]);
    lemma_i32_at(b, 25, s.items_pending);
    lemma_i32_at(b, 29, s.free_items_pending);
}

proof fn lemma_messages(b: Seq<u8>, o: int, s: VendingStateData)
    requires
        holds_at(b, o, messages_bytes(s)),
    ensures
        u64_at(b, o) == s.messages_pending[0][0].bits,
        u64_at(b, o + 8) == s.messages_pending[0][1].bits,
        u64_at(b, o + 16) == s.messages_pending[1][0].bits,
        u64_at(b, o + 24) == s.messages_pending[1][1].bits,
{
    let p1 = u64_bytes(s.messages_pending[0][0].bits);
    let p2 = u64_bytes(s.messages_pending[0][1].bits);
    let p3 = u64_bytes(s.messages_pending[1][0].bits);
    let p4 = u64_bytes(s.messages_pending[1][1].bits);
    lemma_holds_split(b, o, p1 + p2 + p3, p4);
    lemma_holds_split(b, o, p1 + p2, p3);
    lemma_holds_split(b, o, p1, p2);
    lemma_u64_at(b, o, s.messages_pending[0][0].bits);
    lemma_u64_at(b, o + 8, s.messages_pending[0][1].bits);
    lemma_u64_at(b, o + 16, s.messages_pending[1][0].bits);
    lemma_u64_at(b, o + 24, s.messages_pending[1][1].bits);
}

/// The record of state `s` (see `state_bytes`).
pub fn encode_state(s: &VendingStateData) -> (r: Vec<u8>)
    ensures
        r@ == state_bytes(*s),
        r@.len() == STATE_RECORD_LEN,
{
    let mut v: Vec<u8> = Vec::new();
    push_u8(&mut v, s.version);
    push_i32(&mut v, s.item_level);
    push_i32(&mut v, s.coin_levels[0]);
    push_i32(&mut v, s.coin_levels[1]);
    push_i32(&mut v, s.cash);
    push_i32(&mut v, s.coins_pending[0]);
    push_i32(&mut v, s.coins_pending[1]);
    push_i32(&mut v, s.items_pending);
    push_i32(&mut v, s.free_items_pending);
    let c = s.app_state.code();
    assert(c == phase_code(s.app_state));
    push_u8(&mut v, c);
    let ghost head = v@;
    assert(head =~= head_bytes(*s));
    let mut i: usize = 0;
    while i < 5
        invariant
            i <= 5,
            v@ == head + txs_bytes(s.transactions@.take(i as int)),
        decreases 5 - i,
    {
        push_tx(&mut v, &s.transactions[i]);
        proof {
            let q = s.transactions@.take(i + 1);
            assert(q.drop_last() =~= s.transactions@.take(i as int));
            assert(q.last() == s.transactions[i as int]);
        }
        i = i + 1;
    }
    assert(s.transactions@.take(5) =~= s.transactions@);
    let ghost with_txs = v@;
    let mut k: usize = 0;
    while k < 20
        invariant
            k <= 20,
            v@ == with_txs + evs_bytes(s.events@.take(k as int)),
        decreases 20 - k,
    {
        push_ev(&mut v, &s.events[k]);
        proof {
            let q = s.events@.take(k + 1);
            assert(q.drop_last() =~= s.events@.take(k as int));
            assert(q.last() == s.events[k as int]);
        }
        k = k + 1;
    }
    assert(s.events@.take(20) =~= s.events@);
    let ghost with_logs = v@;
    push_acc(&mut v, &s.overall_accounting);
    push_acc(&mut v, &s.period_accounting);
    let ghost with_acc = v@;
    push_u64(&mut v, s.messages_pending[0][0].bits);
    push_u64(&mut v, s.messages_pending[0][1].bits);
    push_u64(&mut v, s.messages_pending[1][0].bits);
    push_u64(&mut v, s.messages_pending[1][1].bits);
    assert(v@ =~= with_acc + messages_bytes(*s));
    push_u16(&mut v, s.crc);
    proof {
        reveal(state_bytes);
        assert(v@ =~= state_bytes(*s));
        lemma_record_len(*s);
    }
    v
}

/// The state a record holds: `None` unless the record is exactly
/// `STATE_RECORD_LEN` bytes long; otherwise the state read field by field
/// (see `state_at`).
pub fn decode_state(b: &[u8]) -> (r: Option<VendingStateData>)
    ensures
        b@.len() != STATE_RECORD_LEN ==> r is None,
        b@.len() == STATE_RECORD_LEN ==> r == Some(state_at(b@)),
{
    if b.len() != STATE_RECORD_LEN {
        return None;
    }
    let t0 = read_tx(b, 34);
    let mut txs: [TransactionEntry; 5] = [t0, t0, t0, t0, t0];
    let mut i: usize = 1;
    while i < 5
        invariant
            b@.len() == STATE_RECORD_LEN,
            1 <= i <= 5,
            forall|j: int| 0 <= j < i ==> #[trigger] txs[j] == tx_at(b@, 34 + 25 * j),
        decreases 5 - i,
    {
        txs[i] = read_tx(b, 34 + 25 * i);
        i = i + 1;
    }
    let e0 = read_ev(b, 159);
    let mut evs: [EventEntry; 20] = [e0, e0, e0, e0, e0, e0, e0, e0, e0, e0, e0, e0, e0, e0, e0, e0, e0, e0, e0, e0];
    let mut k: usize = 1;
    while k < 20
        invariant
            b@.len() == STATE_RECORD_LEN,
            1 <= k <= 20,
            forall|j: int| 0 <= j < k ==> #[trigger] evs[j] == ev_at(b@, 159 + 9 * j),
        decreases 20 - k,
    {
        evs[k] = read_ev(b, 159 + 9 * k);
        k = k + 1;
    }
    let r = VendingStateData {
        version: b[0],
        item_level: read_i32(b, 1),
        coin_levels: [read_i32(b, 5), read_i32(b, 9)],
        cash: read_i32(b, 13),
        coins_pending: [read_i32(b, 17), read_i32(b, 21)],
        items_pending: read_i32(b, 25),
        free_items_pending: read_i32(b, 29),
        app_state: phase_from_code(b[33]),
        transactions: txs,
        events: evs,
        overall_accounting: read_acc(b, 339),
        period_accounting: read_acc(b, 367),
        messages_pending: [
            [Errors { bits: read_u64(b, 395) }, Errors { bits: read_u64(b, 403) }],
            [Errors { bits: read_u64(b, 411) }, Errors { bits: read_u64(b, 419) }],
        ],
        crc: read_u16(b, 427),
    };
    proof {
        let w = state_at(b@);
        assert(r.transactions =~= w.transactions) by {
            assert(txs[0] == tx_at(b@, 34int + 25 * 0));
            assert(txs[1] == tx_at(b@, 34int + 25 * 1));
            assert(txs[2] == tx_at(b@, 34int + 25 * 2));
            assert(txs[3] == tx_at(b@, 34int + 25 * 3));
            assert(txs[4] == tx_at(b@, 34int + 25 * 4));
        }
        assert(r.events =~= w.events) by {
            assert(evs[0] == ev_at(b@, 159int + 9 * 0));
            assert(evs[1] == ev_at(b@, 159int + 9 * 1));
            assert(evs[2] == ev_at(b@, 159int + 9 * 2));
            assert(evs[3] == ev_at(b@, 159int + 9 * 3));
            assert(evs[4] == ev_at(b@, 159int + 9 * 4));
            assert(evs[5] == ev_at(b@, 159int + 9 * 5));
            assert(evs[6] == ev_at(b@, 159int + 9 * 6));
            assert(evs[7] == ev_at(b@, 159int + 9 * 7));
            assert(evs[8] == ev_at(b@, 159int + 9 * 8));
            assert(evs[9] == ev_at(b@, 159int + 9 * 9));
            assert(evs[10] == ev_at(b@, 159int + 9 * 10));
            assert(evs[11] == ev_at(b@, 159int + 9 * 11));
            assert(evs[12] == ev_at(b@, 159int + 9 * 12));
            assert(evs[13] == ev_at(b@, 159int + 9 * 13));
            assert(evs[14] == ev_at(b@, 159int + 9 * 14));
            assert(evs[15] == ev_at(b@, 159int + 9 * 15));
            assert(evs[16] == ev_at(b@, 159int + 9 * 16));
            assert(evs[17] == ev_at(b@, 159int + 9 * 17));
            assert(evs[18] == ev_at(b@, 159int + 9 * 18));
            assert(evs[19] == ev_at(b@, 159int + 9 * 19));
        }
        assert(r.coin_levels =~= w.coin_levels);
        assert(r.coins_pending =~= w.coins_pending);
        assert(r.messages_pending[0] =~= w.messages_pending[0]);
        assert(r.messages_pending[1] =~= w.messages_pending[1]);
        assert(r.messages_pending =~= w.messages_pending);
    }
    Some(r)
}

} // verus!
