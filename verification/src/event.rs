//! Event and transaction logs.
//!
//! `EventRing` keeps the most recent `EVENT_RING_SIZE` events; the fixed
//! arrays of the persistent state are kept newest-first by shifting.

use vstd::prelude::*;
use vstd::utf8::is_ascii_chars;

use crate::error::Errors;
use crate::state::{Cash, Level, Timestamp};
use crate::fixed::{events32, events32_of, text32, text32_of};
use crate::text::{
    dec_chars, hex2_chars, lemma_ascii_bytes, lemma_ascii_concat, lemma_hex2_ascii, lemma_short_dec,
    push_char, push_dec, push_hex2, push_str,
};

verus! {

/// Capacity of the event ring.
pub const EVENT_RING_SIZE: usize = 32;

/// One entry of the transaction log.
#[derive(Debug, Clone, Copy, PartialEq, Eq, Structural)]
pub struct TransactionEntry {
    pub timestamp: Timestamp,
    pub cash_in: Cash,
    pub cash_out: Cash,
    pub items_out: Level,
    pub errors: Errors,
    pub closed: bool,
}

impl TransactionEntry {
    /// An open transaction started at `timestamp` with every amount zero.
    pub open spec fn started(timestamp: Timestamp) -> TransactionEntry {
        TransactionEntry {
            timestamp,
            cash_in: 0,
            cash_out: 0,
            items_out: 0,
            errors: Errors { bits: 0 },
            closed: false,
        }
    }

    /// The entry of a never used slot.
    pub open spec fn is_empty(self) -> bool {
        self == TransactionEntry::started(0)
    }

    /// The entry of a never used slot.
    pub fn empty() -> (r: TransactionEntry)
        ensures
            r.is_empty(),
    {
        TransactionEntry::start(0)
    }

    /// An open transaction started at `timestamp` with every amount zero.
    pub fn start(timestamp: Timestamp) -> (r: TransactionEntry)
        ensures
            r == TransactionEntry::started(timestamp),
    {
        TransactionEntry {
            timestamp,
            cash_in: 0,
            cash_out: 0,
            items_out: 0,
            errors: Errors::empty(),
            closed: false,
        }
    }
}

/// Kind of a logged event.
#[derive(Debug, Clone, Copy, PartialEq, Eq, Structural)]
pub enum EventKind {
    Empty,
    CoinIn,
    ItemDispensed,
    HopperError,
    DoorOpen,
    DoorClose,
    PowerFail,
    GsmError,
    IbuttonKey,
    FreeItemDispensed,
    ErrorCleared,
    SettingsChanged,
    GsmSmsSent,
    GsmSmsReceived,
    CoinsRefill,
    ItemsRefill,
}

impl EventKind {
    /// Numeric code of the kind as stored in the log.
    pub fn code(&self) -> (r: u8)
        ensures
            *self == EventKind::Empty ==> r == 0,
            *self == EventKind::CoinIn ==> r == 1,
            *self == EventKind::ItemDispensed ==> r == 2,
            *self == EventKind::HopperError ==> r == 3,
            *self == EventKind::ErrorCleared ==> r == 4,
            *self == EventKind::SettingsChanged ==> r == 5,
            *self == EventKind::DoorOpen ==> r == 6,
            *self == EventKind::DoorClose ==> r == 7,
            *self == EventKind::PowerFail ==> r == 8,
            *self == EventKind::GsmError ==> r == 10,
            *self == EventKind::IbuttonKey ==> r == 12,
            *self == EventKind::FreeItemDispensed ==> r == 14,
            *self == EventKind::GsmSmsSent ==> r == 15,
            *self == EventKind::GsmSmsReceived ==> r == 16,
            *self == EventKind::CoinsRefill ==> r == 17,
            *self == EventKind::ItemsRefill ==> r == 18,
    {
        match self {
            EventKind::Empty => 0,
            EventKind::CoinIn => 1,
            EventKind::ItemDispensed => 2,
            EventKind::HopperError => 3,
            EventKind::ErrorCleared => 4,
            EventKind::SettingsChanged => 5,
            EventKind::DoorOpen => 6,
            EventKind::DoorClose => 7,
            EventKind::PowerFail => 8,
            EventKind::GsmError => 10,
            EventKind::IbuttonKey => 12,
            EventKind::FreeItemDispensed => 14,
            EventKind::GsmSmsSent => 15,
            EventKind::GsmSmsReceived => 16,
            EventKind::CoinsRefill => 17,
            EventKind::ItemsRefill => 18,
        }
    }
}

/// Two parameters of an event (channel, hopper, door, value, count...).
#[derive(Debug, Clone, Copy, PartialEq, Eq, Structural)]
pub struct EventInfo {
    pub param1: u16,
    pub param2: u16,
}

/// One logged event.
#[derive(Debug, Clone, Copy, PartialEq, Eq, Structural)]
pub struct EventEntry {
    pub timestamp: Timestamp,
    pub kind: EventKind,
    pub info: EventInfo,
}

impl EventEntry {
    /// The entry of a never used slot.
    pub fn empty() -> (r: EventEntry)
        ensures
            r.kind == EventKind::Empty,
            r.timestamp == 0,
            r.info == (EventInfo { param1: 0, param2: 0 }),
    {
        EventEntry { timestamp: 0, kind: EventKind::Empty, info: EventInfo { param1: 0, param2: 0 } }
    }
}

/// What a ring of capacity `EVENT_RING_SIZE` holds after `e` is added to
/// the contents `s`: the oldest entry is dropped when the ring is full.
pub open spec fn ring_push(s: Seq<EventEntry>, e: EventEntry) -> Seq<EventEntry> {
    if s.len() < EVENT_RING_SIZE {
        s.push(e)
    } else {
        s.drop_first().push(e)
    }
}

/// A ring that holds at most 32 events still does after a push, the pushed
/// event is the newest, and the events before it are the newest of those
/// held before, in their order.
pub proof fn lemma_ring_push_keeps_newest(s: Seq<EventEntry>, e: EventEntry)
    requires
        s.len() <= EVENT_RING_SIZE,
    ensures
        ring_push(s, e).len() <= EVENT_RING_SIZE,
        ring_push(s, e).last() == e,
        ring_push(s, e).drop_last() == s.skip(s.len() + 1 - ring_push(s, e).len()),
{
    if s.len() < EVENT_RING_SIZE {
        assert(s.push(e).drop_last() =~= s.skip(0));
    } else {
        assert(s.drop_first().push(e).drop_last() =~= s.skip(1));
    }
}

/// Fixed-size ring of the most recent events.
pub struct EventRing {
    buf: [EventEntry; EVENT_RING_SIZE],
    head: usize,
    count: usize,
}

impl EventRing {
    #[verifier::type_invariant]
    spec fn wf(self) -> bool {
        &&& self.head < EVENT_RING_SIZE
        &&& self.count <= EVENT_RING_SIZE
    }

    /// Stored events, oldest first.
    pub closed spec fn contents(self) -> Seq<EventEntry> {
        Seq::new(
            self.count as nat,
            |i: int| self.buf@[(self.head + EVENT_RING_SIZE - self.count + i) % (EVENT_RING_SIZE as int)],
        )
    }

    /// An empty ring.
    pub fn new() -> (r: EventRing)
        ensures
            r.contents() == Seq::<EventEntry>::empty(),
            r.contents().len() <= EVENT_RING_SIZE,
    {
        let e = EventEntry::empty();
        let r = EventRing {
            buf: [e, e, e, e, e, e, e, e, e, e, e, e, e, e, e, e, e, e, e, e, e, e, e, e, e, e, e, e, e, e, e, e],
            head: 0,
            count: 0,
        };
        assert(r.contents() =~= Seq::<EventEntry>::empty());
        r
    }

    /// Adds an event; when the ring is full the oldest event is overwritten.
    pub fn push(&mut self, kind: EventKind, info: EventInfo, timestamp: Timestamp)
        ensures
            final(self).contents() == ring_push(
                old(self).contents(),
                EventEntry { timestamp, kind, info },
            ),
            final(self).contents().len() <= EVENT_RING_SIZE,
    {
        proof {
            use_type_invariant(&*self);
        }
        let ghost old_s = self.contents();
        let ghost h = self.head as int;
        let ghost c = self.count as int;
        let e = EventEntry { timestamp, kind, info };
        let idx = self.head;
        self.buf[idx] = e;
        self.head = (self.head + 1) % EVENT_RING_SIZE;
        if self.count < EVENT_RING_SIZE {
            self.count = self.count + 1;
        }
        proof {
            let new_s = self.contents();
            let exp = ring_push(old_s, e);
            assert(new_s.len() == exp.len());
            assert forall|i: int| 0 <= i < new_s.len() implies new_s[i] == exp[i] by {
                if c < 32 {
                    if i < c {
                        assert((h + 32 - c + i) % 32 != h);
                        assert(((h + 1) % 32 + 32 - (c + 1) + i) % 32 == (h + 32 - c + i) % 32);
                    } else {
                        assert(((h + 1) % 32 + 32 - (c + 1) + i) % 32 == h);
                    }
                } else {
                    if i < 31 {
                        assert(((h + 1) % 32 + 32 - 32 + i) % 32 == (h + 32 - 32 + (i + 1)) % 32);
                        assert((h + 32 - 32 + (i + 1)) % 32 != h);
                    } else {
                        assert(((h + 1) % 32 + 32 - 32 + i) % 32 == h);
                    }
                }
            }
            assert(new_s =~= exp);
        }
    }

    /// The last `n` events (at most the number stored), newest first.
    pub fn get_last(&self, n: usize) -> (r: heapless::Vec<EventEntry, EVENT_RING_SIZE>)
        ensures
            events32(r).len() == if n < self.contents().len() {
                n as int
            } else {
                self.contents().len() as int
            },
            forall|i: int|
                0 <= i < events32(r).len() ==> events32(r)[i] == self.contents()[self.contents().len()
                    - 1 - i],
    {
        proof {
            use_type_invariant(self);
        }
        let mut result: Vec<EventEntry> = Vec::new();
        let actual_n = if n < self.count {
            n
        } else {
            self.count
        };
        let mut i: usize = 0;
        while i < actual_n
            invariant
                self.head < EVENT_RING_SIZE,
                self.count <= EVENT_RING_SIZE,
                actual_n <= self.count,
                i <= actual_n,
                result@.len() == i,
                forall|j: int|
                    0 <= j < i ==> result@[j] == self.contents()[self.contents().len() - 1 - j],
            decreases actual_n - i,
        {
            let idx = (self.head + EVENT_RING_SIZE - 1 - i) % EVENT_RING_SIZE;
            proof {
                let c = self.count as int;
                assert((self.head + 32 - c + (c - 1 - i)) % 32 == idx);
            }
            result.push(self.buf[idx]);
            i = i + 1;
        }
        events32_of(result.as_slice())
    }

    /// Number of stored events.
    pub fn count(&self) -> (r: usize)
        ensures
            r == self.contents().len(),
            r <= EVENT_RING_SIZE,
    {
        proof {
            use_type_invariant(self);
        }
        self.count
    }

    /// Forgets every stored event.
    pub fn clear(&mut self)
        ensures
            final(self).contents() == Seq::<EventEntry>::empty(),
            final(self).contents().len() <= EVENT_RING_SIZE,
    {
        proof {
            use_type_invariant(&*self);
        }
        self.head = 0;
        self.count = 0;
        assert(self.contents() =~= Seq::<EventEntry>::empty());
    }
}

/// Adding an event to a ring keeps at most `EVENT_RING_SIZE` events, the
/// newest of which is the added one, and all earlier events keep their
/// order.
pub proof fn lemma_ring_push(s: Seq<EventEntry>, e: EventEntry)
    requires
        s.len() <= EVENT_RING_SIZE,
    ensures
        ring_push(s, e).len() == if s.len() < EVENT_RING_SIZE {
            s.len() + 1
        } else {
            EVENT_RING_SIZE as nat
        },
        ring_push(s, e).last() == e,
        forall|i: int|
            0 <= i < ring_push(s, e).len() - 1 ==> ring_push(s, e)[i] == s[i + s.len() + 1
                - ring_push(s, e).len()],
{
}

/// Short text of an event.
pub open spec fn event_text(e: EventEntry) -> Seq<char> {
    let p1 = e.info.param1 as nat;
    let p2 = e.info.param2 as nat;
    match e.kind {
        EventKind::CoinIn => "Coin ch"@ + dec_chars(p1) + " v"@ + dec_chars(p2),
        EventKind::ItemDispensed => "Item out:"@ + dec_chars(p1),
        EventKind::FreeItemDispensed => "Free item:"@ + dec_chars(p1),
        EventKind::HopperError => "Hopper err:"@ + dec_chars(p1),
        EventKind::DoorOpen => "Door "@ + dec_chars(p1 + 1) + " open"@,
        EventKind::DoorClose => "Door "@ + dec_chars(p1 + 1) + " close"@,
        EventKind::PowerFail => "Power fail"@,
        EventKind::GsmError => "GSM err:"@ + dec_chars(p1),
        EventKind::IbuttonKey => "iBtn "@ + hex2_chars((e.info.param1 / 256) as u8) + hex2_chars(
            (e.info.param1 % 256) as u8,
        ) + ".."@,
        EventKind::ErrorCleared => "Err cleared"@,
        EventKind::SettingsChanged => "Settings chg"@,
        EventKind::GsmSmsSent => "SMS sent"@,
        EventKind::GsmSmsReceived => "SMS recv"@,
        EventKind::CoinsRefill => "Coins ref H"@ + dec_chars(p1) + ":"@ + dec_chars(p2),
        EventKind::ItemsRefill => "Items ref:"@ + dec_chars(p1),
        EventKind::Empty => "---"@,
    }
}

/// Formats an event as a short line of at most 32 bytes.
pub fn format_event(event: &EventEntry) -> (r: heapless::String<32>)
    ensures
        text32(r) == event_text(*event),
{
    let s = event_string(event);
    proof {
        lemma_event_text_fits(*event);
        lemma_ascii_bytes(event_text(*event));
    }
    text32_of(s.as_str())
}

/// `lit` then the decimal text of `v` (at most 65536) is ASCII of at most
/// `lit.len() + 5` characters.
proof fn lemma_lit_dec(lit: Seq<char>, v: nat)
    requires
        is_ascii_chars(lit),
        v <= 65536,
    ensures
        is_ascii_chars(lit + dec_chars(v)),
        (lit + dec_chars(v)).len() <= lit.len() + 5,
{
    lemma_short_dec(v);
    lemma_ascii_concat(lit, dec_chars(v));
}

/// Every event line is ASCII of at most 32 characters.
proof fn lemma_event_text_fits(e: EventEntry)
    ensures
        is_ascii_chars(event_text(e)),
        event_text(e).len() <= 32,
{
    let p1 = e.info.param1 as nat;
    let p2 = e.info.param2 as nat;
    match e.kind {
        EventKind::CoinIn => {
            reveal_strlit("Coin ch");
            reveal_strlit(" v");
            lemma_lit_dec("Coin ch"@, p1);
            lemma_ascii_concat("Coin ch"@ + dec_chars(p1), " v"@);
            lemma_lit_dec("Coin ch"@ + dec_chars(p1) + " v"@, p2);
        },
        EventKind::ItemDispensed => {
            reveal_strlit("Item out:");
            lemma_lit_dec("Item out:"@, p1);
        },
        EventKind::FreeItemDispensed => {
            reveal_strlit("Free item:");
            lemma_lit_dec("Free item:"@, p1);
        },
        EventKind::HopperError => {
            reveal_strlit("Hopper err:");
            lemma_lit_dec("Hopper err:"@, p1);
        },
        EventKind::DoorOpen => {
            reveal_strlit("Door ");
            reveal_strlit(" open");
            lemma_lit_dec("Door "@, p1 + 1);
            lemma_ascii_concat("Door "@ + dec_chars(p1 + 1), " open"@);
        },
        EventKind::DoorClose => {
            reveal_strlit("Door ");
            reveal_strlit(" close");
            lemma_lit_dec("Door "@, p1 + 1);
            lemma_ascii_concat("Door "@ + dec_chars(p1 + 1), " close"@);
        },
        EventKind::PowerFail => {
            reveal_strlit("Power fail");
        },
        EventKind::GsmError => {
            reveal_strlit("GSM err:");
            lemma_lit_dec("GSM err:"@, p1);
        },
        EventKind::IbuttonKey => {
            reveal_strlit("iBtn ");
            reveal_strlit("..");
            let a = hex2_chars((e.info.param1 / 256) as u8);
            let b = hex2_chars((e.info.param1 % 256) as u8);
            lemma_hex2_ascii((e.info.param1 / 256) as u8);
            lemma_hex2_ascii((e.info.param1 % 256) as u8);
            lemma_ascii_concat("iBtn "@, a);
            lemma_ascii_concat("iBtn "@ + a, b);
            lemma_ascii_concat("iBtn "@ + a + b, ".."@);
        },
        EventKind::ErrorCleared => {
            reveal_strlit("Err cleared");
        },
        EventKind::SettingsChanged => {
            reveal_strlit("Settings chg");
        },
        EventKind::GsmSmsSent => {
            reveal_strlit("SMS sent");
        },
        EventKind::GsmSmsReceived => {
            reveal_strlit("SMS recv");
        },
        EventKind::CoinsRefill => {
            reveal_strlit("Coins ref H");
            reveal_strlit(":");
            lemma_lit_dec("Coins ref H"@, p1);
            lemma_ascii_concat("Coins ref H"@ + dec_chars(p1), ":"@);
            lemma_lit_dec("Coins ref H"@ + dec_chars(p1) + ":"@, p2);
        },
        EventKind::ItemsRefill => {
            reveal_strlit("Items ref:");
            lemma_lit_dec("Items ref:"@, p1);
        },
        EventKind::Empty => {
            reveal_strlit("---");
        },
    }
}

fn event_string(event: &EventEntry) -> (r: String)
    ensures
        r@ == event_text(*event),
{
    let mut s = String::new();
    let p1 = event.info.param1 as u64;
    let p2 = event.info.param2 as u64;
    match event.kind {
        EventKind::CoinIn => {
            push_str(&mut s, "Coin ch");
            push_dec(&mut s, p1);
            push_str(&mut s, " v");
            push_dec(&mut s, p2);
        },
        EventKind::ItemDispensed => {
            push_str(&mut s, "Item out:");
            push_dec(&mut s, p1);
        },
        EventKind::FreeItemDispensed => {
            push_str(&mut s, "Free item:");
            push_dec(&mut s, p1);
        },
        EventKind::HopperError => {
            push_str(&mut s, "Hopper err:");
            push_dec(&mut s, p1);
        },
        EventKind::DoorOpen => {
            push_str(&mut s, "Door ");
            push_dec(&mut s, event.info.param1 as u64 + 1);
            push_str(&mut s, " open");
        },
        EventKind::DoorClose => {
            push_str(&mut s, "Door ");
            push_dec(&mut s, event.info.param1 as u64 + 1);
            push_str(&mut s, " close");
        },
        EventKind::PowerFail => {
            push_str(&mut s, "Power fail");
        },
        EventKind::GsmError => {
            push_str(&mut s, "GSM err:");
            push_dec(&mut s, p1);
        },
        EventKind::IbuttonKey => {
            push_str(&mut s, "iBtn ");
            push_hex2(&mut s, (event.info.param1 >> 8) as u8);
            push_hex2(&mut s, (event.info.param1 & 0xFF) as u8);
            push_str(&mut s, "..");
            proof {
                let v = event.info.param1;
                assert(v >> 8 == v / 256) by (bit_vector);
                assert(v & 0xFF == v % 256) by (bit_vector);
            }
        },
        EventKind::ErrorCleared => {
            push_str(&mut s, "Err cleared");
        },
        EventKind::SettingsChanged => {
            push_str(&mut s, "Settings chg");
        },
        EventKind::GsmSmsSent => {
            push_str(&mut s, "SMS sent");
        },
        EventKind::GsmSmsReceived => {
            push_str(&mut s, "SMS recv");
        },
        EventKind::CoinsRefill => {
            push_str(&mut s, "Coins ref H");
            push_dec(&mut s, p1);
            push_char(&mut s, ':');
            push_dec(&mut s, p2);
        },
        EventKind::ItemsRefill => {
            push_str(&mut s, "Items ref:");
            push_dec(&mut s, p1);
        },
        EventKind::Empty => {
            push_str(&mut s, "---");
        },
    }
    proof {
        reveal_strlit(":");
    }
    assert(s@ =~= event_text(*event));
    s
}

/// Inserts an event at the front of a newest-first log, dropping the
/// oldest entry.
pub fn log_event(events: &mut [EventEntry], kind: EventKind, info: EventInfo, timestamp: Timestamp)
    requires
        old(events)@.len() >= 1,
    ensures
        final(events)@ == seq![EventEntry { timestamp, kind, info }] + old(events)@.take(
            old(events)@.len() - 1,
        ),
{
    let len = events.len();
    let mut i = len - 1;
    while i > 0
        invariant
            events@.len() == len,
            len == old(events)@.len(),
            i < len,
            forall|j: int| 0 <= j <= i ==> events@[j] == old(events)@[j],
            forall|j: int| i < j < len ==> events@[j] == old(events)@[j - 1],
        decreases i,
    {
        let prev = events[i - 1];
        events[i] = prev;
        i = i - 1;
    }
    events[0] = EventEntry { timestamp, kind, info };
    assert(events@ =~= seq![EventEntry { timestamp, kind, info }] + old(events)@.take(len - 1));
}

/// The log entry `t`, closed.
pub open spec fn closed_entry(t: TransactionEntry) -> TransactionEntry {
    TransactionEntry { closed: true, ..t }
}

/// The log after a transaction is closed: a fresh entry at `timestamp` in
/// front, then the closed current entry and the older ones, the oldest
/// dropped.
pub open spec fn after_close(t: Seq<TransactionEntry>, timestamp: Timestamp) -> Seq<
    TransactionEntry,
> {
    if t.len() >= 2 {
        seq![TransactionEntry::started(timestamp), closed_entry(t[0])] + t.subrange(1, t.len() - 1)
    } else {
        seq![TransactionEntry::started(timestamp)]
    }
}

/// Closes the current transaction and starts a fresh one: the log is
/// shifted back by one (the oldest entry dropped), the current entry, now
/// second, is marked closed, and a fresh entry at `timestamp` takes the
/// front.
pub fn close_transaction(transactions: &mut [TransactionEntry], timestamp: Timestamp)
    requires
        old(transactions)@.len() >= 1,
    ensures
        final(transactions)@ == after_close(old(transactions)@, timestamp),
{
    let len = transactions.len();
    let mut i = len - 1;
    while i > 0
        invariant
            transactions@.len() == len,
            len == old(transactions)@.len(),
            i < len,
            forall|j: int| 0 <= j <= i ==> transactions@[j] == old(transactions)@[j],
            forall|j: int| i < j < len ==> transactions@[j] == old(transactions)@[j - 1],
        decreases i,
    {
        let prev = transactions[i - 1];
        transactions[i] = prev;
        i = i - 1;
    }
    if len > 1 {
        let mut current = transactions[1];
        current.closed = true;
        transactions[1] = current;
    }
    transactions[0] = TransactionEntry::start(timestamp);
    assert(transactions@ =~= after_close(old(transactions)@, timestamp));
}

/// A slot a new transaction may take: closed or never used.
pub open spec fn is_free_slot(t: TransactionEntry) -> bool {
    t.closed || t.timestamp == 0
}

/// The first free slot at or after `i`, or the last (oldest) slot when
/// there is none.
pub open spec fn first_free_from(t: Seq<TransactionEntry>, i: int) -> int
    decreases t.len() - i,
{
    if i < 0 || i >= t.len() {
        t.len() - 1
    } else if is_free_slot(t[i]) {
        i
    } else {
        first_free_from(t, i + 1)
    }
}

/// The slot a new transaction goes to: the first closed or never used
/// (zero timestamp) entry, or the last, oldest entry when there is none.
pub open spec fn open_slot(t: Seq<TransactionEntry>) -> int {
    first_free_from(t, 0)
}

/// Records a transaction in the first free slot.
pub fn open_transaction(
    transactions: &mut [TransactionEntry],
    cash_in: Cash,
    cash_out: Cash,
    items_out: Level,
    timestamp: Timestamp,
)
    requires
        old(transactions)@.len() >= 1,
    ensures
        final(transactions)@ == old(transactions)@.update(
            open_slot(old(transactions)@),
            TransactionEntry {
                timestamp,
                cash_in,
                cash_out,
                items_out,
                errors: Errors { bits: 0 },
                closed: false,
            },
        ),
{
    let len = transactions.len();
    let mut idx: usize = len - 1;
    let mut i: usize = 0;
    while i < len
        invariant_except_break
            len == transactions@.len(),
            len >= 1,
            i <= len,
            idx == len - 1,
            open_slot(transactions@) == first_free_from(transactions@, i as int),
        ensures
            idx < len,
            (idx as int) == open_slot(transactions@),
        decreases len - i,
    {
        if transactions[i].closed || transactions[i].timestamp == 0 {
            idx = i;
            break;
        }
        i = i + 1;
    }
    transactions[idx] = TransactionEntry {
        timestamp,
        cash_in,
        cash_out,
        items_out,
        errors: Errors::empty(),
        closed: false,
    };
}

} // verus!
