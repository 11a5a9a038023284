use bahilizator::event::{
    close_transaction, format_event, log_event, open_transaction, EventEntry, EventInfo, EventKind,
    EventRing, TransactionEntry,
};
use bahilizator::text::{push_dec, push_hex, push_hex2, push_i32, push_int, string_of, text_of_bytes};

#[test]
fn numbers_as_text() {
    let mut s = String::new();
    push_dec(&mut s, 0);
    push_str_sep(&mut s);
    push_dec(&mut s, u64::MAX);
    push_str_sep(&mut s);
    push_i32(&mut s, i32::MIN);
    push_str_sep(&mut s);
    push_int(&mut s, -7);
    push_str_sep(&mut s);
    push_hex(&mut s, 0xBEEF);
    push_str_sep(&mut s);
    push_hex2(&mut s, 0x0A);
    assert_eq!(s, "0|18446744073709551615|-2147483648|-7|BEEF|0A");
    assert_eq!(string_of("abc"), "abc");
    assert_eq!(text_of_bytes(&[0xD0, 0x96]), "Ж");
    assert_eq!(text_of_bytes(&[0xD0]), "");
}

fn push_str_sep(s: &mut String) {
    s.push('|');
}

#[test]
fn event_texts() {
    let e = |kind, p1, p2| EventEntry { timestamp: 0, kind, info: EventInfo { param1: p1, param2: p2 } };
    assert_eq!(format_event(&e(EventKind::CoinIn, 2, 50)), "Coin ch2 v50");
    assert_eq!(format_event(&e(EventKind::DoorOpen, 0, 0)), "Door 1 open");
    assert_eq!(format_event(&e(EventKind::DoorClose, 65535, 0)), "Door 65536 close");
    assert_eq!(format_event(&e(EventKind::IbuttonKey, 0x1AB2, 0)), "iBtn 1AB2..");
    assert_eq!(format_event(&e(EventKind::CoinsRefill, 1, 30)), "Coins ref H1:30");
    assert_eq!(format_event(&e(EventKind::Empty, 0, 0)), "---");
}

#[test]
fn ring_keeps_the_newest() {
    let mut r = EventRing::new();
    assert_eq!(r.count(), 0);
    for i in 0..40u16 {
        r.push(EventKind::CoinIn, EventInfo { param1: i, param2: 0 }, i as u32);
    }
    assert_eq!(r.count(), 32);
    let last = r.get_last(3);
    assert_eq!(last.len(), 3);
    assert_eq!(last[0].info.param1, 39);
    assert_eq!(last[2].info.param1, 37);
    assert_eq!(r.get_last(100).len(), 32);
    r.clear();
    assert_eq!(r.count(), 0);
}

#[test]
fn logs_are_newest_first() {
    let mut events = [EventEntry::empty(); 3];
    log_event(&mut events, EventKind::PowerFail, EventInfo { param1: 0, param2: 0 }, 5);
    log_event(&mut events, EventKind::GsmError, EventInfo { param1: 1, param2: 0 }, 6);
    assert_eq!(events[0].kind, EventKind::GsmError);
    assert_eq!(events[1].kind, EventKind::PowerFail);
    assert_eq!(events[2].kind, EventKind::Empty);
    let mut t = [TransactionEntry::empty(); 3];
    open_transaction(&mut t, 100, 20, 1, 7);
    assert_eq!(t[0].cash_in, 100);
    close_transaction(&mut t, 9);
    assert_eq!(t[0].timestamp, 9);
    assert!(!t[0].closed);
    assert_eq!(t[1].cash_in, 100);
    assert!(t[1].closed);
    let mut busy = [TransactionEntry::empty(); 3];
    for (k, e) in busy.iter_mut().enumerate() {
        e.timestamp = 10 + k as u32;
    }
    open_transaction(&mut busy, 5, 0, 1, 99);
    assert_eq!(busy[2].timestamp, 99);
    assert_eq!(busy[0].timestamp, 10);
    assert_eq!(EventKind::CoinIn.code(), 1);
}
