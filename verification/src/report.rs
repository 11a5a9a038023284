//! Texts of the SMS reports.
//!
//! Every report fits one SMS of 160 characters (`lemma_report_fits_sms`).

use vstd::prelude::*;
use vstd::utf8::is_ascii_chars;

use crate::error::Errors;
use crate::state::{Accounting, MessageKind, VendingState};
use crate::fixed::{text160, text160_of};
use crate::text::{
    hex_chars, int_chars, lemma_ascii_bytes, lemma_ascii_concat, lemma_hex_chars_ascii,
    lemma_hex_chars_len, lemma_int_chars_ascii, lemma_int_chars_len, push_hex, push_i32, push_str,
    string_of,
};

verus! {

/// Length limit of an SMS text.
pub const SMS_MAX_LEN: usize = 160;

/// Text of one hopper level: `H<n>:<level> `.
pub open spec fn hopper_level_text(n: int, level: i32) -> Seq<char> {
    "H"@ + int_chars(n) + ":"@ + int_chars(level as int) + " "@
}

/// State report: `ID:<id> Item:<items> H1:<a> H2:<b> Cash:<cash> ` then
/// `Err:no` or `Err:<faults in hex>`.
pub open spec fn state_text(s: VendingState) -> Seq<char> {
    "ID:"@ + int_chars(s.settings.machine_id as int) + " "@ + "Item:"@ + int_chars(
        s.data.item_level as int,
    ) + " "@ + hopper_level_text(1, s.data.coin_levels[0]) + hopper_level_text(
        2,
        s.data.coin_levels[1],
    ) + "Cash:"@ + int_chars(s.data.cash as int) + " "@ + if s.errors.bits == 0 {
        "Err:no"@
    } else {
        "Err:"@ + hex_chars(s.errors.bits as nat)
    }
}

/// The profit of an accounting record fits its type.
pub open spec fn profit_fits(a: Accounting) -> bool {
    i32::MIN <= a.cash_in - a.cash_out <= i32::MAX
}

/// Accounting report: `Overall ` or `Period `, `IN:<in> OUT:<out>
/// PROF:<in - out> SOLD:<sold> FREE:<free> `, then `CR<n>:<refill> ` for
/// each hopper with a positive coin refill and `IR:<refill> ` for a
/// positive item refill.
pub open spec fn accounting_text(a: Accounting, overall: bool) -> Seq<char> {
    (if overall {
        "Overall "@
    } else {
        "Period "@
    }) + "IN:"@ + int_chars(a.cash_in as int) + " OUT:"@ + int_chars(a.cash_out as int) + " PROF:"@
        + int_chars(a.cash_in - a.cash_out) + " "@ + "SOLD:"@ + int_chars(a.items_out as int)
        + " FREE:"@ + int_chars(a.free_items_out as int) + " "@ + (if a.coins_refill[0] > 0 {
        "CR"@ + int_chars(1) + ":"@ + int_chars(a.coins_refill[0] as int) + " "@
    } else {
        seq![]
    }) + (if a.coins_refill[1] > 0 {
        "CR"@ + int_chars(2) + ":"@ + int_chars(a.coins_refill[1] as int) + " "@
    } else {
        seq![]
    }) + (if a.items_refill > 0 {
        "IR:"@ + int_chars(a.items_refill as int) + " "@
    } else {
        seq![]
    })
}

/// Fault report: `No errors`, or `ERR:<faults in hex> CASH:<cash>
/// ITEM:<items> DOOR:<1 when the door fault is set, else 0>`.
pub open spec fn errors_text(s: VendingState) -> Seq<char> {
    if s.errors.bits == 0 {
        "No errors"@
    } else {
        "ERR:"@ + hex_chars(s.errors.bits as nat) + " "@ + "CASH:"@ + int_chars(s.data.cash as int)
            + " "@ + "ITEM:"@ + int_chars(s.data.item_level as int) + " "@ + if s.errors.bits
            & Errors::DOOR_OPENED == Errors::DOOR_OPENED {
            "DOOR:1"@
        } else {
            "DOOR:0"@
        }
    }
}

/// Intrusion report: `ALARM! Door open!` (door fault set) or `ALARM!
/// Door!`, then ` Cash:<cash>`.
pub open spec fn intrusion_text(s: VendingState) -> Seq<char> {
    "ALARM! "@ + (if s.errors.bits & Errors::DOOR_OPENED == Errors::DOOR_OPENED {
        "Door open!"@
    } else {
        "Door!"@
    }) + " Cash:"@ + int_chars(s.data.cash as int)
}

/// Text of the report of kind `kind`.
pub open spec fn report_text(s: VendingState, kind: MessageKind) -> Seq<char> {
    match kind {
        MessageKind::ReportState | MessageKind::Report => state_text(s),
        MessageKind::ReportPeriodAccounting => accounting_text(s.data.period_accounting, false),
        MessageKind::ReportOverallAccounting => accounting_text(s.data.overall_accounting, true),
        MessageKind::ReportErrors => errors_text(s),
        MessageKind::ReportIntrusion => intrusion_text(s),
        MessageKind::ReportNoIntrusion => "Door closed OK"@,
        MessageKind::PowerUp => "BAH #"@ + int_chars(s.settings.machine_id as int) + " UP"@,
        MessageKind::PowerDown => "BAH #"@ + int_chars(s.settings.machine_id as int) + " DOWN"@,
        MessageKind::ResetErrors => "Errors cleared"@,
        MessageKind::ResetKeys => "Keys reset"@,
        MessageKind::CoinHopperWarningLevel => "LOW! "@ + hopper_level_text(1, s.data.coin_levels[0])
            + hopper_level_text(2, s.data.coin_levels[1]),
        MessageKind::ItemDispenserWarningLevel => "LOW! Item:"@ + int_chars(s.data.item_level as int),
        MessageKind::NoMessage => "N/A"@,
    }
}

/// The text of a report of kind `kind`; an accounting report needs its
/// profit to fit the cash type.
pub fn generate_report(state: &VendingState, kind: MessageKind) -> (r: heapless::String<160>)
    requires
        kind == MessageKind::ReportPeriodAccounting ==> profit_fits(
            state.data.period_accounting,
        ),
        kind == MessageKind::ReportOverallAccounting ==> profit_fits(
            state.data.overall_accounting,
        ),
    ensures
        text160(r) == report_text(*state, kind),
{
    let text = report_string(state, kind);
    proof {
        lemma_report_fits_sms(*state, kind);
        lemma_report_ascii(*state, kind);
        lemma_ascii_bytes(report_text(*state, kind));
    }
    text160_of(text.as_str())
}

fn report_string(state: &VendingState, kind: MessageKind) -> (r: String)
    requires
        kind == MessageKind::ReportPeriodAccounting ==> profit_fits(
            state.data.period_accounting,
        ),
        kind == MessageKind::ReportOverallAccounting ==> profit_fits(
            state.data.overall_accounting,
        ),
    ensures
        r@ == report_text(*state, kind),
{
    match kind {
        MessageKind::ReportState => report_state(state),
        MessageKind::ReportPeriodAccounting => report_accounting(
            &state.data.period_accounting,
            false,
        ),
        MessageKind::ReportOverallAccounting => report_accounting(
            &state.data.overall_accounting,
            true,
        ),
        MessageKind::ReportErrors => report_errors(state),
        MessageKind::ReportIntrusion => report_intrusion(state),
        MessageKind::ReportNoIntrusion => report_no_intrusion(),
        MessageKind::PowerUp => report_power_up(state),
        MessageKind::PowerDown => report_power_down(state),
        MessageKind::ResetErrors => string_of("Errors cleared"),
        MessageKind::ResetKeys => string_of("Keys reset"),
        MessageKind::CoinHopperWarningLevel => report_hopper_warning(state),
        MessageKind::ItemDispenserWarningLevel => report_item_warning(state),
        MessageKind::Report => report_state(state),
        MessageKind::NoMessage => string_of("N/A"),
    }
}

fn report_header(state: &VendingState) -> (r: String)
    ensures
        r@ == "ID:"@ + int_chars(state.settings.machine_id as int) + " "@,
{
    let mut s = String::new();
    push_str(&mut s, "ID:");
    push_i32(&mut s, state.settings.machine_id);
    push_str(&mut s, " ");
    assert(s@ =~= "ID:"@ + int_chars(state.settings.machine_id as int) + " "@);
    s
}

fn push_hopper_levels(s: &mut String, state: &VendingState)
    ensures
        final(s)@ == old(s)@ + hopper_level_text(1, state.data.coin_levels[0]) + hopper_level_text(
            2,
            state.data.coin_levels[1],
        ),
{
    let mut i: usize = 0;
    while i < 2
        invariant
            i <= 2,
            i == 0 ==> s@ == old(s)@,
            i == 1 ==> s@ == old(s)@ + hopper_level_text(1, state.data.coin_levels[0]),
            i == 2 ==> s@ == old(s)@ + hopper_level_text(1, state.data.coin_levels[0])
                + hopper_level_text(2, state.data.coin_levels[1]),
        decreases 2 - i,
    {
        let ghost before = s@;
        let level = state.data.coin_levels[i];
        push_str(s, "H");
        push_i32(s, i as i32 + 1);
        push_str(s, ":");
        push_i32(s, level);
        push_str(s, " ");
        assert(s@ =~= before + hopper_level_text(i + 1, level));
        i = i + 1;
    }
}

fn report_state(state: &VendingState) -> (r: String)
    ensures
        r@ == state_text(*state),
{
    let mut s = report_header(state);
    push_str(&mut s, "Item:");
    push_i32(&mut s, state.data.item_level);
    push_str(&mut s, " ");
    push_hopper_levels(&mut s, state);
    push_str(&mut s, "Cash:");
    push_i32(&mut s, state.data.cash);
    push_str(&mut s, " ");
    if state.errors.is_empty() {
        push_str(&mut s, "Err:no");
    } else {
        push_str(&mut s, "Err:");
        push_hex(&mut s, state.errors.bits());
    }
    assert(s@ =~= state_text(*state));
    s
}

fn report_accounting(accounting: &Accounting, overall: bool) -> (r: String)
    requires
        profit_fits(*accounting),
    ensures
        r@ == accounting_text(*accounting, overall),
{
    let mut s = String::new();
    if overall {
        push_str(&mut s, "Overall ");
    } else {
        push_str(&mut s, "Period ");
    }
    push_str(&mut s, "IN:");
    push_i32(&mut s, accounting.cash_in);
    push_str(&mut s, " OUT:");
    push_i32(&mut s, accounting.cash_out);
    push_str(&mut s, " PROF:");
    push_i32(&mut s, accounting.cash_in - accounting.cash_out);
    push_str(&mut s, " ");
    push_str(&mut s, "SOLD:");
    push_i32(&mut s, accounting.items_out);
    push_str(&mut s, " FREE:");
    push_i32(&mut s, accounting.free_items_out);
    push_str(&mut s, " ");
    let ghost head = s@;
    let mut i: usize = 0;
    while i < 2
        invariant
            i <= 2,
            i == 0 ==> s@ == head,
            i >= 1 ==> s@ == head + (if accounting.coins_refill[0] > 0 {
                "CR"@ + int_chars(1) + ":"@ + int_chars(accounting.coins_refill[0] as int) + " "@
            } else {
                seq![]
            }) + (if i == 2 && accounting.coins_refill[1] > 0 {
                "CR"@ + int_chars(2) + ":"@ + int_chars(accounting.coins_refill[1] as int) + " "@
            } else {
                seq![]
            }),
        decreases 2 - i,
    {
        let ghost before = s@;
        let refill = accounting.coins_refill[i];
        if refill > 0 {
            push_str(&mut s, "CR");
            push_i32(&mut s, i as i32 + 1);
            push_str(&mut s, ":");
            push_i32(&mut s, refill);
            push_str(&mut s, " ");
            assert(s@ =~= before + "CR"@ + int_chars(i + 1) + ":"@ + int_chars(refill as int) + " "@);
        }
        proof {
            if i == 0 {
                if refill > 0 {
                    assert(s@ =~= head + ("CR"@ + int_chars(1) + ":"@ + int_chars(accounting.coins_refill[0] as int)
                        + " "@) + seq![]);
                } else {
                    assert(s@ =~= head + seq![] + seq![]);
                }
            } else {
                if refill > 0 {
                    assert(s@ =~= before + ("CR"@ + int_chars(2) + ":"@ + int_chars(accounting.coins_refill[1] as int)
                        + " "@));
                } else {
                    assert(s@ =~= before + seq![]);
                }
            }
        }
        i = i + 1;
    }
    if accounting.items_refill > 0 {
        push_str(&mut s, "IR:");
        push_i32(&mut s, accounting.items_refill);
        push_str(&mut s, " ");
    }
    assert(s@ =~= accounting_text(*accounting, overall));
    s
}

fn report_errors(state: &VendingState) -> (r: String)
    ensures
        r@ == errors_text(*state),
{
    if state.errors.is_empty() {
        return string_of("No errors");
    }
    let mut s = String::new();
    push_str(&mut s, "ERR:");
    push_hex(&mut s, state.errors.bits());
    push_str(&mut s, " ");
    push_str(&mut s, "CASH:");
    push_i32(&mut s, state.data.cash);
    push_str(&mut s, " ");
    push_str(&mut s, "ITEM:");
    push_i32(&mut s, state.data.item_level);
    push_str(&mut s, " ");
    if state.errors.contains(Errors::DOOR_OPENED) {
        push_str(&mut s, "DOOR:1");
    } else {
        push_str(&mut s, "DOOR:0");
    }
    assert(s@ =~= errors_text(*state));
    s
}

fn report_intrusion(state: &VendingState) -> (r: String)
    ensures
        r@ == intrusion_text(*state),
{
    let mut s = String::new();
    push_str(&mut s, "ALARM! ");
    if state.errors.contains(Errors::DOOR_OPENED) {
        push_str(&mut s, "Door open!");
    } else {
        push_str(&mut s, "Door!");
    }
    push_str(&mut s, " Cash:");
    push_i32(&mut s, state.data.cash);
    assert(s@ =~= intrusion_text(*state));
    s
}

fn report_no_intrusion() -> (r: String)
    ensures
        r@ == "Door closed OK"@,
{
    string_of("Door closed OK")
}

fn report_power_up(state: &VendingState) -> (r: String)
    ensures
        r@ == "BAH #"@ + int_chars(state.settings.machine_id as int) + " UP"@,
{
    let mut s = String::new();
    push_str(&mut s, "BAH #");
    push_i32(&mut s, state.settings.machine_id);
    push_str(&mut s, " UP");
    assert(s@ =~= "BAH #"@ + int_chars(state.settings.machine_id as int) + " UP"@);
    s
}

fn report_power_down(state: &VendingState) -> (r: String)
    ensures
        r@ == "BAH #"@ + int_chars(state.settings.machine_id as int) + " DOWN"@,
{
    let mut s = String::new();
    push_str(&mut s, "BAH #");
    push_i32(&mut s, state.settings.machine_id);
    push_str(&mut s, " DOWN");
    assert(s@ =~= "BAH #"@ + int_chars(state.settings.machine_id as int) + " DOWN"@);
    s
}

fn report_item_warning(state: &VendingState) -> (r: String)
    ensures
        r@ == "LOW! Item:"@ + int_chars(state.data.item_level as int),
{
    let mut s = String::new();
    push_str(&mut s, "LOW! Item:");
    push_i32(&mut s, state.data.item_level);
    assert(s@ =~= "LOW! Item:"@ + int_chars(state.data.item_level as int));
    s
}

fn report_hopper_warning(state: &VendingState) -> (r: String)
    ensures
        r@ == "LOW! "@ + hopper_level_text(1, state.data.coin_levels[0]) + hopper_level_text(
            2,
            state.data.coin_levels[1],
        ),
{
    let mut s = String::new();
    push_str(&mut s, "LOW! ");
    push_hopper_levels(&mut s, state);
    s
}

/// Every report fits one SMS: at most 160 characters.
#[verifier::spinoff_prover]
#[verifier::rlimit(60)]
pub proof fn lemma_report_fits_sms(s: VendingState, kind: MessageKind)
    ensures
        report_text(s, kind).len() <= SMS_MAX_LEN,
{
    reveal_strlit("H");
    reveal_strlit(":");
    reveal_strlit(" ");
    reveal_strlit("ID:");
    reveal_strlit("Item:");
    reveal_strlit("Cash:");
    reveal_strlit("Err:no");
    reveal_strlit("Err:");
    reveal_strlit("Overall ");
    reveal_strlit("Period ");
    reveal_strlit("IN:");
    reveal_strlit(" OUT:");
    reveal_strlit(" PROF:");
    reveal_strlit("SOLD:");
    reveal_strlit(" FREE:");
    reveal_strlit("CR");
    reveal_strlit("IR:");
    reveal_strlit("No errors");
    reveal_strlit("ERR:");
    reveal_strlit("CASH:");
    reveal_strlit("ITEM:");
    reveal_strlit("DOOR:1");
    reveal_strlit("DOOR:0");
    reveal_strlit("ALARM! ");
    reveal_strlit("Door open!");
    reveal_strlit("Door!");
    reveal_strlit(" Cash:");
    reveal_strlit("Door closed OK");
    reveal_strlit("BAH #");
    reveal_strlit(" UP");
    reveal_strlit(" DOWN");
    reveal_strlit("Errors cleared");
    reveal_strlit("Keys reset");
    reveal_strlit("LOW! ");
    reveal_strlit("LOW! Item:");
    reveal_strlit("N/A");
    lemma_int_chars_len(s.settings.machine_id);
    lemma_int_chars_len(s.data.item_level);
    lemma_int_chars_len(s.data.coin_levels[0]);
    lemma_int_chars_len(s.data.coin_levels[1]);
    lemma_int_chars_len(s.data.cash);
    lemma_int_chars_len(1);
    lemma_int_chars_len(2);
    lemma_hex_chars_len(s.errors.bits);
    let a = if kind == MessageKind::ReportOverallAccounting {
        s.data.overall_accounting
    } else {
        s.data.period_accounting
    };
    lemma_int_chars_len(a.cash_in);
    lemma_int_chars_len(a.cash_out);
    lemma_int_chars_len(a.items_out);
    lemma_int_chars_len(a.free_items_out);
    lemma_int_chars_len(a.coins_refill[0]);
    lemma_int_chars_len(a.coins_refill[1]);
    lemma_int_chars_len(a.items_refill);
    assert(int_chars(a.cash_in - a.cash_out).len() <= 12) by {
        lemma_profit_chars_len(a.cash_in - a.cash_out);
    }
}

/// A hopper level line is ASCII.
proof fn lemma_hopper_level_ascii(n: int, level: i32)
    ensures
        is_ascii_chars(hopper_level_text(n, level)),
{
    reveal_strlit("H");
    reveal_strlit(":");
    reveal_strlit(" ");
    lemma_int_chars_ascii(n);
    lemma_int_chars_ascii(level as int);
    lemma_ascii_concat("H"@, int_chars(n));
    lemma_ascii_concat("H"@ + int_chars(n), ":"@);
    lemma_ascii_concat("H"@ + int_chars(n) + ":"@, int_chars(level as int));
    lemma_ascii_concat("H"@ + int_chars(n) + ":"@ + int_chars(level as int), " "@);
}

/// The state report is ASCII.
proof fn lemma_state_ascii(s: VendingState)
    ensures
        is_ascii_chars(state_text(s)),
{
    reveal_strlit(" ");
    reveal_strlit("ID:");
    reveal_strlit("Item:");
    reveal_strlit("Cash:");
    reveal_strlit("Err:no");
    reveal_strlit("Err:");
    let id = int_chars(s.settings.machine_id as int);
    let items = int_chars(s.data.item_level as int);
    let cash = int_chars(s.data.cash as int);
    let h1 = hopper_level_text(1, s.data.coin_levels[0]);
    let h2 = hopper_level_text(2, s.data.coin_levels[1]);
    lemma_int_chars_ascii(s.settings.machine_id as int);
    lemma_int_chars_ascii(s.data.item_level as int);
    lemma_int_chars_ascii(s.data.cash as int);
    lemma_hopper_level_ascii(1, s.data.coin_levels[0]);
    lemma_hopper_level_ascii(2, s.data.coin_levels[1]);
    lemma_hex_chars_ascii(s.errors.bits as nat);
    let err = if s.errors.bits == 0 {
        "Err:no"@
    } else {
        "Err:"@ + hex_chars(s.errors.bits as nat)
    };
    lemma_ascii_concat("Err:"@, hex_chars(s.errors.bits as nat));
    let t1 = "ID:"@ + id;
    lemma_ascii_concat("ID:"@, id);
    lemma_ascii_concat(t1, " "@);
    lemma_ascii_concat(t1 + " "@, "Item:"@);
    let t2 = t1 + " "@ + "Item:"@ + items;
    lemma_ascii_concat(t1 + " "@ + "Item:"@, items);
    lemma_ascii_concat(t2, " "@);
    lemma_ascii_concat(t2 + " "@, h1);
    lemma_ascii_concat(t2 + " "@ + h1, h2);
    let t3 = t2 + " "@ + h1 + h2;
    lemma_ascii_concat(t3, "Cash:"@);
    lemma_ascii_concat(t3 + "Cash:"@, cash);
    let t4 = t3 + "Cash:"@ + cash;
    lemma_ascii_concat(t4, " "@);
    lemma_ascii_concat(t4 + " "@, err);
    assert(state_text(s) == t4 + " "@ + err);
}

/// An optional refill part (`<tag><n>:<value> ` or nothing) is ASCII.
proof fn lemma_refill_ascii(tag: Seq<char>, n: Seq<char>, v: int)
    requires
        is_ascii_chars(tag),
        is_ascii_chars(n),
    ensures
        is_ascii_chars(tag + n + ":"@ + int_chars(v) + " "@),
{
    reveal_strlit(":");
    reveal_strlit(" ");
    lemma_int_chars_ascii(v);
    lemma_ascii_concat(tag, n);
    lemma_ascii_concat(tag + n, ":"@);
    lemma_ascii_concat(tag + n + ":"@, int_chars(v));
    lemma_ascii_concat(tag + n + ":"@ + int_chars(v), " "@);
}

/// An accounting report is ASCII.
proof fn lemma_accounting_ascii(a: Accounting, overall: bool)
    ensures
        is_ascii_chars(accounting_text(a, overall)),
{
    reveal_strlit(" ");
    reveal_strlit("Overall ");
    reveal_strlit("Period ");
    reveal_strlit("IN:");
    reveal_strlit(" OUT:");
    reveal_strlit(" PROF:");
    reveal_strlit("SOLD:");
    reveal_strlit(" FREE:");
    reveal_strlit("CR");
    reveal_strlit("IR:");
    let e = Seq::<char>::empty();
    assert(is_ascii_chars(e));
    let t0 = if overall {
        "Overall "@
    } else {
        "Period "@
    };
    lemma_int_chars_ascii(a.cash_in as int);
    lemma_int_chars_ascii(a.cash_out as int);
    lemma_int_chars_ascii(a.cash_in - a.cash_out);
    lemma_int_chars_ascii(a.items_out as int);
    lemma_int_chars_ascii(a.free_items_out as int);
    lemma_int_chars_ascii(1);
    lemma_int_chars_ascii(2);
    lemma_ascii_concat(t0, "IN:"@);
    let t1 = t0 + "IN:"@ + int_chars(a.cash_in as int);
    lemma_ascii_concat(t0 + "IN:"@, int_chars(a.cash_in as int));
    lemma_ascii_concat(t1, " OUT:"@);
    let t2 = t1 + " OUT:"@ + int_chars(a.cash_out as int);
    lemma_ascii_concat(t1 + " OUT:"@, int_chars(a.cash_out as int));
    lemma_ascii_concat(t2, " PROF:"@);
    let t3 = t2 + " PROF:"@ + int_chars(a.cash_in - a.cash_out);
    lemma_ascii_concat(t2 + " PROF:"@, int_chars(a.cash_in - a.cash_out));
    lemma_ascii_concat(t3, " "@);
    lemma_ascii_concat(t3 + " "@, "SOLD:"@);
    let t4 = t3 + " "@ + "SOLD:"@ + int_chars(a.items_out as int);
    lemma_ascii_concat(t3 + " "@ + "SOLD:"@, int_chars(a.items_out as int));
    lemma_ascii_concat(t4, " FREE:"@);
    let t5 = t4 + " FREE:"@ + int_chars(a.free_items_out as int);
    lemma_ascii_concat(t4 + " FREE:"@, int_chars(a.free_items_out as int));
    lemma_ascii_concat(t5, " "@);
    let t6 = t5 + " "@;
    let r1 = if a.coins_refill[0] > 0 {
        "CR"@ + int_chars(1) + ":"@ + int_chars(a.coins_refill[0] as int) + " "@
    } else {
        e
    };
    let r2 = if a.coins_refill[1] > 0 {
        "CR"@ + int_chars(2) + ":"@ + int_chars(a.coins_refill[1] as int) + " "@
    } else {
        e
    };
    let r3 = if a.items_refill > 0 {
        "IR:"@ + int_chars(a.items_refill as int) + " "@
    } else {
        e
    };
    lemma_refill_ascii("CR"@, int_chars(1), a.coins_refill[0] as int);
    lemma_refill_ascii("CR"@, int_chars(2), a.coins_refill[1] as int);
    lemma_int_chars_ascii(a.items_refill as int);
    lemma_ascii_concat("IR:"@, int_chars(a.items_refill as int));
    lemma_ascii_concat("IR:"@ + int_chars(a.items_refill as int), " "@);
    lemma_ascii_concat(t6, r1);
    lemma_ascii_concat(t6 + r1, r2);
    lemma_ascii_concat(t6 + r1 + r2, r3);
    assert(accounting_text(a, overall) == t6 + r1 + r2 + r3);
}

/// The fault and intrusion reports are ASCII.
proof fn lemma_alarm_ascii(s: VendingState)
    ensures
        is_ascii_chars(errors_text(s)),
        is_ascii_chars(intrusion_text(s)),
{
    reveal_strlit(" ");
    reveal_strlit("No errors");
    reveal_strlit("ERR:");
    reveal_strlit("CASH:");
    reveal_strlit("ITEM:");
    reveal_strlit("DOOR:1");
    reveal_strlit("DOOR:0");
    reveal_strlit("ALARM! ");
    reveal_strlit("Door open!");
    reveal_strlit("Door!");
    reveal_strlit(" Cash:");
    let hex = hex_chars(s.errors.bits as nat);
    let cash = int_chars(s.data.cash as int);
    let items = int_chars(s.data.item_level as int);
    lemma_hex_chars_ascii(s.errors.bits as nat);
    lemma_int_chars_ascii(s.data.cash as int);
    lemma_int_chars_ascii(s.data.item_level as int);
    let door = if s.errors.bits & Errors::DOOR_OPENED == Errors::DOOR_OPENED {
        "DOOR:1"@
    } else {
        "DOOR:0"@
    };
    lemma_ascii_concat("ERR:"@, hex);
    let t1 = "ERR:"@ + hex;
    lemma_ascii_concat(t1, " "@);
    lemma_ascii_concat(t1 + " "@, "CASH:"@);
    lemma_ascii_concat(t1 + " "@ + "CASH:"@, cash);
    let t2 = t1 + " "@ + "CASH:"@ + cash;
    lemma_ascii_concat(t2, " "@);
    lemma_ascii_concat(t2 + " "@, "ITEM:"@);
    lemma_ascii_concat(t2 + " "@ + "ITEM:"@, items);
    let t3 = t2 + " "@ + "ITEM:"@ + items;
    lemma_ascii_concat(t3, " "@);
    lemma_ascii_concat(t3 + " "@, door);
    assert(s.errors.bits != 0 ==> errors_text(s) == t3 + " "@ + door);
    let what = if s.errors.bits & Errors::DOOR_OPENED == Errors::DOOR_OPENED {
        "Door open!"@
    } else {
        "Door!"@
    };
    lemma_ascii_concat("ALARM! "@, what);
    lemma_ascii_concat("ALARM! "@ + what, " Cash:"@);
    lemma_ascii_concat("ALARM! "@ + what + " Cash:"@, cash);
    assert(intrusion_text(s) == "ALARM! "@ + what + " Cash:"@ + cash);
}

/// Every report is ASCII text, one byte per character.
proof fn lemma_report_ascii(s: VendingState, kind: MessageKind)
    ensures
        is_ascii_chars(report_text(s, kind)),
{
    match kind {
        MessageKind::ReportState | MessageKind::Report => lemma_state_ascii(s),
        MessageKind::ReportPeriodAccounting => lemma_accounting_ascii(s.data.period_accounting, false),
        MessageKind::ReportOverallAccounting => lemma_accounting_ascii(s.data.overall_accounting, true),
        MessageKind::ReportErrors | MessageKind::ReportIntrusion => lemma_alarm_ascii(s),
        MessageKind::CoinHopperWarningLevel => {
            reveal_strlit("LOW! ");
            let h1 = hopper_level_text(1, s.data.coin_levels[0]);
            let h2 = hopper_level_text(2, s.data.coin_levels[1]);
            lemma_hopper_level_ascii(1, s.data.coin_levels[0]);
            lemma_hopper_level_ascii(2, s.data.coin_levels[1]);
            lemma_ascii_concat("LOW! "@, h1);
            lemma_ascii_concat("LOW! "@ + h1, h2);
        },
        MessageKind::ItemDispenserWarningLevel => {
            reveal_strlit("LOW! Item:");
            lemma_int_chars_ascii(s.data.item_level as int);
            lemma_ascii_concat("LOW! Item:"@, int_chars(s.data.item_level as int));
        },
        MessageKind::PowerUp | MessageKind::PowerDown => {
            reveal_strlit("BAH #");
            reveal_strlit(" UP");
            reveal_strlit(" DOWN");
            let id = int_chars(s.settings.machine_id as int);
            lemma_int_chars_ascii(s.settings.machine_id as int);
            lemma_ascii_concat("BAH #"@, id);
            lemma_ascii_concat("BAH #"@ + id, " UP"@);
            lemma_ascii_concat("BAH #"@ + id, " DOWN"@);
        },
        MessageKind::ReportNoIntrusion => {
            reveal_strlit("Door closed OK");
        },
        MessageKind::ResetErrors => {
            reveal_strlit("Errors cleared");
        },
        MessageKind::ResetKeys => {
            reveal_strlit("Keys reset");
        },
        MessageKind::NoMessage => {
            reveal_strlit("N/A");
        },
    }
}

proof fn lemma_profit_chars_len(v: int)
    requires
        -0x1_0000_0000 < v < 0x1_0000_0000,
    ensures
        int_chars(v).len() <= 12,
{
    if v < 0 {
        crate::text::lemma_dec_chars_len((-v) as nat);
    } else {
        crate::text::lemma_dec_chars_len(v as nat);
    }
}

} // verus!
