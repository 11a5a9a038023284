//! Decisions of the vending cycle.
//!
//! The cycle has four phases: accept cash, pay out the item, pay out the
//! change, and finish (thank the customer or report what could not be
//! paid). The application loop waits for coins, buttons, hopper events and
//! timers; each function here takes the machine state and one such input,
//! updates the state and returns the actions to perform, in order.

use vstd::prelude::*;

use crate::buttons::{Button, ButtonEvent};
use crate::coin_acceptor::CoinEvent;
use crate::config::{HOPPER_COUNT, RESIDUAL_TIMEOUT_S, THANKS_MESSAGE_DELAY_S};
use crate::error::Errors;
use crate::event::{after_close, close_transaction, TransactionEntry};
use crate::gsm::GsmCommand;
use crate::hopper::{HopperCmd, HopperEvent};
use crate::state::{AppState, Cash, Level, MessageKind, VendingState, VendingStateData};
use crate::text::{hex_chars, int_chars, push_hex, push_i32, push_str, string_of};

verus! {

/// An action requested by the vending cycle.
#[derive(Debug, Clone)]
pub enum VendingAction {
    /// Show `text` centred on display row `y`.
    Show { y: u8, text: String },
    /// Send a command to the hopper task.
    Hopper(HopperCmd),
    /// Send a command to the modem task.
    Gsm(GsmCommand),
    /// The working state changed and must be persisted.
    Persist,
}

/// Plain view of an action.
pub enum ActionView {
    Show { y: u8, text: Seq<char> },
    Hopper(HopperCmd),
    Gsm(GsmCommand),
    Persist,
}

/// The plain view of an action.
pub open spec fn action_view(a: VendingAction) -> ActionView {
    match a {
        VendingAction::Show { y, text } => ActionView::Show { y, text: text@ },
        VendingAction::Hopper(c) => ActionView::Hopper(c),
        VendingAction::Gsm(c) => ActionView::Gsm(c),
        VendingAction::Persist => ActionView::Persist,
    }
}

/// The plain views of a list of actions.
pub open spec fn actions_view(v: Seq<VendingAction>) -> Seq<ActionView> {
    v.map_values(|a: VendingAction| action_view(a))
}

/// What the main loop does next.
#[derive(Debug, Clone, Copy, PartialEq, Eq, Structural)]
pub enum Dispatch {
    /// A fault is set: show it and report it.
    ServeErrors,
    /// Run the handler of this phase.
    Handle(AppState),
}

/// Progress of an item payout.
#[derive(Debug, Clone, Copy, PartialEq, Eq, Structural)]
pub struct ItemsProgress {
    /// Items requested from the dispenser.
    pub total: Level,
    /// Items dispensed so far.
    pub items_out: Level,
}

/// Outcome of a payout step.
#[derive(Debug, Clone, Copy, PartialEq, Eq, Structural)]
pub enum PayoutStatus {
    /// Keep waiting for hopper events.
    Continue,
    /// This payout is complete.
    Finished,
    /// The payout failed; the handler returns.
    Aborted,
}

fn show(y: u8, text: String) -> (r: VendingAction)
    ensures
        action_view(r) == (ActionView::Show { y, text: text@ }),
{
    VendingAction::Show { y, text }
}

// ── Pure decisions ────────────────────────────────────────────────────────

/// The price of the item.
pub open spec fn item_price(s: VendingState) -> Cash {
    s.settings.item_dispenser.coin_value
}

/// Cash can be accepted: there is an item to sell.
pub fn can_accept_cash(state: &VendingState) -> (r: bool)
    ensures
        r == (state.data.item_level > 0),
{
    state.data.item_level > 0
}

/// The inserted cash pays for the item.
pub fn is_cash_pending(state: &VendingState) -> (r: bool)
    ensures
        r == (state.data.cash >= item_price(*state)),
{
    state.data.cash >= state.settings.item_dispenser.coin_value
}

/// Coins of value `value` (with `level` coins in the hopper) paid out of a
/// remainder `rem`: as many as fit, at most the hopper level.
pub open spec fn payout_count(rem: int, value: int, level: int) -> int {
    if value > 0 && level > 0 && rem > 0 {
        if rem / value < level {
            rem / value
        } else {
            level
        }
    } else {
        0
    }
}

/// The payout for `cash` inserted: one item and change from the coin
/// hopper (hopper 1), as many of its coins as fit and it holds; the third
/// component is the change that cannot be paid, which stays as cash.
/// Hopper 0 dispenses items, so no change is ever planned from it (its
/// entry is 0). Nothing is paid when the price is not positive, the cash
/// does not cover it, or there is no item.
pub open spec fn payout_spec(s: VendingState) -> (int, int, int, int) {
    let cash = s.data.cash as int;
    let price = item_price(s) as int;
    if price <= 0 || cash < price || s.data.item_level <= 0 {
        (0, 0, 0, cash)
    } else {
        let v1 = s.settings.coin_hoppers[1].coin_value as int;
        let rem0 = cash - price;
        let c1 = payout_count(rem0, v1, s.data.coin_levels[1] as int);
        (1, 0, c1, rem0 - c1 * v1)
    }
}

/// Coins paid from one hopper out of `rem`, and what remains.
fn payout_from_hopper(rem: Cash, value: Cash, level: Level) -> (r: (Level, Cash))
    requires
        rem >= 0,
    ensures
        r.0 == payout_count(rem as int, value as int, level as int),
        r.1 == rem - r.0 * value,
        r.1 >= 0,
{
    if value > 0 && level > 0 && rem > 0 {
        let q = rem / value;
        let count = if q < level {
            q
        } else {
            level
        };
        proof {
            let v = value as int;
            let rr = rem as int;
            assert(q as int == rr / v);
            assert(count * v <= (rr / v) * v) by (nonlinear_arith)
                requires
                    0 <= count <= rr / v,
                    v > 0,
            ;
            assert((rr / v) * v <= rr) by (nonlinear_arith)
                requires
                    v > 0,
                    rr >= 0,
            ;
            assert(count * v >= 0) by (nonlinear_arith)
                requires
                    count >= 0,
                    v > 0,
            ;
        }
        (count, rem - count * value)
    } else {
        (0, rem)
    }
}

/// Computes the payout: items, coins per hopper and unpaid change (see
/// `payout_spec`).
pub fn create_payout(state: &VendingState) -> (r: (Level, [Level; HOPPER_COUNT], Cash))
    ensures
        r.0 == payout_spec(*state).0,
        r.1[0] == payout_spec(*state).1,
        r.1[1] == payout_spec(*state).2,
        r.2 == payout_spec(*state).3,
{
    let cash = state.data.cash;
    let item_price = state.settings.item_dispenser.coin_value;
    let item_level = state.data.item_level;
    if item_price <= 0 || cash < item_price || item_level <= 0 {
        return (0, [0, 0], cash);
    }
    let items: Level = 1;
    let reminder = cash - item_price;
    let (count, rest) = payout_from_hopper(
        reminder,
        state.settings.coin_hoppers[1].coin_value,
        state.data.coin_levels[1],
    );
    (items, [0, count], rest)
}

/// Nothing is paid out unless the price is positive, the cash covers it
/// and an item is in stock: then no item and no change is planned and all
/// the cash stays.
pub proof fn lemma_no_payout_without_sale(s: VendingState)
    requires
        !(item_price(s) > 0 && s.data.cash >= item_price(s) && s.data.item_level > 0),
    ensures
        payout_spec(s) == (0int, 0int, 0int, s.data.cash as int),
{
}

/// The change planned is as much as the coin hopper can give: after
/// taking the item price from the cash, either every coin the hopper holds
/// is paid, or what stays unpaid is less than one coin; the coins paid and
/// the unpaid rest add up to the change, and no coins are paid when the
/// hopper's coin value or level is not positive.
pub proof fn lemma_payout_pays_all_it_can(s: VendingState)
    requires
        item_price(s) > 0,
        s.data.cash >= item_price(s),
        s.data.item_level > 0,
    ensures
        ({
            let p = payout_spec(s);
            let v = s.settings.coin_hoppers[1].coin_value as int;
            let level = s.data.coin_levels[1] as int;
            let change = s.data.cash - item_price(s);
            &&& p.0 == 1 && p.1 == 0
            &&& p.2 * v + p.3 == change
            &&& 0 <= p.3
            &&& (v > 0 && level > 0) ==> (0 <= p.2 <= level && (p.2 == level || p.3 < v))
            &&& !(v > 0 && level > 0) ==> p.2 == 0 && p.3 == change
        }),
{
    lemma_payout_conserves_cash(s);
    let v = s.settings.coin_hoppers[1].coin_value as int;
    let change = s.data.cash - item_price(s);
    if v > 0 && change > 0 {
        let q = change / v;
        assert(change - q * v < v) by (nonlinear_arith)
            requires
                v > 0,
                change >= 0,
                q == change / v,
        ;
    }
}

/// Change paid by a payout plus the unpaid remainder equals the cash
/// inserted minus the price, no change is planned from the item hopper, no
/// more coins than the coin hopper holds are paid, and the unpaid
/// remainder is never negative.
pub proof fn lemma_payout_conserves_cash(s: VendingState)
    requires
        item_price(s) > 0,
        s.data.cash >= item_price(s),
        s.data.item_level > 0,
    ensures
        ({
            let p = payout_spec(s);
            &&& p.0 == 1
            &&& p.1 == 0
            &&& p.2 * s.settings.coin_hoppers[1].coin_value + p.3 == s.data.cash - item_price(s)
            &&& 0 <= p.2 && (p.2 > 0 ==> p.2 <= s.data.coin_levels[1])
            &&& p.3 >= 0
        }),
{
    let v1 = s.settings.coin_hoppers[1].coin_value as int;
    let rem0 = s.data.cash - item_price(s);
    let c1 = payout_count(rem0, v1, s.data.coin_levels[1] as int);
    if v1 > 0 && s.data.coin_levels[1] > 0 && rem0 > 0 {
        assert(c1 * v1 <= (rem0 / v1) * v1) by (nonlinear_arith)
            requires
                0 <= c1 <= rem0 / v1,
                v1 > 0,
        ;
        assert((rem0 / v1) * v1 <= rem0) by (nonlinear_arith)
            requires
                v1 > 0,
                rem0 >= 0,
        ;
    }
}

// ── Display lines ─────────────────────────────────────────────────────────

/// The lines shown while waiting for cash: the inserted amount when there
/// is some, the price otherwise.
pub open spec fn accept_display(s: VendingState) -> Seq<ActionView> {
    seq![
        ActionView::Show { y: 0, text: "ВСТАВЬТЕ МОНЕТЫ"@ },
        ActionView::Show {
            y: 1,
            text: if s.data.cash > 0 {
                "Наличность: "@ + int_chars(s.data.cash as int)
            } else {
                "Цена: "@ + int_chars(item_price(s) as int)
            },
        },
    ]
}

/// The lines shown while waiting for cash.
pub fn update_accept_cash_display(state: &VendingState) -> (r: Vec<VendingAction>)
    ensures
        actions_view(r@) == accept_display(*state),
{
    let mut v: Vec<VendingAction> = Vec::new();
    v.push(show(0, string_of("ВСТАВЬТЕ МОНЕТЫ")));
    let mut t = String::new();
    if state.data.cash > 0 {
        push_str(&mut t, "Наличность: ");
        push_i32(&mut t, state.data.cash);
    } else {
        push_str(&mut t, "Цена: ");
        push_i32(&mut t, state.settings.item_dispenser.coin_value);
    }
    v.push(show(1, t));
    assert(actions_view(v@) =~= accept_display(*state));
    v
}

// ── Faults ────────────────────────────────────────────────────────────────

/// What the main loop does next: serve the faults when any is set,
/// otherwise run the handler of the current phase.
pub fn dispatch(state: &VendingState) -> (r: Dispatch)
    ensures
        r == if state.errors.bits != 0 {
            Dispatch::ServeErrors
        } else {
            Dispatch::Handle(state.data.app_state)
        },
{
    if !state.errors.is_empty() {
        Dispatch::ServeErrors
    } else {
        Dispatch::Handle(state.data.app_state)
    }
}

/// `s` with nothing pending for payout.
pub open spec fn without_pending(d: VendingStateData) -> VendingStateData {
    VendingStateData {
        coins_pending: [0i32, 0i32],
        items_pending: 0,
        free_items_pending: 0,
        ..d
    }
}

/// Out of service: shows the fault set, drops everything pending and
/// reports the faults to the first phone. The loop then waits 2 s.
pub fn process_errors(state: &mut VendingState) -> (r: Vec<VendingAction>)
    ensures
        final(state).data == without_pending(old(state).data),
        final(state).settings == old(state).settings,
        final(state).errors == old(state).errors,
        actions_view(r@) == seq![
            ActionView::Show { y: 0, text: "НЕТ ОБСЛУЖИВАНИЯ"@ },
            ActionView::Show { y: 1, text: "ERR "@ + hex_chars(old(state).errors.bits as nat) },
            ActionView::Gsm(GsmCommand::SendSms { phone_idx: 0, kind: MessageKind::ReportErrors }),
        ],
{
    let mut v: Vec<VendingAction> = Vec::new();
    v.push(show(0, string_of("НЕТ ОБСЛУЖИВАНИЯ")));
    let mut t = String::new();
    push_str(&mut t, "ERR ");
    push_hex(&mut t, state.errors.bits());
    v.push(show(1, t));
    state.data.coins_pending = [0, 0];
    state.data.items_pending = 0;
    state.data.free_items_pending = 0;
    v.push(VendingAction::Gsm(GsmCommand::SendSms { phone_idx: 0, kind: MessageKind::ReportErrors }));
    assert(actions_view(v@) =~= seq![
        ActionView::Show { y: 0, text: "НЕТ ОБСЛУЖИВАНИЯ"@ },
        ActionView::Show { y: 1, text: "ERR "@ + hex_chars(old(state).errors.bits as nat) },
        ActionView::Gsm(GsmCommand::SendSms { phone_idx: 0, kind: MessageKind::ReportErrors }),
    ]);
    v
}

/// Adds the faults of `mask`.
pub fn set_error(state: &mut VendingState, mask: u64)
    ensures
        final(state).errors.bits == old(state).errors.bits | mask,
        final(state).data == old(state).data,
        final(state).settings == old(state).settings,
{
    state.errors.insert(mask);
}

/// A door sensor changed: an opened door sets the door fault and reports
/// an intrusion to the first phone; a closed door clears the fault.
pub fn process_door_event(state: &mut VendingState, door: u8, opened: bool) -> (r: Vec<
    VendingAction,
>)
    ensures
        final(state).errors.bits == if opened {
            old(state).errors.bits | Errors::DOOR_OPENED
        } else {
            old(state).errors.bits & !Errors::DOOR_OPENED
        },
        final(state).data == old(state).data,
        final(state).settings == old(state).settings,
        actions_view(r@) == if opened {
            seq![
                ActionView::Gsm(
                    GsmCommand::SendSms { phone_idx: 0, kind: MessageKind::ReportIntrusion },
                ),
            ]
        } else {
            Seq::empty()
        },
{
    let mut v: Vec<VendingAction> = Vec::new();
    if opened {
        state.errors.insert(Errors::DOOR_OPENED);
        v.push(
            VendingAction::Gsm(
                GsmCommand::SendSms { phone_idx: 0, kind: MessageKind::ReportIntrusion },
            ),
        );
    } else {
        state.errors.remove(Errors::DOOR_OPENED);
    }
    assert(actions_view(v@) =~= if opened {
        seq![
            ActionView::Gsm(
                GsmCommand::SendSms { phone_idx: 0, kind: MessageKind::ReportIntrusion },
            ),
        ]
    } else {
        Seq::empty()
    });
    v
}

// ── Accepting cash ────────────────────────────────────────────────────────

/// Entering the cash phase: without an item to sell the dispenser-empty
/// fault is set and the handler returns (`None`); otherwise the waiting
/// display is returned.
pub fn accept_cash_enter(state: &mut VendingState) -> (r: Option<Vec<VendingAction>>)
    ensures
        final(state).data == old(state).data,
        final(state).settings == old(state).settings,
        old(state).data.item_level <= 0 ==> r is None && final(state).errors.bits == old(
            state,
        ).errors.bits | Errors::ITEM_DISPENSER_EMPTY,
        old(state).data.item_level > 0 ==> final(state).errors == old(state).errors && r
            is Some && actions_view(r->0@) == accept_display(*old(state)),
{
    if !can_accept_cash(state) {
        if state.data.item_level > 0 {
            set_error(state, Errors::CANNOT_PAYOUT);
        } else {
            set_error(state, Errors::ITEM_DISPENSER_EMPTY);
        }
        return None;
    }
    Some(update_accept_cash_display(state))
}

/// The state after a coin of value `v` is counted.
pub open spec fn with_coin(s: VendingState, v: Cash) -> VendingState {
    VendingState {
        data: VendingStateData {
            cash: (s.data.cash + v) as i32,
            overall_accounting: crate::state::Accounting {
                cash_in: (s.data.overall_accounting.cash_in + v) as i32,
                ..s.data.overall_accounting
            },
            period_accounting: crate::state::Accounting {
                cash_in: (s.data.period_accounting.cash_in + v) as i32,
                ..s.data.period_accounting
            },
            ..s.data
        },
        ..s
    }
}

/// The state after the payout of `s` is decided: the item and the change
/// coins become pending, the unpaid change stays as cash, and the item
/// phase starts.
pub open spec fn with_payout(s: VendingState) -> VendingState {
    let p = payout_spec(s);
    VendingState {
        data: VendingStateData {
            items_pending: p.0 as i32,
            coins_pending: [p.1 as i32, p.2 as i32],
            cash: p.3 as i32,
            app_state: AppState::PayoutItems,
            ..s.data
        },
        ..s
    }
}

/// A coin arrived while waiting for cash: it is added to the cash and to
/// both accountings, the display is refreshed, and when the cash covers the
/// price the payout is decided and the item phase starts (`true`: the
/// handler returns). The caller restarts the cash-clear timer.
pub fn accept_coin(state: &mut VendingState, coin: CoinEvent) -> (r: (Vec<VendingAction>, bool))
    requires
        i32::MIN <= old(state).data.cash + coin.value <= i32::MAX,
        i32::MIN <= old(state).data.overall_accounting.cash_in + coin.value <= i32::MAX,
        i32::MIN <= old(state).data.period_accounting.cash_in + coin.value <= i32::MAX,
    ensures
        ({
            let s1 = with_coin(*old(state), coin.value);
            let done = s1.data.cash >= item_price(s1);
            &&& r.1 == done
            &&& *final(state) == if done {
                with_payout(s1)
            } else {
                s1
            }
            &&& actions_view(r.0@) == if done {
                seq![ActionView::Persist] + accept_display(s1) + seq![ActionView::Persist]
            } else {
                seq![ActionView::Persist] + accept_display(s1)
            }
        }),
{
    state.data.cash = state.data.cash + coin.value;
    state.data.overall_accounting.cash_in = state.data.overall_accounting.cash_in + coin.value;
    state.data.period_accounting.cash_in = state.data.period_accounting.cash_in + coin.value;
    let ghost s1 = *state;
    let mut v: Vec<VendingAction> = Vec::new();
    v.push(VendingAction::Persist);
    let d = update_accept_cash_display(state);
    let mut d = d;
    v.append(&mut d);
    if is_cash_pending(state) {
        let (items, coins, reminder) = create_payout(state);
        state.data.items_pending = items;
        state.data.coins_pending = coins;
        state.data.cash = reminder;
        state.data.app_state = AppState::PayoutItems;
        v.push(VendingAction::Persist);
        assert(state.data.coins_pending =~= [payout_spec(s1).1 as i32, payout_spec(s1).2 as i32]);
        assert(actions_view(v@) =~= seq![ActionView::Persist] + accept_display(s1) + seq![
            ActionView::Persist,
        ]);
        return (v, true);
    }
    assert(actions_view(v@) =~= seq![ActionView::Persist] + accept_display(s1));
    (v, false)
}

/// Total value of a run of coins.
pub open spec fn coin_sum(coins: Seq<Cash>) -> int
    decreases coins.len(),
{
    if coins.len() == 0 {
        0
    } else {
        coin_sum(coins.drop_last()) + coins.last()
    }
}

/// `s` with `total` added to the cash and to the cash taken in of both
/// accountings.
pub open spec fn credited(s: VendingState, total: int) -> VendingState {
    VendingState {
        data: VendingStateData {
            cash: (s.data.cash + total) as i32,
            overall_accounting: crate::state::Accounting {
                cash_in: (s.data.overall_accounting.cash_in + total) as i32,
                ..s.data.overall_accounting
            },
            period_accounting: crate::state::Accounting {
                cash_in: (s.data.period_accounting.cash_in + total) as i32,
                ..s.data.period_accounting
            },
            ..s.data
        },
        ..s
    }
}

/// The coins `coins` handed to `accept_coin` one after another, stopping
/// once it decides the payout: the state reached, and whether the payout
/// was decided.
pub open spec fn coin_run(s: VendingState, coins: Seq<Cash>) -> (VendingState, bool)
    decreases coins.len(),
{
    if coins.len() == 0 {
        (s, false)
    } else {
        let (p, done) = coin_run(s, coins.drop_last());
        if done {
            (p, true)
        } else {
            let s1 = with_coin(p, coins.last());
            if s1.data.cash >= item_price(s1) {
                (with_payout(s1), true)
            } else {
                (s1, false)
            }
        }
    }
}

/// Every running total of `coins`, added to the starting cash and to the
/// cash taken in of both accountings, stays within `i32`.
pub open spec fn coin_sums_fit(s: VendingState, coins: Seq<Cash>) -> bool {
    forall|j: int|
        0 <= j <= coins.len() ==> {
            &&& i32::MIN <= s.data.cash + #[trigger] coin_sum(coins.take(j)) <= i32::MAX
            &&& i32::MIN <= s.data.overall_accounting.cash_in + coin_sum(coins.take(j)) <= i32::MAX
            &&& i32::MIN <= s.data.period_accounting.cash_in + coin_sum(coins.take(j)) <= i32::MAX
        }
}

/// The cash after each of the first `n` coins of `coins` stays below the
/// price.
pub open spec fn below_price_until(s: VendingState, coins: Seq<Cash>, n: int) -> bool {
    forall|j: int| 0 < j <= n ==> s.data.cash + #[trigger] coin_sum(coins.take(j)) < item_price(s)
}

/// Coins accumulate up to the price, whatever their values (as long as the
/// running totals fit `i32`): while the cash after every coin so far stays
/// below the price, the cash is the starting cash plus the coins' sum (and
/// so is the cash taken in, in both accountings) and nothing else changes;
/// the first coin that brings the cash to the price decides the payout on
/// exactly that sum.
pub proof fn lemma_coins_accumulate_to_price(s: VendingState, coins: Seq<Cash>)
    requires
        coin_sums_fit(s, coins),
    ensures
        below_price_until(s, coins, coins.len() as int) ==> coin_run(s, coins) == (
            credited(s, coin_sum(coins)),
            false,
        ),
        coins.len() > 0 && below_price_until(s, coins, coins.len() - 1) && item_price(s)
            <= s.data.cash + coin_sum(coins) ==> coin_run(s, coins) == (
            with_payout(credited(s, coin_sum(coins))),
            true,
        ),
    decreases coins.len(),
{
    assert(coins.take(coins.len() as int) =~= coins);
    assert(coins.take(0) =~= Seq::<Cash>::empty());
    if coins.len() == 0 {
        assert(credited(s, 0) == s);
    } else {
        let n = coins.len() - 1;
        let dl = coins.drop_last();
        assert(dl =~= coins.take(n));
        assert forall|j: int| 0 <= j <= dl.len() implies #[trigger] dl.take(j) == coins.take(j) by {
            assert(dl.take(j) =~= coins.take(j));
        }
        assert(coin_sums_fit(s, dl)) by {
            assert forall|j: int| 0 <= j <= dl.len() implies {
                &&& i32::MIN <= s.data.cash + #[trigger] coin_sum(dl.take(j)) <= i32::MAX
                &&& i32::MIN <= s.data.overall_accounting.cash_in + coin_sum(dl.take(j)) <= i32::MAX
                &&& i32::MIN <= s.data.period_accounting.cash_in + coin_sum(dl.take(j)) <= i32::MAX
            } by {
                assert(dl.take(j) == coins.take(j));
                assert(i32::MIN <= s.data.cash + coin_sum(coins.take(j)) <= i32::MAX);
            }
        }
        lemma_coins_accumulate_to_price(s, dl);
        assert(coins.last() == coins[n]);
        assert(i32::MIN <= s.data.cash + coin_sum(coins.take(n)) <= i32::MAX);
        assert(i32::MIN <= s.data.cash + coin_sum(coins.take(n + 1)) <= i32::MAX);
        if below_price_until(s, coins, n) {
            assert(below_price_until(s, dl, dl.len() as int)) by {
                assert forall|j: int| 0 < j <= dl.len() implies s.data.cash + #[trigger] coin_sum(
                    dl.take(j),
                ) < item_price(s) by {
                    assert(dl.take(j) == coins.take(j));
                    assert(s.data.cash + coin_sum(coins.take(j)) < item_price(s));
                }
            }
            let p = credited(s, coin_sum(dl));
            assert(with_coin(p, coins.last()) == credited(s, coin_sum(coins)));
        }
        if below_price_until(s, coins, n + 1) {
            assert(s.data.cash + coin_sum(coins.take(n + 1)) < item_price(s));
        }
    }
}

/// A button or door event while waiting for cash: door changes are
/// handled, buttons are ignored.
pub fn accept_button(state: &mut VendingState, event: ButtonEvent) -> (r: Vec<VendingAction>)
    ensures
        final(state).data == old(state).data,
        final(state).settings == old(state).settings,
        match event {
            ButtonEvent::DoorChanged { door, opened } => {
                &&& final(state).errors.bits == if opened {
                    old(state).errors.bits | Errors::DOOR_OPENED
                } else {
                    old(state).errors.bits & !Errors::DOOR_OPENED
                }
                &&& actions_view(r@) == if opened {
                    seq![
                        ActionView::Gsm(
                            GsmCommand::SendSms {
                                phone_idx: 0,
                                kind: MessageKind::ReportIntrusion,
                            },
                        ),
                    ]
                } else {
                    Seq::empty()
                }
            },
            ButtonEvent::Pressed(_) => final(state).errors == old(state).errors && r@.len() == 0,
        },
{
    match event {
        ButtonEvent::Pressed(Button::Okay) => Vec::new(),
        ButtonEvent::DoorChanged { door, opened } => process_door_event(state, door, opened),
        _ => Vec::new(),
    }
}

/// The cash-clear timer while waiting for cash. With cash inserted at
/// `insert_time` and a non-zero clear timeout that has elapsed by `now`,
/// the cash is dropped and the display refreshed, and the timer stops;
/// without cash the timer stops; otherwise nothing changes. Returns the
/// actions and the timer.
pub fn accept_tick(state: &mut VendingState, insert_time: Option<u64>, now: u64) -> (r: (
    Vec<VendingAction>,
    Option<u64>,
))
    requires
        insert_time is Some ==> now >= insert_time->0,
    ensures
        ({
            let timeout = old(state).settings.cash_clear_timeout as int * 1000;
            match insert_time {
                None => *final(state) == *old(state) && r.0@.len() == 0 && r.1 is None,
                Some(t) => if old(state).data.cash <= 0 {
                    *final(state) == *old(state) && r.0@.len() == 0 && r.1 is None
                } else if timeout > 0 && now - t >= timeout {
                    let s1 = VendingState {
                        data: VendingStateData { cash: 0, ..old(state).data },
                        ..*old(state)
                    };
                    &&& *final(state) == s1
                    &&& actions_view(r.0@) == seq![ActionView::Persist] + accept_display(s1)
                    &&& r.1 is None
                } else {
                    *final(state) == *old(state) && r.0@.len() == 0 && r.1 == Some(t)
                },
            }
        }),
{
    match insert_time {
        None => (Vec::new(), None),
        Some(t) => {
            if state.data.cash > 0 {
                let timeout_ms = state.settings.cash_clear_timeout as u64 * 1000;
                if timeout_ms > 0 {
                    if now - t >= timeout_ms {
                        state.data.cash = 0;
                        let mut v: Vec<VendingAction> = Vec::new();
                        v.push(VendingAction::Persist);
                        let mut d = update_accept_cash_display(state);
                        v.append(&mut d);
                        assert(actions_view(v@) =~= seq![ActionView::Persist] + accept_display(
                            *state,
                        ));
                        return (v, None);
                    }
                }
                (Vec::new(), Some(t))
            } else {
                (Vec::new(), None)
            }
        },
    }
}

// ── Paying out the item ───────────────────────────────────────────────────

/// `x - 1`, saturating at the smallest value.
pub open spec fn sat_dec(x: i32) -> i32 {
    if x == i32::MIN {
        x
    } else {
        (x - 1) as i32
    }
}

fn dec_saturating(x: i32) -> (r: i32)
    ensures
        r == sat_dec(x),
{
    if x == i32::MIN {
        x
    } else {
        x - 1
    }
}

/// Progress line of an item payout: `k/N шт`.
pub open spec fn items_line(k: int, n: int) -> Seq<char> {
    int_chars(k) + "/"@ + int_chars(n) + " шт"@
}

fn items_line_text(k: Level, n: Level) -> (r: String)
    ensures
        r@ == items_line(k as int, n as int),
{
    let mut t = String::new();
    push_i32(&mut t, k);
    push_str(&mut t, "/");
    push_i32(&mut t, n);
    push_str(&mut t, " шт");
    assert(t@ =~= items_line(k as int, n as int));
    t
}

/// Entering the item phase: shows the phase; with no item pending or none
/// left the change phase starts at once (`None`); otherwise the dispenser
/// is started for the pending items and the progress line shows `0/N`.
pub fn payout_items_enter(state: &mut VendingState) -> (r: (Vec<VendingAction>, Option<
    ItemsProgress,
>))
    ensures
        ({
            let n = old(state).data.items_pending;
            if n <= 0 || old(state).data.item_level <= 0 {
                &&& *final(state) == VendingState {
                    data: VendingStateData { app_state: AppState::PayoutReminder, ..old(state).data },
                    ..*old(state)
                }
                &&& actions_view(r.0@) == seq![ActionView::Show { y: 0, text: "ВЫДАЧА ТОВАРА"@ }]
                &&& r.1 is None
            } else {
                &&& *final(state) == *old(state)
                &&& actions_view(r.0@) == seq![
                    ActionView::Show { y: 0, text: "ВЫДАЧА ТОВАРА"@ },
                    ActionView::Hopper(HopperCmd::Payout { hopper: 0, count: n }),
                    ActionView::Show { y: 1, text: items_line(0, n as int) },
                ]
                &&& r.1 == Some(ItemsProgress { total: n, items_out: 0 })
            }
        }),
{
    let mut v: Vec<VendingAction> = Vec::new();
    v.push(show(0, string_of("ВЫДАЧА ТОВАРА")));
    let items_pending = state.data.items_pending;
    if items_pending <= 0 || state.data.item_level <= 0 {
        state.data.app_state = AppState::PayoutReminder;
        assert(actions_view(v@) =~= seq![ActionView::Show { y: 0, text: "ВЫДАЧА ТОВАРА"@ }]);
        return (v, None);
    }
    v.push(VendingAction::Hopper(HopperCmd::Payout { hopper: 0, count: items_pending }));
    v.push(show(1, items_line_text(0, items_pending)));
    assert(actions_view(v@) =~= seq![
        ActionView::Show { y: 0, text: "ВЫДАЧА ТОВАРА"@ },
        ActionView::Hopper(HopperCmd::Payout { hopper: 0, count: items_pending }),
        ActionView::Show { y: 1, text: items_line(0, items_pending as int) },
    ]);
    (v, Some(ItemsProgress { total: items_pending, items_out: 0 }))
}

/// While a hopper pays out: with a fault set, the hopper is stopped and
/// the handler returns (`Some`).
pub fn stop_on_errors(state: &VendingState, hopper: u8) -> (r: Option<Vec<VendingAction>>)
    ensures
        state.errors.bits == 0 ==> r is None,
        state.errors.bits != 0 ==> r is Some && actions_view(r->0@) == seq![
            ActionView::Hopper(HopperCmd::Stop { hopper }),
        ],
{
    if !state.errors.is_empty() {
        let mut v: Vec<VendingAction> = Vec::new();
        v.push(VendingAction::Hopper(HopperCmd::Stop { hopper }));
        assert(actions_view(v@) =~= seq![ActionView::Hopper(HopperCmd::Stop { hopper })]);
        Some(v)
    } else {
        None
    }
}

/// The working data after one item left the dispenser: one less pending
/// and in stock (saturating), counted as free while free items are pending
/// and as sold otherwise.
pub open spec fn after_item(d: VendingStateData) -> VendingStateData {
    let base = VendingStateData {
        items_pending: sat_dec(d.items_pending),
        item_level: sat_dec(d.item_level),
        ..d
    };
    if d.free_items_pending > 0 {
        VendingStateData {
            free_items_pending: (d.free_items_pending - 1) as i32,
            overall_accounting: crate::state::Accounting {
                free_items_out: (d.overall_accounting.free_items_out + 1) as i32,
                ..d.overall_accounting
            },
            period_accounting: crate::state::Accounting {
                free_items_out: (d.period_accounting.free_items_out + 1) as i32,
                ..d.period_accounting
            },
            ..base
        }
    } else {
        VendingStateData {
            overall_accounting: crate::state::Accounting {
                items_out: (d.overall_accounting.items_out + 1) as i32,
                ..d.overall_accounting
            },
            period_accounting: crate::state::Accounting {
                items_out: (d.period_accounting.items_out + 1) as i32,
                ..d.period_accounting
            },
            ..base
        }
    }
}

/// One item leaving the dispenser is counted once: a paid item (no free
/// item pending) adds exactly one to the items sold of both the overall and
/// the period accounting and leaves the free-item counters alone; a free
/// item adds exactly one to the free items of both accountings, uses up one
/// pending free item and leaves the items sold alone. Either way the money
/// counters are unchanged and one item less is pending and in stock (the
/// counters stop at the smallest `i32`).
pub proof fn lemma_item_counted_once(d: VendingStateData)
    requires
        item_counters_fit(d),
    ensures
        ({
            let a = after_item(d);
            &&& a.overall_accounting.cash_in == d.overall_accounting.cash_in
            &&& a.overall_accounting.cash_out == d.overall_accounting.cash_out
            &&& a.period_accounting.cash_in == d.period_accounting.cash_in
            &&& a.period_accounting.cash_out == d.period_accounting.cash_out
            &&& a.cash == d.cash
            &&& a.items_pending == (if d.items_pending > i32::MIN { d.items_pending - 1 } else { d.items_pending as int })
            &&& a.item_level == (if d.item_level > i32::MIN { d.item_level - 1 } else { d.item_level as int })
            &&& d.free_items_pending <= 0 ==> {
                &&& a.overall_accounting.items_out == d.overall_accounting.items_out + 1
                &&& a.period_accounting.items_out == d.period_accounting.items_out + 1
                &&& a.overall_accounting.free_items_out == d.overall_accounting.free_items_out
                &&& a.period_accounting.free_items_out == d.period_accounting.free_items_out
                &&& a.free_items_pending == d.free_items_pending
            }
            &&& d.free_items_pending > 0 ==> {
                &&& a.overall_accounting.free_items_out == d.overall_accounting.free_items_out + 1
                &&& a.period_accounting.free_items_out == d.period_accounting.free_items_out + 1
                &&& a.overall_accounting.items_out == d.overall_accounting.items_out
                &&& a.period_accounting.items_out == d.period_accounting.items_out
                &&& a.free_items_pending == d.free_items_pending - 1
            }
        }),
{
}

/// The item counters can take one more item.
pub open spec fn item_counters_fit(d: VendingStateData) -> bool {
    if d.free_items_pending > 0 {
        d.overall_accounting.free_items_out < i32::MAX && d.period_accounting.free_items_out
            < i32::MAX
    } else {
        d.overall_accounting.items_out < i32::MAX && d.period_accounting.items_out < i32::MAX
    }
}

/// A hopper event during the item payout.
///
/// - An item from the dispenser (hopper 0) updates stock, pending count,
///   accounting and the progress line; when nothing is pending any more
///   the dispenser is stopped and the payout is finished (the loop then
///   waits 2 s and calls `payout_items_finish`).
/// - A dispenser fault stops it, sets the dispenser fault and reports the
///   faults to the first phone; a dispenser timeout stops it and sets the
///   dispenser fault. Both end the handler.
/// - Other events are ignored.
pub fn payout_items_event(
    state: &mut VendingState,
    progress: &mut ItemsProgress,
    event: HopperEvent,
) -> (r: (Vec<VendingAction>, PayoutStatus))
    requires
        old(progress).items_out < i32::MAX,
        item_counters_fit(old(state).data),
    ensures
        match event {
            HopperEvent::CoinDispensed { hopper: 0 } => {
                let d = after_item(old(state).data);
                let k = old(progress).items_out + 1;
                &&& final(state).data == d
                &&& final(state).settings == old(state).settings
                &&& final(state).errors == old(state).errors
                &&& *final(progress) == ItemsProgress { items_out: k as i32, ..*old(progress) }
                &&& if d.items_pending <= 0 {
                    &&& r.1 == PayoutStatus::Finished
                    &&& actions_view(r.0@) == seq![
                        ActionView::Persist,
                        ActionView::Show { y: 1, text: items_line(k, old(progress).total as int) },
                        ActionView::Hopper(HopperCmd::Stop { hopper: 0 }),
                    ]
                } else {
                    &&& r.1 == PayoutStatus::Continue
                    &&& actions_view(r.0@) == seq![
                        ActionView::Persist,
                        ActionView::Show { y: 1, text: items_line(k, old(progress).total as int) },
                    ]
                }
            },
            HopperEvent::Error { hopper: 0, error: _ } => {
                &&& final(state).data == old(state).data
                &&& final(state).settings == old(state).settings
                &&& final(state).errors.bits == old(state).errors.bits | Errors::ITEM_DISPENSER
                &&& *final(progress) == *old(progress)
                &&& r.1 == PayoutStatus::Aborted
                &&& actions_view(r.0@) == seq![
                    ActionView::Hopper(HopperCmd::Stop { hopper: 0 }),
                    ActionView::Gsm(
                        GsmCommand::SendSms { phone_idx: 0, kind: MessageKind::ReportErrors },
                    ),
                ]
            },
            HopperEvent::Timeout { hopper: 0 } => {
                &&& final(state).data == old(state).data
                &&& final(state).settings == old(state).settings
                &&& final(state).errors.bits == old(state).errors.bits | Errors::ITEM_DISPENSER
                &&& *final(progress) == *old(progress)
                &&& r.1 == PayoutStatus::Aborted
                &&& actions_view(r.0@) == seq![ActionView::Hopper(HopperCmd::Stop { hopper: 0 })]
            },
            _ => {
                &&& *final(state) == *old(state)
                &&& *final(progress) == *old(progress)
                &&& r.1 == PayoutStatus::Continue
                &&& r.0@.len() == 0
            },
        },
{
    let mut v: Vec<VendingAction> = Vec::new();
    match event {
        HopperEvent::CoinDispensed { hopper: 0 } => {
            progress.items_out = progress.items_out + 1;
            state.data.items_pending = dec_saturating(state.data.items_pending);
            state.data.item_level = dec_saturating(state.data.item_level);
            if state.data.free_items_pending > 0 {
                state.data.free_items_pending = state.data.free_items_pending - 1;
                state.data.overall_accounting.free_items_out =
                    state.data.overall_accounting.free_items_out + 1;
                state.data.period_accounting.free_items_out =
                    state.data.period_accounting.free_items_out + 1;
            } else {
                state.data.overall_accounting.items_out = state.data.overall_accounting.items_out
                    + 1;
                state.data.period_accounting.items_out = state.data.period_accounting.items_out
                    + 1;
            }
            v.push(VendingAction::Persist);
            v.push(show(1, items_line_text(progress.items_out, progress.total)));
            if state.data.items_pending <= 0 {
                v.push(VendingAction::Hopper(HopperCmd::Stop { hopper: 0 }));
                assert(actions_view(v@) =~= seq![
                    ActionView::Persist,
                    ActionView::Show {
                        y: 1,
                        text: items_line(progress.items_out as int, progress.total as int),
                    },
                    ActionView::Hopper(HopperCmd::Stop { hopper: 0 }),
                ]);
                return (v, PayoutStatus::Finished);
            }
            assert(actions_view(v@) =~= seq![
                ActionView::Persist,
                ActionView::Show {
                    y: 1,
                    text: items_line(progress.items_out as int, progress.total as int),
                },
            ]);
            (v, PayoutStatus::Continue)
        },
        HopperEvent::Error { hopper: 0, error: _ } => {
            v.push(VendingAction::Hopper(HopperCmd::Stop { hopper: 0 }));
            set_error(state, Errors::ITEM_DISPENSER);
            v.push(
                VendingAction::Gsm(
                    GsmCommand::SendSms { phone_idx: 0, kind: MessageKind::ReportErrors },
                ),
            );
            assert(actions_view(v@) =~= seq![
                ActionView::Hopper(HopperCmd::Stop { hopper: 0 }),
                ActionView::Gsm(
                    GsmCommand::SendSms { phone_idx: 0, kind: MessageKind::ReportErrors },
                ),
            ]);
            (v, PayoutStatus::Aborted)
        },
        HopperEvent::Timeout { hopper: 0 } => {
            v.push(VendingAction::Hopper(HopperCmd::Stop { hopper: 0 }));
            set_error(state, Errors::ITEM_DISPENSER);
            assert(actions_view(v@) =~= seq![ActionView::Hopper(HopperCmd::Stop { hopper: 0 })]);
            (v, PayoutStatus::Aborted)
        },
        _ => (v, PayoutStatus::Continue),
    }
}

/// After a finished item payout (and its 2 s message): the change phase
/// starts.
pub fn payout_items_finish(state: &mut VendingState)
    ensures
        *final(state) == (VendingState {
            data: VendingStateData { app_state: AppState::PayoutReminder, ..old(state).data },
            ..*old(state)
        }),
{
    state.data.app_state = AppState::PayoutReminder;
}


// ── Paying out the change ─────────────────────────────────────────────────

/// Some change is pending.
pub open spec fn has_coins_pending(d: VendingStateData) -> bool {
    d.coins_pending[0] > 0 || d.coins_pending[1] > 0
}

/// The hopper that dispenses items: it never pays change.
pub const ITEM_HOPPER: u8 = 0;

/// Change is pending in a coin hopper (every hopper but the item hopper).
/// A payout never plans change for the item hopper (see `payout_spec`);
/// coins pending for it in a stored state are never paid out, and the
/// final phase reports them with the undelivered change.
pub open spec fn coin_change_pending(d: VendingStateData) -> bool {
    d.coins_pending[1] > 0
}

/// `a` with entry `h` (0 or 1) replaced by `v`.
pub open spec fn with_entry(a: [Level; HOPPER_COUNT], h: int, v: Level) -> [Level; HOPPER_COUNT] {
    if h == 0 {
        [v, a[1]]
    } else {
        [a[0], v]
    }
}

/// Entering the change phase: with no change pending in a coin hopper the
/// final phase starts at once (`false`); otherwise the prompt is shown
/// (`true`) and the loop starts the change timer.
pub fn payout_reminder_enter(state: &mut VendingState) -> (r: (Vec<VendingAction>, bool))
    ensures
        !coin_change_pending(old(state).data) ==> {
            &&& *final(state) == (VendingState {
                data: VendingStateData { app_state: AppState::ProcessResidual, ..old(state).data },
                ..*old(state)
            })
            &&& r.0@.len() == 0
            &&& !r.1
        },
        coin_change_pending(old(state).data) ==> {
            &&& *final(state) == *old(state)
            &&& actions_view(r.0@) == seq![ActionView::Show { y: 0, text: "ЗАБЕРИТЕ СДАЧУ"@ }]
            &&& r.1
        },
{
    let mut v: Vec<VendingAction> = Vec::new();
    if !(state.data.coins_pending[1] > 0) {
        state.data.app_state = AppState::ProcessResidual;
        return (v, false);
    }
    v.push(show(0, string_of("ЗАБЕРИТЕ СДАЧУ")));
    assert(actions_view(v@) =~= seq![ActionView::Show { y: 0, text: "ЗАБЕРИТЕ СДАЧУ"@ }]);
    (v, true)
}

/// Line shown while hopper `h` pays `coins` coins of change.
pub open spec fn change_line(h: int, coins: int) -> Seq<char> {
    "Сдача хоппер "@ + int_chars(h + 1) + ": "@ + int_chars(coins)
}

/// Starts the change of one hopper (the loop takes hopper 1, then hopper
/// 0): nothing for the item hopper or when none of the hopper's coins are
/// pending (`None`), otherwise the hopper is started for them and the line
/// shows the count. No payout of change ever goes to the item hopper.
pub fn reminder_hopper_start(state: &VendingState, hopper: u8) -> (r: Option<Vec<VendingAction>>)
    requires
        hopper < HOPPER_COUNT,
    ensures
        (hopper == ITEM_HOPPER || state.data.coins_pending[hopper as int] <= 0) ==> r is None,
        hopper != ITEM_HOPPER && state.data.coins_pending[hopper as int] > 0 ==> r is Some
            && actions_view(r->0@) == seq![
            ActionView::Hopper(
                HopperCmd::Payout { hopper, count: state.data.coins_pending[hopper as int] },
            ),
            ActionView::Show {
                y: 1,
                text: change_line(hopper as int, state.data.coins_pending[hopper as int] as int),
            },
        ],
{
    if hopper == ITEM_HOPPER {
        return None;
    }
    let coins = state.data.coins_pending[hopper as usize];
    if coins <= 0 {
        return None;
    }
    let mut v: Vec<VendingAction> = Vec::new();
    v.push(VendingAction::Hopper(HopperCmd::Payout { hopper, count: coins }));
    let mut t = String::new();
    push_str(&mut t, "Сдача хоппер ");
    push_i32(&mut t, hopper as i32 + 1);
    push_str(&mut t, ": ");
    push_i32(&mut t, coins);
    assert(t@ =~= change_line(hopper as int, coins as int));
    v.push(show(1, t));
    assert(actions_view(v@) =~= seq![
        ActionView::Hopper(HopperCmd::Payout { hopper, count: coins }),
        ActionView::Show { y: 1, text: change_line(hopper as int, coins as int) },
    ]);
    Some(v)
}

/// The change timer while hopper `hopper` pays: once `elapsed_s` seconds
/// reach the residual timeout the hopper is stopped, one pending coin of it
/// is forfeited (when any is pending), the final phase starts and the state
/// is persisted (`Some`: the handler returns); before that nothing changes.
pub fn reminder_timeout(state: &mut VendingState, hopper: u8, elapsed_s: u64) -> (r: Option<
    Vec<VendingAction>,
>)
    requires
        hopper < HOPPER_COUNT,
    ensures
        elapsed_s < RESIDUAL_TIMEOUT_S ==> *final(state) == *old(state) && r is None,
        elapsed_s >= RESIDUAL_TIMEOUT_S ==> {
            let h = hopper as int;
            let c = old(state).data.coins_pending[h];
            &&& final(state).data == (VendingStateData {
                coins_pending: if c > 0 {
                    with_entry(old(state).data.coins_pending, h, (c - 1) as i32)
                } else {
                    old(state).data.coins_pending
                },
                app_state: AppState::ProcessResidual,
                ..old(state).data
            })
            &&& final(state).settings == old(state).settings
            &&& final(state).errors == old(state).errors
            &&& r is Some
            &&& actions_view(r->0@) == seq![
                ActionView::Hopper(HopperCmd::Stop { hopper }),
                ActionView::Persist,
            ]
        },
{
    if elapsed_s < RESIDUAL_TIMEOUT_S as u64 {
        return None;
    }
    let h = hopper as usize;
    let mut v: Vec<VendingAction> = Vec::new();
    v.push(VendingAction::Hopper(HopperCmd::Stop { hopper }));
    let c = state.data.coins_pending[h];
    if c > 0 {
        state.data.coins_pending[h] = c - 1;
        assert(state.data.coins_pending =~= with_entry(old(state).data.coins_pending, h as int, (c - 1) as i32));
    }
    state.data.app_state = AppState::ProcessResidual;
    v.push(VendingAction::Persist);
    assert(actions_view(v@) =~= seq![
        ActionView::Hopper(HopperCmd::Stop { hopper }),
        ActionView::Persist,
    ]);
    Some(v)
}

/// The working data after one change coin of value `value` left hopper
/// `h`: paid-out cash grows in both accountings, the hopper level and its
/// pending count drop by one (saturating).
pub open spec fn after_change_coin(d: VendingStateData, h: int, value: Cash) -> VendingStateData {
    VendingStateData {
        overall_accounting: crate::state::Accounting {
            cash_out: (d.overall_accounting.cash_out + value) as i32,
            ..d.overall_accounting
        },
        period_accounting: crate::state::Accounting {
            cash_out: (d.period_accounting.cash_out + value) as i32,
            ..d.period_accounting
        },
        coin_levels: with_entry(d.coin_levels, h, sat_dec(d.coin_levels[h])),
        coins_pending: with_entry(d.coins_pending, h, sat_dec(d.coins_pending[h])),
        ..d
    }
}

/// The event is a coin, fault or timeout of hopper `hopper`.
pub open spec fn concerns_hopper(event: HopperEvent, hopper: u8) -> bool {
    match event {
        HopperEvent::CoinDispensed { hopper: e } => e == hopper,
        HopperEvent::Error { hopper: e, error: _ } => e == hopper,
        HopperEvent::Timeout { hopper: e } => e == hopper,
        HopperEvent::Quiet => false,
    }
}

/// A hopper event while hopper `hopper` pays change.
///
/// - A coin from that hopper is counted (`after_change_coin`) and
///   persisted; when none of its coins are pending any more it is stopped
///   and its payout is finished.
/// - A fault of that hopper stops it, sets the coin hopper fault and sends
///   the hopper warning to the first phone; a timeout stops it and sets the
///   coin hopper fault. Both end the handler.
/// - Other events are ignored.
pub fn reminder_event(state: &mut VendingState, hopper: u8, event: HopperEvent) -> (r: (
    Vec<VendingAction>,
    PayoutStatus,
))
    requires
        hopper < HOPPER_COUNT,
        i32::MIN <= old(state).data.overall_accounting.cash_out
            + old(state).settings.coin_hoppers[hopper as int].coin_value <= i32::MAX,
        i32::MIN <= old(state).data.period_accounting.cash_out
            + old(state).settings.coin_hoppers[hopper as int].coin_value <= i32::MAX,
    ensures
        event == (HopperEvent::CoinDispensed { hopper }) ==> {
            let h = hopper as int;
            let d = after_change_coin(
                old(state).data,
                h,
                old(state).settings.coin_hoppers[h].coin_value,
            );
            &&& final(state).data == d
            &&& final(state).settings == old(state).settings
            &&& final(state).errors == old(state).errors
            &&& if d.coins_pending[h] <= 0 {
                &&& r.1 == PayoutStatus::Finished
                &&& actions_view(r.0@) == seq![
                    ActionView::Persist,
                    ActionView::Hopper(HopperCmd::Stop { hopper }),
                ]
            } else {
                &&& r.1 == PayoutStatus::Continue
                &&& actions_view(r.0@) == seq![ActionView::Persist]
            }
        },
        event matches HopperEvent::Error { hopper: e, error: _ } && e == hopper ==> {
            &&& final(state).data == old(state).data
            &&& final(state).settings == old(state).settings
            &&& final(state).errors.bits == old(state).errors.bits | Errors::COIN_HOPPER
            &&& r.1 == PayoutStatus::Aborted
            &&& actions_view(r.0@) == seq![
                ActionView::Hopper(HopperCmd::Stop { hopper }),
                ActionView::Gsm(
                    GsmCommand::SendSms { phone_idx: 0, kind: MessageKind::CoinHopperWarningLevel },
                ),
            ]
        },
        event == (HopperEvent::Timeout { hopper }) ==> {
            &&& final(state).data == old(state).data
            &&& final(state).settings == old(state).settings
            &&& final(state).errors.bits == old(state).errors.bits | Errors::COIN_HOPPER
            &&& r.1 == PayoutStatus::Aborted
            &&& actions_view(r.0@) == seq![ActionView::Hopper(HopperCmd::Stop { hopper })]
        },
        !concerns_hopper(event, hopper) ==> {
            &&& *final(state) == *old(state)
            &&& r.1 == PayoutStatus::Continue
            &&& r.0@.len() == 0
        },
{
    let h = hopper as usize;
    let mut v: Vec<VendingAction> = Vec::new();
    let concerned = match event {
        HopperEvent::CoinDispensed { hopper: e } => e == hopper,
        HopperEvent::Error { hopper: e, error: _ } => e == hopper,
        HopperEvent::Timeout { hopper: e } => e == hopper,
        HopperEvent::Quiet => false,
    };
    if !concerned {
        return (v, PayoutStatus::Continue);
    }
    match event {
        HopperEvent::CoinDispensed { hopper: _ } => {
            let ghost d0 = state.data;
            let coin_value = state.settings.coin_hoppers[h].coin_value;
            state.data.overall_accounting.cash_out = state.data.overall_accounting.cash_out
                + coin_value;
            state.data.period_accounting.cash_out = state.data.period_accounting.cash_out
                + coin_value;
            let level = dec_saturating(state.data.coin_levels[h]);
            state.data.coin_levels[h] = level;
            let pending = dec_saturating(state.data.coins_pending[h]);
            state.data.coins_pending[h] = pending;
            assert(state.data.coin_levels =~= with_entry(d0.coin_levels, h as int, level));
            assert(state.data.coins_pending =~= with_entry(d0.coins_pending, h as int, pending));
            assert(state.data == after_change_coin(d0, h as int, coin_value));
            assert(state.data.coins_pending[h as int] == pending);
            assert(state.settings.coin_hoppers[h as int].coin_value == coin_value);
            v.push(VendingAction::Persist);
            if pending <= 0 {
                v.push(VendingAction::Hopper(HopperCmd::Stop { hopper }));
                assert(actions_view(v@) =~= seq![
                    ActionView::Persist,
                    ActionView::Hopper(HopperCmd::Stop { hopper }),
                ]);
                return (v, PayoutStatus::Finished);
            }
            assert(actions_view(v@) =~= seq![ActionView::Persist]);
            (v, PayoutStatus::Continue)
        },
        HopperEvent::Error { hopper: _, error: _ } => {
            v.push(VendingAction::Hopper(HopperCmd::Stop { hopper }));
            set_error(state, Errors::COIN_HOPPER);
            v.push(
                VendingAction::Gsm(
                    GsmCommand::SendSms { phone_idx: 0, kind: MessageKind::CoinHopperWarningLevel },
                ),
            );
            assert(actions_view(v@) =~= seq![
                ActionView::Hopper(HopperCmd::Stop { hopper }),
                ActionView::Gsm(
                    GsmCommand::SendSms { phone_idx: 0, kind: MessageKind::CoinHopperWarningLevel },
                ),
            ]);
            (v, PayoutStatus::Aborted)
        },
        HopperEvent::Timeout { hopper: _ } => {
            v.push(VendingAction::Hopper(HopperCmd::Stop { hopper }));
            set_error(state, Errors::COIN_HOPPER);
            assert(actions_view(v@) =~= seq![ActionView::Hopper(HopperCmd::Stop { hopper })]);
            (v, PayoutStatus::Aborted)
        },
        HopperEvent::Quiet => (v, PayoutStatus::Continue),
    }
}

/// After all change was paid (and its 2 s message): the final phase starts.
pub fn payout_reminder_finish(state: &mut VendingState)
    ensures
        *final(state) == (VendingState {
            data: VendingStateData { app_state: AppState::ProcessResidual, ..old(state).data },
            ..*old(state)
        }),
{
    state.data.app_state = AppState::ProcessResidual;
}

// ── Finishing ─────────────────────────────────────────────────────────────

/// Value of the change still pending.
pub open spec fn pending_change(s: VendingState) -> int {
    s.data.coins_pending[0] * s.settings.coin_hoppers[0].coin_value + s.data.coins_pending[1]
        * s.settings.coin_hoppers[1].coin_value
}

/// The pending change fits the cash type, summed hopper by hopper.
pub open spec fn pending_change_fits(s: VendingState) -> bool {
    let a = s.data.coins_pending[0] * s.settings.coin_hoppers[0].coin_value;
    let b = s.data.coins_pending[1] * s.settings.coin_hoppers[1].coin_value;
    &&& i32::MIN <= a <= i32::MAX
    &&& i32::MIN <= b <= i32::MAX
    &&& i32::MIN <= a + b <= i32::MAX
}

/// Value of the change still pending.
pub fn get_pending_reminder_in_cash(state: &VendingState) -> (r: Cash)
    requires
        pending_change_fits(*state),
    ensures
        r == pending_change(*state),
{
    let mut cash: Cash = 0;
    let mut i: usize = 0;
    while i < HOPPER_COUNT
        invariant
            i <= HOPPER_COUNT,
            pending_change_fits(*state),
            i == 0 ==> cash == 0,
            i == 1 ==> cash == state.data.coins_pending[0] * state.settings.coin_hoppers[0].coin_value,
            i == 2 ==> cash == pending_change(*state),
        decreases HOPPER_COUNT - i,
    {
        cash = cash + state.data.coins_pending[i] * state.settings.coin_hoppers[i].coin_value;
        i = i + 1;
    }
    cash
}

/// Something paid for was not delivered: an item or change is pending.
pub open spec fn has_residual(d: VendingStateData) -> bool {
    d.items_pending > 0 || has_coins_pending(d)
}

/// Line reporting what was not delivered: items and change value.
pub open spec fn residual_line(items: int, change: int) -> Seq<char> {
    "Тов:"@ + int_chars(items) + " Сдач:"@ + int_chars(change)
}

/// The final phase, first part. With something undelivered the customer is
/// told what (items and change value) and the transaction log is closed
/// with a fresh entry at time 0, for a wait of the residual timeout;
/// otherwise the customer is thanked, for a wait of the thanks delay.
/// Returns the actions and the wait in seconds.
pub fn process_residual_begin(state: &mut VendingState) -> (r: (Vec<VendingAction>, u64))
    requires
        has_residual(old(state).data) ==> pending_change_fits(*old(state)),
    ensures
        has_residual(old(state).data) ==> {
            &&& final(state).data == (VendingStateData {
                transactions: final(state).data.transactions,
                ..old(state).data
            })
            &&& final(state).data.transactions@ == after_close(old(state).data.transactions@, 0)
            &&& final(state).settings == old(state).settings
            &&& final(state).errors == old(state).errors
            &&& actions_view(r.0@) == seq![
                ActionView::Show { y: 0, text: "НЕ ВЫДАНО"@ },
                ActionView::Show {
                    y: 1,
                    text: residual_line(
                        old(state).data.items_pending as int,
                        pending_change(*old(state)),
                    ),
                },
            ]
            &&& r.1 == RESIDUAL_TIMEOUT_S
        },
        !has_residual(old(state).data) ==> {
            &&& *final(state) == *old(state)
            &&& actions_view(r.0@) == seq![
                ActionView::Show { y: 0, text: "СПАСИБО!"@ },
                ActionView::Show { y: 1, text: "ЗА ПОКУПКУ"@ },
            ]
            &&& r.1 == THANKS_MESSAGE_DELAY_S
        },
{
    let items_pending = state.data.items_pending;
    let has_coins = state.data.coins_pending[0] > 0 || state.data.coins_pending[1] > 0;
    let mut v: Vec<VendingAction> = Vec::new();
    if items_pending > 0 || has_coins {
        v.push(show(0, string_of("НЕ ВЫДАНО")));
        let reminder_cash = get_pending_reminder_in_cash(state);
        let mut t = String::new();
        push_str(&mut t, "Тов:");
        push_i32(&mut t, items_pending);
        push_str(&mut t, " Сдач:");
        push_i32(&mut t, reminder_cash);
        assert(t@ =~= residual_line(items_pending as int, reminder_cash as int));
        v.push(show(1, t));
        close_transaction(&mut state.data.transactions, 0);
        assert(actions_view(v@) =~= seq![
            ActionView::Show { y: 0, text: "НЕ ВЫДАНО"@ },
            ActionView::Show { y: 1, text: residual_line(items_pending as int, reminder_cash as int) },
        ]);
        (v, RESIDUAL_TIMEOUT_S as u64)
    } else {
        v.push(show(0, string_of("СПАСИБО!")));
        v.push(show(1, string_of("ЗА ПОКУПКУ")));
        assert(actions_view(v@) =~= seq![
            ActionView::Show { y: 0, text: "СПАСИБО!"@ },
            ActionView::Show { y: 1, text: "ЗА ПОКУПКУ"@ },
        ]);
        (v, THANKS_MESSAGE_DELAY_S)
    }
}

/// The final phase, after its wait: cash and everything pending are
/// dropped, the cash phase starts and the state is persisted.
pub fn process_residual_finish(state: &mut VendingState) -> (r: Vec<VendingAction>)
    ensures
        final(state).data == (VendingStateData {
            cash: 0,
            app_state: AppState::AcceptCash,
            ..without_pending(old(state).data)
        }),
        final(state).settings == old(state).settings,
        final(state).errors == old(state).errors,
        actions_view(r@) == seq![ActionView::Persist],
{
    state.data.cash = 0;
    state.data.coins_pending = [0, 0];
    state.data.items_pending = 0;
    state.data.free_items_pending = 0;
    state.data.app_state = AppState::AcceptCash;
    let mut v: Vec<VendingAction> = Vec::new();
    v.push(VendingAction::Persist);
    assert(actions_view(v@) =~= seq![ActionView::Persist]);
    v
}

} // verus!
