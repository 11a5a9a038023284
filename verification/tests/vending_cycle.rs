use bahilizator::coin_acceptor::CoinEvent;
use bahilizator::error::Errors;
use bahilizator::gsm::GsmCommand;
use bahilizator::hopper::{HopperCmd, HopperEvent};
use bahilizator::state::{AppState, MessageKind, VendingState};
use bahilizator::vending::{
    accept_cash_enter, accept_coin, accept_tick, create_payout, dispatch, get_pending_reminder_in_cash,
    payout_items_enter, payout_items_event, payout_items_finish, payout_reminder_enter,
    payout_reminder_finish, process_door_event, process_errors, process_residual_begin,
    process_residual_finish, reminder_event, reminder_hopper_start, reminder_timeout,
    stop_on_errors, Dispatch, ItemsProgress, PayoutStatus, VendingAction,
};

fn machine() -> VendingState {
    let mut s = VendingState::default();
    s.settings.item_dispenser.coin_value = 100;
    s.settings.coin_hoppers[0].coin_value = 10;
    s.settings.coin_hoppers[1].coin_value = 50;
    s.data.item_level = 5;
    s.data.coin_levels = [10, 2];
    s
}

fn show(a: &VendingAction) -> (u8, String) {
    match a {
        VendingAction::Show { y, text } => (*y, text.clone()),
        _ => panic!("not a display action"),
    }
}

#[test]
fn change_comes_from_the_coin_hopper_only() {
    let mut s = machine();
    s.data.cash = 200;
    assert_eq!(create_payout(&s), (1, [0, 2], 0));
}

#[test]
fn payout_keeps_unpaid_change() {
    let mut s = machine();
    s.data.cash = 250;
    s.data.coin_levels = [1, 2];
    assert_eq!(create_payout(&s), (1, [0, 2], 50));
    s.data.cash = 170;
    assert_eq!(create_payout(&s), (1, [0, 1], 20));
}

#[test]
fn payout_without_price_or_stock_pays_nothing() {
    let mut s = machine();
    s.data.cash = 250;
    s.settings.item_dispenser.coin_value = 0;
    assert_eq!(create_payout(&s), (0, [0, 0], 250));
    let mut t = machine();
    t.data.cash = 50;
    assert_eq!(create_payout(&t), (0, [0, 0], 50));
    let mut u = machine();
    u.data.cash = 150;
    u.data.item_level = 0;
    assert_eq!(create_payout(&u), (0, [0, 0], 150));
}

#[test]
fn coins_accumulate_until_the_price() {
    let mut s = machine();
    let (acts, done) = accept_coin(&mut s, CoinEvent { channel: 0, value: 50 });
    assert!(!done);
    assert_eq!(s.data.cash, 50);
    assert_eq!(s.data.overall_accounting.cash_in, 50);
    assert_eq!(s.data.period_accounting.cash_in, 50);
    assert_eq!(acts.len(), 3);
    assert!(matches!(acts[0], VendingAction::Persist));
    assert_eq!(show(&acts[1]), (0, "ВСТАВЬТЕ МОНЕТЫ".to_string()));
    assert_eq!(show(&acts[2]), (1, "Наличность: 50".to_string()));

    let (acts, done) = accept_coin(&mut s, CoinEvent { channel: 1, value: 100 });
    assert!(done);
    assert_eq!(acts.len(), 4);
    assert!(matches!(acts[3], VendingAction::Persist));
    assert_eq!(s.data.app_state, AppState::PayoutItems);
    assert_eq!(s.data.items_pending, 1);
    assert_eq!(s.data.coins_pending, [0, 1]);
    assert_eq!(s.data.cash, 0);
}

#[test]
fn empty_dispenser_refuses_cash() {
    let mut s = machine();
    s.data.item_level = 0;
    assert!(accept_cash_enter(&mut s).is_none());
    assert!(s.errors.contains(Errors::ITEM_DISPENSER_EMPTY));
    let mut t = machine();
    let acts = accept_cash_enter(&mut t).unwrap();
    assert_eq!(show(&acts[1]), (1, "Цена: 100".to_string()));
}

#[test]
fn idle_cash_is_dropped_after_the_clear_timeout() {
    let mut s = machine();
    s.settings.cash_clear_timeout = 10;
    s.data.cash = 30;
    let (acts, timer) = accept_tick(&mut s, Some(1_000), 5_000);
    assert!(acts.is_empty());
    assert_eq!(timer, Some(1_000));
    let (acts, timer) = accept_tick(&mut s, Some(1_000), 11_000);
    assert_eq!(timer, None);
    assert_eq!(s.data.cash, 0);
    assert_eq!(acts.len(), 3);
    assert_eq!(show(&acts[2]), (1, "Цена: 100".to_string()));
}

#[test]
fn faults_take_over_and_drop_pending_payouts() {
    let mut s = machine();
    s.data.items_pending = 1;
    s.data.coins_pending = [2, 3];
    s.errors.insert(Errors::DOOR_OPENED);
    assert_eq!(dispatch(&s), Dispatch::ServeErrors);
    let acts = process_errors(&mut s);
    assert_eq!(show(&acts[0]), (0, "НЕТ ОБСЛУЖИВАНИЯ".to_string()));
    assert_eq!(show(&acts[1]), (1, "ERR 20000".to_string()));
    assert!(matches!(
        acts[2],
        VendingAction::Gsm(GsmCommand::SendSms { phone_idx: 0, kind: MessageKind::ReportErrors })
    ));
    assert_eq!(s.data.items_pending, 0);
    assert_eq!(s.data.coins_pending, [0, 0]);
}

#[test]
fn door_open_and_close() {
    let mut s = machine();
    let acts = process_door_event(&mut s, 0, true);
    assert!(s.errors.contains(Errors::DOOR_OPENED));
    assert!(matches!(
        acts[0],
        VendingAction::Gsm(GsmCommand::SendSms { phone_idx: 0, kind: MessageKind::ReportIntrusion })
    ));
    let acts = process_door_event(&mut s, 0, false);
    assert!(acts.is_empty());
    assert!(s.errors.is_empty());
    assert_eq!(dispatch(&s), Dispatch::Handle(AppState::AcceptCash));
}

#[test]
fn item_payout_counts_the_item() {
    let mut s = machine();
    s.data.items_pending = 1;
    s.data.app_state = AppState::PayoutItems;
    let (acts, progress) = payout_items_enter(&mut s);
    let mut progress = progress.unwrap();
    assert_eq!(progress, ItemsProgress { total: 1, items_out: 0 });
    assert_eq!(show(&acts[0]), (0, "ВЫДАЧА ТОВАРА".to_string()));
    assert!(matches!(acts[1], VendingAction::Hopper(HopperCmd::Payout { hopper: 0, count: 1 })));
    assert_eq!(show(&acts[2]), (1, "0/1 шт".to_string()));

    let (acts, status) = payout_items_event(&mut s, &mut progress, HopperEvent::CoinDispensed { hopper: 0 });
    assert_eq!(status, PayoutStatus::Finished);
    assert_eq!(show(&acts[1]), (1, "1/1 шт".to_string()));
    assert!(matches!(acts[2], VendingAction::Hopper(HopperCmd::Stop { hopper: 0 })));
    assert_eq!(s.data.item_level, 4);
    assert_eq!(s.data.items_pending, 0);
    assert_eq!(s.data.overall_accounting.items_out, 1);
    payout_items_finish(&mut s);
    assert_eq!(s.data.app_state, AppState::PayoutReminder);
}

#[test]
fn free_items_are_counted_apart() {
    let mut s = machine();
    s.data.items_pending = 1;
    s.data.free_items_pending = 1;
    let mut progress = ItemsProgress { total: 1, items_out: 0 };
    let _ = payout_items_event(&mut s, &mut progress, HopperEvent::CoinDispensed { hopper: 0 });
    assert_eq!(s.data.free_items_pending, 0);
    assert_eq!(s.data.overall_accounting.free_items_out, 1);
    assert_eq!(s.data.overall_accounting.items_out, 0);
}

#[test]
fn dispenser_fault_aborts_the_item_payout() {
    let mut s = machine();
    s.data.items_pending = 1;
    let mut progress = ItemsProgress { total: 1, items_out: 0 };
    let (acts, status) = payout_items_event(&mut s, &mut progress, HopperEvent::Timeout { hopper: 0 });
    assert_eq!(status, PayoutStatus::Aborted);
    assert_eq!(acts.len(), 1);
    assert!(s.errors.contains(Errors::ITEM_DISPENSER));
    assert!(stop_on_errors(&s, 0).is_some());
}

#[test]
fn change_is_paid_coin_by_coin() {
    let mut s = machine();
    s.data.coins_pending = [0, 2];
    s.data.app_state = AppState::PayoutReminder;
    let (acts, start) = payout_reminder_enter(&mut s);
    assert!(start);
    assert_eq!(show(&acts[0]), (0, "ЗАБЕРИТЕ СДАЧУ".to_string()));
    assert!(reminder_hopper_start(&s, 0).is_none());
    let acts = reminder_hopper_start(&s, 1).unwrap();
    assert!(matches!(acts[0], VendingAction::Hopper(HopperCmd::Payout { hopper: 1, count: 2 })));
    assert_eq!(show(&acts[1]), (1, "Сдача хоппер 2: 2".to_string()));

    let (acts, status) = reminder_event(&mut s, 1, HopperEvent::CoinDispensed { hopper: 1 });
    assert_eq!(status, PayoutStatus::Continue);
    assert_eq!(acts.len(), 1);
    assert_eq!(s.data.coins_pending, [0, 1]);
    assert_eq!(s.data.coin_levels, [10, 1]);
    assert_eq!(s.data.overall_accounting.cash_out, 50);
    let (_, status) = reminder_event(&mut s, 1, HopperEvent::CoinDispensed { hopper: 0 });
    assert_eq!(status, PayoutStatus::Continue);
    assert_eq!(s.data.coins_pending, [0, 1]);
    let (acts, status) = reminder_event(&mut s, 1, HopperEvent::CoinDispensed { hopper: 1 });
    assert_eq!(status, PayoutStatus::Finished);
    assert!(matches!(acts[1], VendingAction::Hopper(HopperCmd::Stop { hopper: 1 })));
    payout_reminder_finish(&mut s);
    assert_eq!(s.data.app_state, AppState::ProcessResidual);
}

#[test]
fn no_change_skips_the_change_phase() {
    let mut s = machine();
    let (acts, start) = payout_reminder_enter(&mut s);
    assert!(!start);
    assert!(acts.is_empty());
    assert_eq!(s.data.app_state, AppState::ProcessResidual);
}

#[test]
fn change_timeout_forfeits_one_coin() {
    let mut s = machine();
    s.data.coins_pending = [0, 3];
    assert!(reminder_timeout(&mut s, 1, 14).is_none());
    let acts = reminder_timeout(&mut s, 1, 15).unwrap();
    assert!(matches!(acts[0], VendingAction::Hopper(HopperCmd::Stop { hopper: 1 })));
    assert!(matches!(acts[1], VendingAction::Persist));
    assert_eq!(s.data.coins_pending, [0, 2]);
    assert_eq!(s.data.app_state, AppState::ProcessResidual);
}

#[test]
fn hopper_fault_during_change() {
    let mut s = machine();
    s.data.coins_pending = [0, 1];
    let (acts, status) = reminder_event(
        &mut s,
        1,
        HopperEvent::Error { hopper: 1, error: bahilizator::error::DispenserError::Jam },
    );
    assert_eq!(status, PayoutStatus::Aborted);
    assert!(s.errors.contains(Errors::COIN_HOPPER));
    assert!(matches!(
        acts[1],
        VendingAction::Gsm(GsmCommand::SendSms { phone_idx: 0, kind: MessageKind::CoinHopperWarningLevel })
    ));
}

#[test]
fn thanks_when_everything_was_delivered() {
    let mut s = machine();
    let (acts, wait) = process_residual_begin(&mut s);
    assert_eq!(wait, 3);
    assert_eq!(show(&acts[0]), (0, "СПАСИБО!".to_string()));
    assert_eq!(show(&acts[1]), (1, "ЗА ПОКУПКУ".to_string()));
}

#[test]
fn undelivered_goods_are_reported() {
    let mut s = machine();
    s.data.items_pending = 1;
    s.data.coins_pending = [2, 1];
    assert_eq!(get_pending_reminder_in_cash(&s), 70);
    let (acts, wait) = process_residual_begin(&mut s);
    assert_eq!(wait, 15);
    assert_eq!(show(&acts[0]), (0, "НЕ ВЫДАНО".to_string()));
    assert_eq!(show(&acts[1]), (1, "Тов:1 Сдач:70".to_string()));
    assert_eq!(s.data.transactions[0].timestamp, 0);
    assert!(!s.data.transactions[0].closed);
    let acts = process_residual_finish(&mut s);
    assert!(matches!(acts[0], VendingAction::Persist));
    assert_eq!(s.data.app_state, AppState::AcceptCash);
    assert_eq!(s.data.items_pending, 0);
    assert_eq!(s.data.coins_pending, [0, 0]);
    assert_eq!(s.data.cash, 0);
}

#[test]
fn item_hopper_never_pays_change() {
    let mut s = machine();
    s.data.coins_pending = [3, 0];
    s.data.app_state = AppState::PayoutReminder;
    let (acts, start) = payout_reminder_enter(&mut s);
    assert!(!start);
    assert!(acts.is_empty());
    assert_eq!(s.data.app_state, AppState::ProcessResidual);
    assert!(reminder_hopper_start(&s, 0).is_none());
    let mut t = machine();
    t.data.coins_pending = [3, 2];
    let (_, start) = payout_reminder_enter(&mut t);
    assert!(start);
    assert!(reminder_hopper_start(&t, 0).is_none());
    assert!(matches!(
        reminder_hopper_start(&t, 1).unwrap()[0],
        VendingAction::Hopper(HopperCmd::Payout { hopper: 1, count: 2 })
    ));
    let (acts, wait) = process_residual_begin(&mut s);
    assert_eq!(wait, 15);
    assert_eq!(show(&acts[1]), (1, "Тов:0 Сдач:30".to_string()));
}

#[test]
fn coins_add_up_until_the_price() {
    let mut s = machine();
    let coins = [20, 30, 10, 40];
    let mut total = 0;
    for (k, c) in coins.iter().enumerate() {
        let (_, done) = accept_coin(&mut s, CoinEvent { channel: 0, value: *c });
        total += *c;
        if k + 1 < coins.len() {
            assert!(!done);
            assert_eq!(s.data.cash, total);
            assert_eq!(s.data.overall_accounting.cash_in, total);
            assert_eq!(s.data.period_accounting.cash_in, total);
        } else {
            assert!(done);
            assert_eq!(s.data.app_state, AppState::PayoutItems);
            assert_eq!(s.data.items_pending, 1);
            assert_eq!(s.data.cash, 0);
        }
    }
}

#[test]
fn coin_run_with_a_refund_adds_up_until_the_price() {
    let mut s = machine();
    let (_, done) = accept_coin(&mut s, CoinEvent { channel: 0, value: 80 });
    assert!(!done);
    let (_, done) = accept_coin(&mut s, CoinEvent { channel: 1, value: -30 });
    assert!(!done);
    assert_eq!(s.data.cash, 50);
    assert_eq!(s.data.overall_accounting.cash_in, 50);
    let (_, done) = accept_coin(&mut s, CoinEvent { channel: 2, value: 50 });
    assert!(done);
    assert_eq!(s.data.overall_accounting.cash_in, 100);
    assert_eq!(s.data.period_accounting.cash_in, 100);
    assert_eq!(s.data.app_state, AppState::PayoutItems);
    assert_eq!(s.data.cash, 0);
}
