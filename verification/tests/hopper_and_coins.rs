use bahilizator::coin_acceptor::{
    coin_mode, get_channel_mask, get_coin_value, read_coin_channels, read_coin_pulse_pin, CoinEvent,
    CoinMode, NormalDecoder, NormalStage, PulseDecoder, PulseStage,
};
use bahilizator::error::DispenserError;
use bahilizator::hopper::{
    apply_hopper_cmd, hopper_a_config, hopper_b_config, poll_hoppers, Hopper, HopperCmd, HopperEvent,
};
use bahilizator::state::VendingState;

fn pulse(h: &mut Hopper, start: u64, len: u64) -> (HopperEvent, HopperEvent) {
    h.update_sensors(true, false);
    let e1 = h.poll(start);
    h.update_sensors(false, false);
    let e2 = h.poll(start + len);
    (e1, e2)
}

#[test]
fn hopper_counts_valid_pulses_and_stops() {
    let mut h = Hopper::new(hopper_b_config());
    h.request_payout(2);
    assert!(h.is_paying());
    assert_eq!(pulse(&mut h, 1000, 100), (HopperEvent::Quiet, HopperEvent::CoinDispensed { hopper: 1 }));
    assert!(h.is_paying());
    assert_eq!(pulse(&mut h, 2000, 30), (HopperEvent::Quiet, HopperEvent::CoinDispensed { hopper: 1 }));
    assert!(!h.is_paying());
}

#[test]
fn hopper_ignores_short_pulses_and_times_out_long_ones() {
    let mut h = Hopper::new(hopper_b_config());
    h.request_payout(5);
    h.update_sensors(true, false);
    assert_eq!(h.poll(0), HopperEvent::Quiet);
    h.update_sensors(false, false);
    assert_eq!(h.poll(10), HopperEvent::Quiet);
    assert_eq!(h.poll(500), HopperEvent::Quiet);
    assert!(h.is_paying());
    h.update_sensors(true, false);
    assert_eq!(h.poll(1000), HopperEvent::Quiet);
    h.update_sensors(false, false);
    assert_eq!(h.poll(1500), HopperEvent::Timeout { hopper: 1 });
    assert!(!h.is_paying());
}

#[test]
fn bounce_is_not_a_coin() {
    let mut h = Hopper::new(hopper_b_config());
    h.request_payout(1);
    h.update_sensors(true, false);
    assert_eq!(h.poll(0), HopperEvent::Quiet);
    h.update_sensors(false, false);
    assert_eq!(h.poll(5), HopperEvent::Quiet);
    assert_eq!(h.poll(40), HopperEvent::Quiet);
    assert!(h.is_paying());
    assert_eq!(pulse(&mut h, 100, 50), (HopperEvent::Quiet, HopperEvent::CoinDispensed { hopper: 1 }));
    assert!(!h.is_paying());
}

#[test]
fn hopper_b_needs_its_motor() {
    let mut h = Hopper::new(hopper_b_config());
    assert_eq!(pulse(&mut h, 0, 100), (HopperEvent::Quiet, HopperEvent::Quiet));
    let mut a = Hopper::new(hopper_a_config());
    a.request_payout(1);
    assert_eq!(pulse(&mut a, 0, 100), (HopperEvent::Quiet, HopperEvent::CoinDispensed { hopper: 0 }));
}

#[test]
fn unasked_coin_from_item_hopper_is_a_fault() {
    let mut a = Hopper::new(hopper_a_config());
    assert!(!a.is_paying());
    a.update_sensors(true, false);
    assert_eq!(a.poll(0), HopperEvent::Quiet);
    a.update_sensors(false, false);
    assert_eq!(
        a.poll(100),
        HopperEvent::Error { hopper: 0, error: bahilizator::error::DispenserError::Unknown }
    );
    assert_eq!(a.poll(200), HopperEvent::Quiet);
    assert!(!a.is_paying());
}

#[test]
fn payout_request_is_capped() {
    let mut a = Hopper::new(hopper_a_config());
    a.request_payout(1000);
    for i in 0..99u64 {
        pulse(&mut a, i * 1000, 100);
        assert!(a.is_paying());
    }
    pulse(&mut a, 200_000, 100);
    assert!(!a.is_paying());
}

#[test]
fn hopper_reads_the_error_pulse_code() {
    let mut h = Hopper::new(hopper_b_config());
    h.request_payout(3);
    let steps: [(bool, u64); 6] = [(true, 0), (false, 10), (true, 20), (false, 30), (true, 40), (false, 50)];
    for (err, t) in steps {
        h.update_sensors(false, err);
        assert_eq!(h.poll(t), HopperEvent::Quiet);
    }
    assert!(h.is_error());
    assert!(!h.is_paying());
    h.update_sensors(false, true);
    assert_eq!(h.poll(1000), HopperEvent::Error { hopper: 1, error: DispenserError::OpticSensor });
    h.clear_error();
    assert!(!h.is_error());
}

#[test]
fn dispenser_fault_codes() {
    assert_eq!(DispenserError::from_code(0), DispenserError::NoFault);
    assert_eq!(DispenserError::from_code(1), DispenserError::MotorCoil);
    assert_eq!(DispenserError::from_code(3), DispenserError::Jam);
    assert_eq!(DispenserError::from_code(7), DispenserError::Unknown);
    assert_eq!(DispenserError::Unknown.code(), 99);
}

#[test]
fn hopper_commands_reach_the_named_hopper() {
    let mut a = Hopper::new(hopper_a_config());
    let mut b = Hopper::new(hopper_b_config());
    apply_hopper_cmd(&mut a, &mut b, HopperCmd::Payout { hopper: 1, count: 3 });
    assert!(!a.is_paying());
    assert!(b.is_paying());
    apply_hopper_cmd(&mut a, &mut b, HopperCmd::Payout { hopper: 7, count: 3 });
    assert!(!a.is_paying());
    apply_hopper_cmd(&mut a, &mut b, HopperCmd::Stop { hopper: 1 });
    assert!(!b.is_paying());
    let events = poll_hoppers(&mut a, &mut b, 10, (true, false), (false, false));
    assert!(events.is_empty());
    let events = poll_hoppers(&mut a, &mut b, 100, (false, false), (false, false));
    assert_eq!(
        events,
        vec![HopperEvent::Error { hopper: 0, error: bahilizator::error::DispenserError::Unknown }]
    );
}

fn coin_state() -> VendingState {
    let mut s = VendingState::default();
    s.settings.coin_acceptor.coin_values = [10, 20, 50, 100, 200, 0];
    s.settings.coin_acceptor.coin_enable = [true, true, true, false, true, false];
    s
}

#[test]
fn channel_mask_and_values() {
    let s = coin_state();
    assert_eq!(get_channel_mask(&s), 0b010111);
    assert_eq!(get_coin_value(&s, 2), 50);
    assert_eq!(get_coin_value(&s, 9), 0);
    assert_eq!(coin_mode(&s), CoinMode::Normal);
    assert_eq!(read_coin_channels(), 0);
    assert!(!read_coin_pulse_pin());
}

#[test]
fn normal_mode_coin_on_channel_two() {
    let s = coin_state();
    let mask = get_channel_mask(&s);
    let low = mask & !(1 << 2);
    let mut d = NormalDecoder::new();
    assert_eq!(d.step(&s, low, 0), None);
    assert_eq!(d.stage, NormalStage::PreAccept);
    assert_eq!(d.step(&s, low, 5), None);
    assert_eq!(d.step(&s, low, 20), None);
    assert_eq!(d.stage, NormalStage::Accept);
    assert_eq!(d.step(&s, mask, 40), Some(CoinEvent { channel: 2, value: 50 }));
    assert_eq!(d.stage, NormalStage::Idle);
}

#[test]
fn normal_mode_stuck_line_is_dropped() {
    let s = coin_state();
    let mask = get_channel_mask(&s);
    let low = mask & !1;
    let mut d = NormalDecoder::new();
    d.step(&s, low, 0);
    d.step(&s, low, 20);
    assert_eq!(d.step(&s, low, 200), None);
    assert_eq!(d.stage, NormalStage::Idle);
}

fn train(d: &mut PulseDecoder, s: &VendingState, pulses: u64) -> Option<CoinEvent> {
    let mut t = 0;
    for _ in 0..pulses {
        assert_eq!(d.step(s, true, t), None);
        assert_eq!(d.step(s, false, t + 50), None);
        t += 100;
    }
    assert_eq!(d.step(s, false, t + 100), None);
    d.step(s, false, t + 300)
}

#[test]
fn pulse_count_selects_the_channel() {
    let mut s = coin_state();
    s.settings.coin_acceptor.pulse_mode = true;
    assert_eq!(coin_mode(&s), CoinMode::Pulse);
    let mut d = PulseDecoder::new();
    assert_eq!(train(&mut d, &s, 1), Some(CoinEvent { channel: 0, value: 10 }));
    assert_eq!(d.stage, PulseStage::Idle);
    assert_eq!(train(&mut d, &s, 3), Some(CoinEvent { channel: 2, value: 50 }));
    assert_eq!(train(&mut d, &s, 6), None);
    assert_eq!(train(&mut d, &s, 7), None);
}

#[test]
fn short_pulse_drops_the_train() {
    let s = coin_state();
    let mut d = PulseDecoder::new();
    d.step(&s, true, 0);
    d.step(&s, false, 10);
    assert_eq!(d.stage, PulseStage::Idle);
    assert_eq!(d.pulse_count, 0);
}
