use bahilizator::error::{Errors, FlashError, NvramError};
use bahilizator::flash::{crc16, load_settings, save_settings};
use bahilizator::ibutton::{
    check_crc, check_key, compute_crc, key_event, BusOp, IbuttonDriver, KeyAccess,
};
use bahilizator::nvram::{
    check_state_version, eeprom_address, find_active_sector, find_loaded_sector, header_has_magic, load_sector,
    calc_state_crc, load_state_default, load_state_from_image, next_sector, persist_step, persist_timeout,
    persist_wait, save_plan, save_state_plan, sector_base_addr, sector_record_ok,
    EepromWrite, PersistStep,
};
use bahilizator::record::{decode_state, encode_state, STATE_RECORD_LEN};
use bahilizator::report::generate_report;
use bahilizator::state::{MessageKind, PersistReason, Settings, VendingState, VendingStateData};

fn machine() -> VendingState {
    let mut s = VendingState::default();
    s.settings.machine_id = 42;
    s.data.item_level = 7;
    s.data.coin_levels = [12, 3];
    s.data.cash = 150;
    s
}

#[test]
fn state_report() {
    let mut s = machine();
    assert_eq!(generate_report(&s, MessageKind::ReportState), "ID:42 Item:7 H1:12 H2:3 Cash:150 Err:no");
    s.errors.insert(Errors::DOOR_OPENED | Errors::COIN_HOPPER);
    assert_eq!(generate_report(&s, MessageKind::Report), "ID:42 Item:7 H1:12 H2:3 Cash:150 Err:21000");
}

#[test]
fn accounting_reports() {
    let mut s = machine();
    s.data.period_accounting.cash_in = 500;
    s.data.period_accounting.cash_out = 120;
    s.data.period_accounting.items_out = 3;
    s.data.period_accounting.free_items_out = 1;
    assert_eq!(
        generate_report(&s, MessageKind::ReportPeriodAccounting),
        "Period IN:500 OUT:120 PROF:380 SOLD:3 FREE:1 "
    );
    s.data.overall_accounting.cash_out = 10;
    s.data.overall_accounting.coins_refill = [0, 25];
    s.data.overall_accounting.items_refill = 4;
    assert_eq!(
        generate_report(&s, MessageKind::ReportOverallAccounting),
        "Overall IN:0 OUT:10 PROF:-10 SOLD:0 FREE:0 CR2:25 IR:4 "
    );
}

#[test]
fn other_reports() {
    let mut s = machine();
    assert_eq!(generate_report(&s, MessageKind::ReportErrors), "No errors");
    s.errors.insert(Errors::DOOR_OPENED);
    assert_eq!(generate_report(&s, MessageKind::ReportErrors), "ERR:20000 CASH:150 ITEM:7 DOOR:1");
    assert_eq!(generate_report(&s, MessageKind::ReportIntrusion), "ALARM! Door open! Cash:150");
    s.errors.remove(Errors::DOOR_OPENED);
    assert_eq!(generate_report(&s, MessageKind::ReportIntrusion), "ALARM! Door! Cash:150");
    assert_eq!(generate_report(&s, MessageKind::ReportNoIntrusion), "Door closed OK");
    assert_eq!(generate_report(&s, MessageKind::PowerUp), "BAH #42 UP");
    assert_eq!(generate_report(&s, MessageKind::PowerDown), "BAH #42 DOWN");
    assert_eq!(generate_report(&s, MessageKind::ResetErrors), "Errors cleared");
    assert_eq!(generate_report(&s, MessageKind::ResetKeys), "Keys reset");
    assert_eq!(generate_report(&s, MessageKind::CoinHopperWarningLevel), "LOW! H1:12 H2:3 ");
    assert_eq!(generate_report(&s, MessageKind::ItemDispenserWarningLevel), "LOW! Item:7");
    assert_eq!(generate_report(&s, MessageKind::NoMessage), "N/A");
    assert_eq!(Errors { bits: 0x1A }.format(), "Errors(1A)");
}

#[test]
fn longest_report_fits_an_sms() {
    let mut s = machine();
    let a = &mut s.data.overall_accounting;
    a.cash_in = i32::MIN;
    a.cash_out = 0;
    a.items_out = i32::MIN;
    a.free_items_out = i32::MIN;
    a.coins_refill = [i32::MAX, i32::MAX];
    a.items_refill = i32::MAX;
    let t = generate_report(&s, MessageKind::ReportOverallAccounting);
    assert!(t.chars().count() <= 160);
}

#[test]
fn modbus_crc() {
    assert_eq!(crc16(b"123456789"), 0x4B37);
    assert_eq!(crc16(&[]), 0xFFFF);
    assert_eq!(crc16(&[1, 2, 3, 4]), 0x2BA1);
}

#[test]
fn flash_is_not_wired() {
    assert_eq!(load_settings().unwrap_err(), FlashError::CrcMismatch);
    assert!(save_settings(&Settings::default()).is_ok());
}

#[test]
fn eeprom_addressing_and_sectors() {
    assert_eq!(eeprom_address(0x2F5), (0x52, 0xF5));
    assert_eq!(find_active_sector(), 0);
    assert_eq!(next_sector(3), 0);
    assert_eq!(next_sector(1), 2);
    assert_eq!(sector_base_addr(3), 768);
    assert_eq!(load_sector(2, 3), 1);
}

#[test]
fn sector_headers() {
    let data = [1u8, 2, 3, 4];
    let crc = crc16(&data);
    let good = [0xBE, 0xBA, (crc & 0xFF) as u8, (crc >> 8) as u8];
    assert!(header_has_magic(&good));
    assert!(sector_record_ok(&good, &data));
    let bad_crc = [0xBE, 0xBA, 0, 0];
    assert!(!sector_record_ok(&bad_crc, &data));
    let no_magic = [0, 0, (crc & 0xFF) as u8, (crc >> 8) as u8];
    assert!(!sector_record_ok(&no_magic, &data));
}

#[test]
fn save_writes_record_then_marker() {
    let record: Vec<u8> = (0u8..11).collect();
    let (sector, plan) = save_plan(3, &record).unwrap();
    assert_eq!(sector, 0);
    let crc = crc16(&record);
    assert_eq!(plan.len(), 2 + 1 + 3 + 4);
    assert!(matches!(plan[0], EepromWrite::Byte { addr: 2, data } if data == (crc & 0xFF) as u8));
    assert!(matches!(plan[1], EepromWrite::Byte { addr: 3, data } if data == (crc >> 8) as u8));
    assert!(matches!(plan[2], EepromWrite::Page { addr: 4, bytes } if bytes == [0, 1, 2, 3, 4, 5, 6, 7]));
    assert!(matches!(plan[3], EepromWrite::Byte { addr: 12, data: 8 }));
    assert!(matches!(plan[5], EepromWrite::Byte { addr: 14, data: 10 }));
    assert!(matches!(plan[6], EepromWrite::Byte { addr: 0, data: 0xBE }));
    assert!(matches!(plan[7], EepromWrite::Byte { addr: 1, data: 0xBA }));
    assert!(matches!(plan[8], EepromWrite::Byte { addr: 768, data: 0 }));
    assert!(matches!(plan[9], EepromWrite::Byte { addr: 769, data: 0 }));
}

#[test]
fn state_versions_and_defaults() {
    let mut d = VendingStateData::default();
    assert!(check_state_version(d).is_ok());
    d.version = 9;
    assert_eq!(check_state_version(d).unwrap_err(), NvramError::CrcMismatch);
    let f = load_state_default(Err(NvramError::CrcMismatch));
    assert_eq!(f.cash, 0);
    let mut saved = VendingStateData::default();
    saved.cash = 70;
    saved.item_level = 4;
    let g = load_state_default(Ok(saved));
    assert_eq!(g.cash, 70);
    assert_eq!(g.item_level, 4);
}

fn apply(mem: &mut [u8], plan: &[EepromWrite]) {
    for w in plan {
        match *w {
            EepromWrite::Byte { addr, data } => mem[addr as usize] = data,
            EepromWrite::Page { addr, bytes } => {
                mem[addr as usize..addr as usize + 8].copy_from_slice(&bytes)
            }
        }
    }
}

#[test]
fn saved_record_is_read_back() {
    let mut mem = vec![0xFFu8; 1024];
    let first: Vec<u8> = (0u8..200).collect();
    let (s1, plan) = save_plan(0, &first).unwrap();
    assert_eq!(s1, 2);
    apply(&mut mem, &plan);
    let base = sector_base_addr(s1) as usize;
    let header: [u8; 4] = mem[base..base + 4].try_into().unwrap();
    assert!(sector_record_ok(&header, &mem[base + 4..base + 4 + first.len()]));
    assert_eq!(&mem[base + 4..base + 4 + first.len()], &first[..]);
    let second: Vec<u8> = (0u16..508).map(|b| (b as u8) ^ 0x5A).collect();
    let (s2, plan) = save_plan(s1, &second).unwrap();
    assert_eq!(s2, 0);
    apply(&mut mem, &plan);
    let base2 = sector_base_addr(s2) as usize;
    let header2: [u8; 4] = mem[base2..base2 + 4].try_into().unwrap();
    assert!(sector_record_ok(&header2, &mem[base2 + 4..base2 + 512]));
    let old_header: [u8; 4] = mem[base..base + 4].try_into().unwrap();
    assert!(!header_has_magic(&old_header));
}

#[test]
fn oversized_record_is_refused() {
    let record = vec![0u8; 509];
    assert_eq!(save_plan(1, &record).unwrap_err(), NvramError::WriteFailed);
}

#[test]
fn persisting_is_debounced() {
    assert_eq!(
        persist_step(false, PersistReason::StateChanged, 1),
        PersistStep { dirty: true, save_settings: false, save_state: false }
    );
    assert_eq!(
        persist_step(true, PersistReason::SettingsChanged, 6),
        PersistStep { dirty: false, save_settings: true, save_state: true }
    );
    assert_eq!(
        persist_step(false, PersistReason::SettingsChanged, 100),
        PersistStep { dirty: false, save_settings: true, save_state: false }
    );
}

#[test]
fn dallas_crc() {
    let key = [0x02u8, 0x1C, 0xB8, 0x01, 0, 0, 0, 0xA2];
    assert_eq!(compute_crc(&key[..7]), 0xA2);
    assert!(check_crc(&key));
    let mut bad = key;
    bad[7] = 0xA3;
    assert!(!check_crc(&bad));
    assert_eq!(compute_crc(&key), 0);
}

#[test]
fn keys_on_the_whitelist() {
    let mut s = Settings::default();
    let k1 = [1u8, 2, 3, 4, 5, 6, 7, 8];
    let k2 = [9u8; 8];
    s.keys[0][1] = k1;
    s.keys[2][0] = k2;
    assert_eq!(check_key(&s, &k1), Some(KeyAccess::Service));
    assert_eq!(check_key(&s, &k2), Some(KeyAccess::Technical));
    assert_eq!(check_key(&s, &[0u8; 8]), None);
    assert_eq!(check_key(&s, &[7u8; 8]), None);
    assert_eq!(KeyAccess::Technical.code(), 1);
    let e = key_event(&s, k2);
    assert!(e.accepted);
    assert_eq!(e.key, k2);
}

#[test]
fn one_wire_slots() {
    let d = IbuttonDriver::new();
    assert_eq!(d.init(), vec![BusOp::Release]);
    assert_eq!(d.reset_pulse()[1], BusOp::DelayUs(480));
    assert!(IbuttonDriver::presence(false));
    assert!(!IbuttonDriver::presence(true));
    assert!(d.read_bus());
    assert_eq!(d.write_bit(1)[1], BusOp::DelayUs(6));
    assert_eq!(d.write_bit(0)[1], BusOp::DelayUs(60));
    let w = d.write_byte(0x33);
    assert_eq!(w.len(), 32);
    assert_eq!(w[1], BusOp::DelayUs(6));
    assert_eq!(w[9], BusOp::DelayUs(60));
    assert_eq!(d.read_byte().len(), 48);
    assert_eq!(d.read_rom_ops().len(), 32 + 64 * 6);
    let samples = [true, true, false, false, true, true, false, false];
    assert_eq!(IbuttonDriver::byte_from_samples(&samples), 0x33);
}

#[test]
fn rom_read_from_samples() {
    let d = IbuttonDriver::new();
    let key = [0x02u8, 0x1C, 0xB8, 0x01, 0, 0, 0, 0xA2];
    let mut bits = [false; 64];
    for (j, b) in key.iter().enumerate() {
        for i in 0..8 {
            bits[8 * j + i] = (b >> i) & 1 == 1;
        }
    }
    assert_eq!(d.read_rom(false, &bits), Some(key));
    assert_eq!(d.read_rom(true, &bits), None);
    bits[63] = !bits[63];
    assert_eq!(d.read_rom(false, &bits), None);
}

#[test]
fn record_with_its_crc_checks_out() {
    let data = b"123456789";
    let c = crc16(data);
    assert_eq!(c, 0x4B37);
    let mut framed = data.to_vec();
    framed.push((c & 0xFF) as u8);
    framed.push((c >> 8) as u8);
    assert_eq!(crc16(&framed), 0);
}

#[test]
fn load_scans_for_the_saved_sector() {
    let mut mem = vec![0xFFu8; 1024];
    let record: Vec<u8> = (10u8..60).collect();
    assert_eq!(find_loaded_sector(&mem, 0, record.len()), None);
    let (s1, plan) = save_plan(2, &record).unwrap();
    apply(&mut mem, &plan);
    assert_eq!(s1, 0);
    for start in [0u8, 2] {
        assert_eq!(find_loaded_sector(&mem, start, record.len()), Some(0));
    }
    let (s2, plan) = save_plan(s1, &record).unwrap();
    apply(&mut mem, &plan);
    assert_eq!(s2, 2);
    assert_eq!(find_loaded_sector(&mem, 0, record.len()), Some(2));
}

#[test]
fn working_state_is_saved_and_loaded_back() {
    let mut st = VendingStateData::default();
    st.item_level = 7;
    st.cash = -15;
    st.coin_levels = [3, 40];
    st.app_state = bahilizator::state::AppState::PayoutReminder;
    st.transactions[2].cash_in = 250;
    st.transactions[2].closed = true;
    st.events[19].kind = bahilizator::event::EventKind::DoorClose;
    st.events[19].info.param1 = 65535;
    st.period_accounting.coins_refill = [5, 6];
    st.messages_pending[1][0].bits = 0x8000_0000_0000_0001;
    st.crc = 0xBEEF;
    let record = encode_state(&st);
    assert_eq!(record.len(), STATE_RECORD_LEN);
    let back = decode_state(&record).unwrap();
    assert_eq!(encode_state(&back), record);
    assert_eq!(back.cash, -15);
    assert_eq!(back.transactions[2].cash_in, 250);
    assert!(back.transactions[2].closed);
    assert_eq!(back.events[19].info.param1, 65535);
    assert_eq!(back.messages_pending[1][0].bits, 0x8000_0000_0000_0001);
    assert!(decode_state(&record[..428]).is_none());

    let mut mem = vec![0xFFu8; 1024];
    let (slot, plan) = save_state_plan(0, &st);
    assert_eq!(slot, 2);
    apply(&mut mem, &plan);
    let (loaded, found) = load_state_from_image(&mem, 0).unwrap();
    assert_eq!(found, 2);
    assert_eq!(encode_state(&loaded), record);
    assert_eq!(load_state_default(Ok(loaded)).item_level, 7);
    let empty = vec![0xFFu8; 1024];
    assert_eq!(load_state_from_image(&empty, 0).unwrap_err(), NvramError::CrcMismatch);
    assert_eq!(calc_state_crc(&st), crc16(&record[..STATE_RECORD_LEN - 2]));
}

#[test]
fn dirty_state_is_saved_when_the_wait_ends() {
    assert_eq!(persist_wait(false, 2), None);
    assert_eq!(persist_wait(true, 2), Some(3));
    assert_eq!(persist_wait(true, 9), Some(0));
    assert_eq!(persist_timeout(true, 4), PersistStep { dirty: true, save_settings: false, save_state: false });
    assert_eq!(persist_timeout(true, 5), PersistStep { dirty: false, save_settings: false, save_state: true });
    assert_eq!(persist_timeout(false, 50), PersistStep { dirty: false, save_settings: false, save_state: false });
}
