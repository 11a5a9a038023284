use bahilizator::menu::{MenuAction, MenuItem, MenuNavigator, ScrollAlign, Scroller};
use bahilizator::state::{Language, MessageKind, VendingState};
use bahilizator::ui::{
    make_str_16, make_str_40, process_display_command, Align, DisplayCommand, Hd44780I2c, LcdOp,
};

#[test]
fn menu_wraps_around() {
    assert_eq!(MenuItem::CashOnHand.prev(), MenuItem::GsmInfo);
    assert_eq!(MenuItem::GsmInfo.next(), MenuItem::CashOnHand);
    assert_eq!(MenuItem::Count.next(), MenuItem::CashOnHand);
    let mut m = MenuItem::CashOnHand;
    for _ in 0..21 {
        m = m.next();
    }
    assert_eq!(m, MenuItem::CashOnHand);
    assert_eq!(MenuItem::from_u8(13), MenuItem::PhoneNumber00);
    assert_eq!(MenuItem::from_u8(200), MenuItem::CashOnHand);
}

#[test]
fn action_and_editable_items() {
    assert!(MenuItem::HopperTest.is_action());
    assert!(!MenuItem::ItemLevel.is_action());
    assert!(MenuItem::ItemLevel.is_editable());
    assert!(!MenuItem::CashOnHand.is_editable());
    assert!(!MenuItem::Version.is_editable());
    assert!(!MenuItem::ResetKeys.is_editable());
}

#[test]
fn okay_runs_actions_and_edits_values() {
    let mut s = VendingState::default();
    s.data.item_level = 7;
    let mut n = MenuNavigator::new();
    n.current = MenuItem::SendReportAccounting;
    assert_eq!(n.ok(&s, 5), MenuAction::SendMessage(MessageKind::ReportPeriodAccounting));
    assert_eq!(n.last_activity_ms, 5);
    n.current = MenuItem::ItemLevel;
    assert_eq!(n.ok(&s, 6), MenuAction::NoAction);
    assert!(n.editing);
    assert_eq!(n.edit_value, 7);
    n.next(7);
    assert_eq!(n.edit_value, 8);
    assert_eq!(n.current, MenuItem::ItemLevel);
    let (l1, l2) = n.display_text(&s);
    assert_eq!(l1, "ТОВАР");
    assert_eq!(l2, "8◄");
    assert!(!n.cancel(8));
    assert!(!n.editing);
    assert!(n.cancel(9));
}

#[test]
fn russian_language_shows_edit_marker() {
    let mut s = VendingState::default();
    s.settings.user_language = Language::Russian;
    let mut n = MenuNavigator::new();
    n.current = MenuItem::Language;
    let (_, l2) = n.display_text(&s);
    assert_eq!(l2, "Русский");
    n.ok(&s, 0);
    assert_eq!(n.edit_value, 1);
    let (_, l2) = n.display_text(&s);
    assert_eq!(l2, "Русский◄");
    assert!(l2.chars().count() <= 16);
    s.settings.user_language = Language::Latvian;
    let (l1, l2) = n.display_text(&s);
    assert_eq!(l1, "ЯЗЫК");
    assert_eq!(l2, "Latvija◄");
}

fn texts(n: &MenuNavigator, s: &VendingState) -> (String, String) {
    let (title, value) = n.display_text(s);
    (title.as_str().to_string(), value.as_str().to_string())
}

#[test]
fn menu_texts() {
    let mut s = VendingState::default();
    s.data.cash = -12;
    let mut n = MenuNavigator::new();
    assert_eq!(texts(&n, &s), ("НАЛИЧНОСТЬ".to_string(), "-12".to_string()));
    n.current = MenuItem::Version;
    assert_eq!(n.display_text(&s).1, "2");
    n.current = MenuItem::HopperTest;
    assert_eq!(texts(&n, &s), ("ТЕСТ ХОППЕРОВ".to_string(), "Нажми OK".to_string()));
    n.current = MenuItem::Count;
    assert_eq!(texts(&n, &s), ("---".to_string(), String::new()));
}

#[test]
fn menu_timeout() {
    let mut n = MenuNavigator::new();
    n.last_activity_ms = 1000;
    assert!(!n.check_timeout(30_999, 30));
    assert!(n.check_timeout(31_000, 30));
    assert!(n.check_timeout(500, 0));
}

#[test]
fn scroller_bounces_between_the_ends() {
    let mut sc = Scroller::new();
    sc.set_text("ABCDEFGHIJKLMNOPQR", ScrollAlign::ScrollBounce);
    assert_eq!(sc.align, ScrollAlign::ScrollBounce);
    assert!(sc.update(0));
    assert_eq!(sc.pos, 1);
    assert_eq!(sc.next_update, 1500);
    assert!(!sc.update(1000));
    assert!(sc.update(1500));
    assert_eq!(sc.pos, 2);
    assert_eq!(sc.direction, -1);
    assert_eq!(sc.next_update, 3500);
    assert_eq!(sc.visible_text(), "CDEFGHIJKLMNOPQR");
    assert!(sc.update(3500));
    assert!(sc.update(5000));
    assert_eq!(sc.pos, 0);
    assert_eq!(sc.direction, 1);
}

#[test]
fn short_text_is_centred_not_scrolled() {
    let mut sc = Scroller::new();
    sc.set_text("HELLO", ScrollAlign::ScrollBounce);
    assert_eq!(sc.align, ScrollAlign::Center);
    assert!(sc.update(0));
    assert_eq!(sc.pos, -5);
    assert!(!sc.update(2000));
    assert_eq!(sc.pos, -5);
    assert_eq!(sc.visible_text(), "     HELLO      ");
    sc.set_text("0123456789012345678901234567890123456789X", ScrollAlign::Left);
    assert_eq!(sc.text, "");
}

#[test]
fn visible_text_of_non_ascii_bytes_is_cut_at_16_bytes() {
    let mut sc = Scroller::new();
    sc.set_text("ЖЖЖЖЖЖЖЖ", ScrollAlign::Left);
    let v = sc.visible_text();
    assert_eq!(v.chars().count(), 8);
    assert_eq!(v.len(), 16);
    assert_eq!(v.chars().next(), Some('\u{00D0}'));
}

#[test]
fn aligned_text_starts_at_the_right_column() {
    let mut lcd = Hd44780I2c::new(0x27);
    let ops = process_display_command(
        &mut lcd,
        DisplayCommand::TextAligned { align: Align::Center, y: 1, text: make_str_40("AB") },
    );
    // address command 0x80 | (0x40 + 7) = 0xC7, backlight on
    assert_eq!(ops[0], LcdOp::Write(0xC0 | 0x08 | 0x04));
    assert_eq!(ops[2], LcdOp::Write(0xC0 | 0x08));
    assert_eq!(ops[4], LcdOp::Write(0x70 | 0x08 | 0x04));
    assert_eq!(ops.len(), 9 * 3);
    assert_eq!(ops[9], LcdOp::Write(0x40 | 0x08 | 0x01 | 0x04));
    let ops = process_display_command(
        &mut lcd,
        DisplayCommand::TextAligned { align: Align::Right, y: 0, text: make_str_40("ABCD") },
    );
    assert_eq!(ops[4], LcdOp::Write(0xC0 | 0x08 | 0x04));
}

#[test]
fn backlight_and_buffer() {
    let mut lcd = Hd44780I2c::new(0x27);
    assert_eq!(lcd.addr(), 0x27);
    assert_eq!(lcd.buffer_read(3, 1), b' ');
    lcd.buffer_write(3, 1, b'Z');
    lcd.buffer_write(30, 1, b'Q');
    assert_eq!(lcd.buffer_read(3, 1), b'Z');
    assert_eq!(lcd.buffer_read(3, 0), b' ');
    assert_eq!(lcd.buffer_read(30, 1), b' ');
    let ops = process_display_command(&mut lcd, DisplayCommand::Backlight { on: false });
    assert!(ops.is_empty());
    let ops = lcd.write_cmd(0x01);
    assert_eq!(ops[0], LcdOp::Write(0x04));
    assert_eq!(ops[1], LcdOp::DelayUs(1));
    assert_eq!(ops[2], LcdOp::Write(0x00));
    assert_eq!(ops[8], LcdOp::DelayUs(100));
    let ops = process_display_command(&mut lcd, DisplayCommand::Clear);
    assert_eq!(ops.last(), Some(&LcdOp::DelayMs(2)));
    assert_eq!(lcd.buffer_read(3, 1), b' ');
}

#[test]
fn init_sequence_shape() {
    let lcd = Hd44780I2c::new(0x27);
    let ops = lcd.init();
    assert_eq!(ops[0], LcdOp::DelayMs(50));
    assert_eq!(ops[1], LcdOp::Write(0x30 | 0x08 | 0x04));
    assert_eq!(ops.last(), Some(&LcdOp::DelayMs(2)));
    let writes = ops.iter().filter(|o| matches!(o, LcdOp::Write(_))).count();
    // 4 nibbles, 5 commands before the characters, 8 characters of 10 bytes each, home
    assert_eq!(writes, 4 * 2 + 4 * 4 + 8 * 10 * 4 + 4);
}

#[test]
fn bounded_display_texts() {
    assert_eq!(make_str_16("0123456789abcdef"), "0123456789abcdef");
    assert_eq!(make_str_16("0123456789abcdefg"), "");
    assert_eq!(make_str_16("ПРИВЕТ МИР"), "");
    assert_eq!(make_str_40("ПРИВЕТ МИР"), "ПРИВЕТ МИР");
}

#[test]
fn okay_on_gsm_info_shows_it() {
    let s = VendingState::default();
    let mut n = MenuNavigator::new();
    n.current = MenuItem::GsmInfo;
    assert!(MenuItem::GsmInfo.is_action());
    assert_eq!(n.ok(&s, 11), MenuAction::ShowGsmInfo);
    assert!(!n.editing);
    assert_eq!(n.last_activity_ms, 11);
}
