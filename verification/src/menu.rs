//! Service menu of the machine, shown on the 16x2 display.
//!
//! Next/Prev move through the items (or change the value being edited),
//! Okay enters editing or runs an action, Cancel leaves editing or the
//! menu. Item titles longer than the display scroll back and forth.

use vstd::prelude::*;
use vstd::utf8::encode_utf8;

use crate::config::FIRMWARE_VERSION;
use crate::state::{MessageKind, VendingState};
use crate::fixed::{text16, text16_of, text40, text40_of, text40_str, text48, text48_of};
use crate::text::{
    int_chars, lemma_ascii_bytes, lemma_encode_utf8_concat, lemma_int_chars_ascii, lemma_int_chars_len,
    push_char, push_i32, push_str,
};

verus! {

/// Item of the service menu.
#[derive(Debug, Clone, Copy, PartialEq, Eq, Structural)]
pub enum MenuItem {
    /// Cash in the machine.
    CashOnHand,
    /// Items in stock.
    ItemLevel,
    /// Coins in hopper A.
    CoinLevelA,
    /// Coins in hopper B.
    CoinLevelB,
    /// Hopper test.
    HopperTest,
    /// Display test.
    DisplayTest,
    /// Modem settings.
    GsmSettings,
    /// Coin acceptor calibration.
    CoinCalibration,
    /// User language.
    Language,
    /// Machine number.
    MachineId,
    /// Coin value of acceptor channel 0.
    CoinValue0,
    /// Coin value of hopper A.
    HopperCoinValueA,
    /// Item stock warning level.
    ItemWarningLevel,
    /// Owner phone number.
    PhoneNumber00,
    /// Send the state report.
    SendReportState,
    /// Send the accounting report.
    SendReportAccounting,
    /// Send the fault report.
    SendReportErrors,
    /// Clear the faults.
    ClearErrors,
    /// Reset the keys.
    ResetKeys,
    /// Firmware version.
    Version,
    /// Modem information.
    GsmInfo,
    /// Number of items (a marker, not an item).
    Count,
}

/// Position of an item in the menu (the marker `Count` is 21).
pub open spec fn item_code(m: MenuItem) -> u8 {
    match m {
        MenuItem::CashOnHand => 0,
        MenuItem::ItemLevel => 1,
        MenuItem::CoinLevelA => 2,
        MenuItem::CoinLevelB => 3,
        MenuItem::HopperTest => 4,
        MenuItem::DisplayTest => 5,
        MenuItem::GsmSettings => 6,
        MenuItem::CoinCalibration => 7,
        MenuItem::Language => 8,
        MenuItem::MachineId => 9,
        MenuItem::CoinValue0 => 10,
        MenuItem::HopperCoinValueA => 11,
        MenuItem::ItemWarningLevel => 12,
        MenuItem::PhoneNumber00 => 13,
        MenuItem::SendReportState => 14,
        MenuItem::SendReportAccounting => 15,
        MenuItem::SendReportErrors => 16,
        MenuItem::ClearErrors => 17,
        MenuItem::ResetKeys => 18,
        MenuItem::Version => 19,
        MenuItem::GsmInfo => 20,
        MenuItem::Count => 21,
    }
}

/// The item at position `v`; positions past the last item give the first.
pub open spec fn item_of(v: u8) -> MenuItem {
    if v == 0 {
        MenuItem::CashOnHand
    } else if v == 1 {
        MenuItem::ItemLevel
    } else if v == 2 {
        MenuItem::CoinLevelA
    } else if v == 3 {
        MenuItem::CoinLevelB
    } else if v == 4 {
        MenuItem::HopperTest
    } else if v == 5 {
        MenuItem::DisplayTest
    } else if v == 6 {
        MenuItem::GsmSettings
    } else if v == 7 {
        MenuItem::CoinCalibration
    } else if v == 8 {
        MenuItem::Language
    } else if v == 9 {
        MenuItem::MachineId
    } else if v == 10 {
        MenuItem::CoinValue0
    } else if v == 11 {
        MenuItem::HopperCoinValueA
    } else if v == 12 {
        MenuItem::ItemWarningLevel
    } else if v == 13 {
        MenuItem::PhoneNumber00
    } else if v == 14 {
        MenuItem::SendReportState
    } else if v == 15 {
        MenuItem::SendReportAccounting
    } else if v == 16 {
        MenuItem::SendReportErrors
    } else if v == 17 {
        MenuItem::ClearErrors
    } else if v == 18 {
        MenuItem::ResetKeys
    } else if v == 19 {
        MenuItem::Version
    } else if v == 20 {
        MenuItem::GsmInfo
    } else {
        MenuItem::CashOnHand
    }
}

/// Position of the item after `m`, wrapping from the last item to the first.
pub open spec fn next_code(m: MenuItem) -> u8 {
    if item_code(m) >= 20 {
        0
    } else {
        (item_code(m) + 1) as u8
    }
}

/// Position of the item before `m`, wrapping from the first item to the last.
pub open spec fn prev_code(m: MenuItem) -> u8 {
    if item_code(m) == 0 {
        20
    } else {
        (item_code(m) - 1) as u8
    }
}

/// The item runs an action rather than showing a value.
pub open spec fn is_action_item(m: MenuItem) -> bool {
    match m {
        MenuItem::HopperTest | MenuItem::DisplayTest | MenuItem::GsmSettings
        | MenuItem::CoinCalibration | MenuItem::SendReportState | MenuItem::SendReportAccounting
        | MenuItem::SendReportErrors | MenuItem::ClearErrors | MenuItem::ResetKeys
        | MenuItem::GsmInfo => true,
        _ => false,
    }
}

/// The item shows a value that can be edited.
pub open spec fn is_editable_item(m: MenuItem) -> bool {
    !is_action_item(m) && !(m == MenuItem::CashOnHand || m == MenuItem::Version || m
        == MenuItem::Count)
}

impl MenuItem {
    /// Position of the item.
    pub fn code(self) -> (r: u8)
        ensures
            r == item_code(self),
    {
        match self {
            MenuItem::CashOnHand => 0,
            MenuItem::ItemLevel => 1,
            MenuItem::CoinLevelA => 2,
            MenuItem::CoinLevelB => 3,
            MenuItem::HopperTest => 4,
            MenuItem::DisplayTest => 5,
            MenuItem::GsmSettings => 6,
            MenuItem::CoinCalibration => 7,
            MenuItem::Language => 8,
            MenuItem::MachineId => 9,
            MenuItem::CoinValue0 => 10,
            MenuItem::HopperCoinValueA => 11,
            MenuItem::ItemWarningLevel => 12,
            MenuItem::PhoneNumber00 => 13,
            MenuItem::SendReportState => 14,
            MenuItem::SendReportAccounting => 15,
            MenuItem::SendReportErrors => 16,
            MenuItem::ClearErrors => 17,
            MenuItem::ResetKeys => 18,
            MenuItem::Version => 19,
            MenuItem::GsmInfo => 20,
            MenuItem::Count => 21,
        }
    }

    /// The next item, wrapping from the last to the first.
    pub fn next(self) -> (r: MenuItem)
        ensures
            r == item_of(next_code(self)),
    {
        let cur = self.code();
        let next = if cur >= 20 {
            0
        } else {
            cur + 1
        };
        Self::from_u8(next)
    }

    /// The previous item, wrapping from the first to the last.
    pub fn prev(self) -> (r: MenuItem)
        ensures
            r == item_of(prev_code(self)),
    {
        let cur = self.code();
        let prev = if cur == 0 {
            20
        } else {
            cur - 1
        };
        Self::from_u8(prev)
    }

    /// The item at position `v`; positions past the last item give the
    /// first.
    pub fn from_u8(v: u8) -> (r: MenuItem)
        ensures
            r == item_of(v),
    {
        match v {
            0 => MenuItem::CashOnHand,
            1 => MenuItem::ItemLevel,
            2 => MenuItem::CoinLevelA,
            3 => MenuItem::CoinLevelB,
            4 => MenuItem::HopperTest,
            5 => MenuItem::DisplayTest,
            6 => MenuItem::GsmSettings,
            7 => MenuItem::CoinCalibration,
            8 => MenuItem::Language,
            9 => MenuItem::MachineId,
            10 => MenuItem::CoinValue0,
            11 => MenuItem::HopperCoinValueA,
            12 => MenuItem::ItemWarningLevel,
            13 => MenuItem::PhoneNumber00,
            14 => MenuItem::SendReportState,
            15 => MenuItem::SendReportAccounting,
            16 => MenuItem::SendReportErrors,
            17 => MenuItem::ClearErrors,
            18 => MenuItem::ResetKeys,
            19 => MenuItem::Version,
            20 => MenuItem::GsmInfo,
            _ => MenuItem::CashOnHand,
        }
    }

    /// The item runs an action.
    pub fn is_action(self) -> (r: bool)
        ensures
            r == is_action_item(self),
    {
        match self {
            MenuItem::HopperTest | MenuItem::DisplayTest | MenuItem::GsmSettings
            | MenuItem::CoinCalibration | MenuItem::SendReportState
            | MenuItem::SendReportAccounting | MenuItem::SendReportErrors | MenuItem::ClearErrors
            | MenuItem::ResetKeys | MenuItem::GsmInfo => true,
            _ => false,
        }
    }

    /// The item shows an editable value.
    pub fn is_editable(self) -> (r: bool)
        ensures
            r == is_editable_item(self),
    {
        !self.is_action() && !(match self {
            MenuItem::CashOnHand | MenuItem::Version | MenuItem::Count => true,
            _ => false,
        })
    }
}

/// Moving to the next item and back returns to the same item, and so does
/// moving back and then forward, for every item of the menu (the marker
/// `Count` excepted).
pub proof fn lemma_next_prev_inverse(m: MenuItem)
    requires
        m != MenuItem::Count,
    ensures
        item_of(prev_code(item_of(next_code(m)))) == m,
        item_of(next_code(item_of(prev_code(m)))) == m,
{
}

/// Every item is reached from the first by moving forward: `k` steps from
/// the first item land on the item at position `k`, and 21 steps come back
/// to the first item.
pub open spec fn steps_forward(m: MenuItem, k: nat) -> MenuItem
    decreases k,
{
    if k == 0 {
        m
    } else {
        steps_forward(item_of(next_code(m)), (k - 1) as nat)
    }
}

/// Moving forward `k` times from the first item gives the item at position
/// `k` (for `k` up to 20), and 21 moves come back to the first item: the
/// menu is one cycle through all 21 items.
pub proof fn lemma_menu_is_a_cycle(k: nat)
    requires
        k <= 21,
    ensures
        k <= 20 ==> steps_forward(MenuItem::CashOnHand, k) == item_of(k as u8),
        k == 21 ==> steps_forward(MenuItem::CashOnHand, k) == MenuItem::CashOnHand,
    decreases k,
{
    if k > 0 {
        lemma_menu_is_a_cycle((k - 1) as nat);
        lemma_steps_last(MenuItem::CashOnHand, (k - 1) as nat);
    }
}

proof fn lemma_steps_last(m: MenuItem, k: nat)
    ensures
        steps_forward(m, k + 1) == item_of(next_code(steps_forward(m, k))),
    decreases k,
{
    let n = item_of(next_code(m));
    assert(steps_forward(m, k + 1) == steps_forward(n, k));
    if k > 0 {
        lemma_steps_last(n, (k - 1) as nat);
        assert(steps_forward(m, k) == steps_forward(n, (k - 1) as nat));
    } else {
        assert(steps_forward(n, 0) == n);
    }
}

/// What the menu asks the application to do.
#[derive(Debug, Clone, Copy, PartialEq, Eq, Structural)]
pub enum MenuAction {
    /// Nothing.
    NoAction,
    /// Send a modem message.
    SendMessage(MessageKind),
    /// Run the hopper test.
    TestHoppers,
    /// Run the display test.
    TestDisplay,
    /// Open the modem settings.
    GsmSettings,
    /// Run the coin acceptor calibration.
    CoinCalibration,
    /// Show the modem information.
    ShowGsmInfo,
    /// Leave the menu.
    Exit,
}

// ── Scrolling text ────────────────────────────────────────────────────────

/// Time between two scroll steps, in milliseconds.
pub const SCROLL_INTERVAL_MS: u64 = 1500;
/// Pause at either end of a scrolling text, in milliseconds.
pub const SCROLL_PAUSE_MS: u64 = 2000;
/// Characters per display row.
pub const DISPLAY_WIDTH: usize = 16;
/// Bytes a scroller text can hold.
pub const SCROLL_TEXT_CAPACITY: usize = 40;

/// How a scroller places its text.
#[derive(Debug, Clone, Copy, PartialEq, Eq, Structural)]
pub enum ScrollAlign {
    /// From the first column, never moving.
    Left,
    /// Centred when shorter than the row.
    Center,
    /// Moving back and forth when longer than the row.
    ScrollBounce,
}

/// A display row whose text may scroll.
#[derive(Debug, Clone)]
pub struct Scroller {
    /// The text.
    pub text: heapless::String<40>,
    /// Placement.
    pub align: ScrollAlign,
    /// Byte offset of the first visible column (negative: leading blanks).
    pub pos: i16,
    /// Scroll direction: 1 forward, -1 backward.
    pub direction: i8,
    /// Time of the next update, in milliseconds.
    pub next_update: u64,
}

/// Bytes of the UTF-8 encoding of `t`.
pub open spec fn byte_len(t: Seq<char>) -> int {
    encode_utf8(t).len() as int
}

/// Bytes of UTF-8 the character of code `b` (0..=255) takes: one below
/// 0x80, two above.
pub open spec fn latin1_width(b: u8) -> nat {
    if b < 0x80 {
        1
    } else {
        2
    }
}

/// The visible columns `i..16` of a row showing `bytes` from offset `pos`,
/// when `used` bytes of the 16-byte row buffer are taken: each column shows
/// the byte under it as a character (a blank outside the text), and a
/// character that no longer fits the buffer is left out.
pub open spec fn visible_from(bytes: Seq<u8>, pos: int, i: nat, used: nat) -> Seq<char>
    decreases 16 - i,
{
    if i >= 16 {
        seq![]
    } else {
        let src = pos + i;
        let inside = 0 <= src < bytes.len();
        let c = if inside {
            bytes[src] as char
        } else {
            ' '
        };
        let w = if inside {
            latin1_width(bytes[src])
        } else {
            1
        };
        if used + w <= 16 {
            seq![c] + visible_from(bytes, pos, i + 1, used + w)
        } else {
            visible_from(bytes, pos, i + 1, used)
        }
    }
}

/// A bouncing scroller shows only text: going forward its offset is in
/// `0..len - 16`, going backward in `1..=len - 16`, so every offset it
/// takes lies in `0..=len - 16`.
pub open spec fn bounce_in_text(s: Scroller) -> bool {
    let max_pos = byte_len(text40(s.text)) - 16;
    &&& max_pos > 0
    &&& (s.direction == 1 && 0 <= s.pos < max_pos) || (s.direction == -1 && 0 < s.pos <= max_pos)
}

impl Scroller {
    /// An empty, left-aligned scroller due at once.
    pub fn new() -> (r: Scroller)
        ensures
            text40(r.text) == Seq::<char>::empty(),
            r.align == ScrollAlign::Left,
            r.pos == 0,
            r.direction == 1,
            r.next_update == 0,
    {
        proof {
            reveal_strlit("");
        }
        Scroller {
            text: text40_of(""),
            align: ScrollAlign::Left,
            pos: 0,
            direction: 1,
            next_update: 0,
        }
    }

    /// Sets the text and placement and restarts at the first column going
    /// forward. A text of more than 40 bytes does not fit and leaves the
    /// scroller empty. A text that fits the row (16 bytes) does not scroll:
    /// `ScrollBounce` becomes `Center`.
    pub fn set_text(&mut self, text: &str, align: ScrollAlign)
        ensures
            text40(final(self).text) == if byte_len(text@) <= SCROLL_TEXT_CAPACITY {
                text@
            } else {
                Seq::<char>::empty()
            },
            final(self).align == if byte_len(text40(final(self).text)) <= DISPLAY_WIDTH && align
                == ScrollAlign::ScrollBounce {
                ScrollAlign::Center
            } else {
                align
            },
            final(self).pos == 0,
            final(self).direction == 1,
            final(self).next_update == old(self).next_update,
            final(self).align == ScrollAlign::ScrollBounce ==> bounce_in_text(*final(self)),
    {
        let t = text40_of(text);
        let fits_row = text40_str(&t).as_bytes().len() <= DISPLAY_WIDTH;
        proof {
            if byte_len(text@) > SCROLL_TEXT_CAPACITY {
                assert(encode_utf8(Seq::<char>::empty()) =~= Seq::<u8>::empty());
            }
        }
        self.text = t;
        self.align = align;
        self.pos = 0;
        self.direction = 1;
        if fits_row && self.align == ScrollAlign::ScrollBounce {
            self.align = ScrollAlign::Center;
        }
    }

    /// Advances the scroller at time `now_ms`; returns whether the offset
    /// changed (the row must be redrawn). Before `next_update` nothing changes. Otherwise, with
    /// `len` the text's byte length:
    ///
    /// - `Left`: offset 0, next update after the scroll interval;
    /// - `Center`: offset `-((16 - len) / 2)` when shorter than the row,
    ///   else 0, next update after the scroll interval;
    /// - `ScrollBounce`: the offset takes one step in the scroll direction;
    ///   a text that fits the row goes back to offset 0 and pauses; reaching
    ///   either end (offset `len - 16` going forward, 0 going backward)
    ///   pauses and reverses the direction; otherwise it waits the scroll
    ///   interval.
    ///
    /// The time and offset bounds in `requires` are those past which the
    /// next update time or the offset step would overflow.
    pub fn update(&mut self, now_ms: u64) -> (r: bool)
        requires
            now_ms <= u64::MAX - SCROLL_PAUSE_MS,
            i16::MIN <= old(self).pos + old(self).direction <= i16::MAX,
            old(self).direction != i8::MIN,
        ensures
            final(self).text == old(self).text,
            final(self).align == old(self).align,
            r == (final(self).pos != old(self).pos),
            now_ms < old(self).next_update ==> *final(self) == *old(self),
            old(self).align == ScrollAlign::ScrollBounce && bounce_in_text(*old(self))
                ==> bounce_in_text(*final(self)),
            now_ms >= old(self).next_update ==> ({
                let len = byte_len(text40(old(self).text));
                match old(self).align {
                    ScrollAlign::Left => {
                        &&& final(self).pos == 0
                        &&& final(self).direction == old(self).direction
                        &&& final(self).next_update == now_ms + SCROLL_INTERVAL_MS
                    },
                    ScrollAlign::Center => {
                        &&& final(self).pos == if len < 16 {
                            -((16 - len) / 2)
                        } else {
                            0
                        }
                        &&& final(self).direction == old(self).direction
                        &&& final(self).next_update == now_ms + SCROLL_INTERVAL_MS
                    },
                    ScrollAlign::ScrollBounce => {
                        let p = old(self).pos + old(self).direction;
                        let max_pos = len - 16;
                        if max_pos <= 0 {
                            &&& final(self).pos == 0
                            &&& final(self).direction == old(self).direction
                            &&& final(self).next_update == now_ms + SCROLL_PAUSE_MS
                        } else if (old(self).direction > 0 && p >= max_pos) || (old(
                            self,
                        ).direction < 0 && p <= 0) {
                            &&& final(self).pos == p
                            &&& final(self).direction == -old(self).direction
                            &&& final(self).next_update == now_ms + SCROLL_PAUSE_MS
                        } else {
                            &&& final(self).pos == p
                            &&& final(self).direction == old(self).direction
                            &&& final(self).next_update == now_ms + SCROLL_INTERVAL_MS
                        }
                    },
                }
            }),
    {
        if now_ms < self.next_update {
            return false;
        }
        let old_pos = self.pos;
        let len = text40_str(&self.text).as_bytes().len() as i16;
        match self.align {
            ScrollAlign::Left => {
                self.pos = 0;
                self.next_update = now_ms + SCROLL_INTERVAL_MS;
            },
            ScrollAlign::Center => {
                if len < 16 {
                    self.pos = -((16 - len) / 2);
                } else {
                    self.pos = 0;
                }
                self.next_update = now_ms + SCROLL_INTERVAL_MS;
            },
            ScrollAlign::ScrollBounce => {
                self.pos = self.pos + self.direction as i16;
                let max_pos = len - 16;
                if max_pos <= 0 {
                    self.pos = 0;
                    self.next_update = now_ms + SCROLL_PAUSE_MS;
                } else if (self.direction > 0 && self.pos >= max_pos) || (self.direction < 0
                    && self.pos <= 0) {
                    self.next_update = now_ms + SCROLL_PAUSE_MS;
                    self.direction = -self.direction;
                } else {
                    self.next_update = now_ms + SCROLL_INTERVAL_MS;
                }
            },
        }
        self.pos != old_pos
    }

    /// The 16 visible columns: each shows the text byte under it as a
    /// character (a blank outside the text); a character that no longer
    /// fits the 16-byte row buffer is left out (see `visible_from`).
    pub fn visible_text(&self) -> (r: heapless::String<16>)
        requires
            self.pos + 16 <= i16::MAX,
        ensures
            text16(r) == visible_from(encode_utf8(text40(self.text)), self.pos as int, 0, 0),
    {
        let mut result = String::new();
        let bytes = text40_str(&self.text).as_bytes();
        let n = bytes.len();
        let mut used: usize = 0;
        let mut i: usize = 0;
        while i < DISPLAY_WIDTH
            invariant
                i <= 16,
                used <= 16,
                n == bytes@.len(),
                n <= 40,
                bytes@ == encode_utf8(text40(self.text)),
                encode_utf8(result@).len() == used,
                self.pos + 16 <= i16::MAX,
                result@ + visible_from(bytes@, self.pos as int, i as nat, used as nat)
                    == visible_from(bytes@, self.pos as int, 0, 0),
            decreases 16 - i,
        {
            let src_idx: i16 = self.pos + i as i16;
            let inside = src_idx >= 0 && (src_idx as usize) < n;
            let (c, w) = if inside {
                let b = bytes[src_idx as usize];
                (b as char, if b < 0x80 {
                    1usize
                } else {
                    2usize
                })
            } else {
                (' ', 1usize)
            };
            proof {
                let ghost rest = visible_from(bytes@, self.pos as int, (i + 1) as nat, (used + w) as nat);
                let ghost skip = visible_from(bytes@, self.pos as int, (i + 1) as nat, used as nat);
                assert(visible_from(bytes@, self.pos as int, i as nat, used as nat) == if used + w <= 16 {
                    seq![c] + rest
                } else {
                    skip
                });
            }
            if used + w <= 16 {
                let ghost before = result@;
                proof {
                    lemma_encode_utf8_concat(result@, seq![c]);
                    if inside {
                        lemma_latin1_char_bytes(bytes@[src_idx as int]);
                    } else {
                        lemma_latin1_char_bytes(32);
                    }
                }
                push_char(&mut result, c);
                assert(result@ =~= before + seq![c]);
                used = used + w;
                assert(result@ + visible_from(bytes@, self.pos as int, (i + 1) as nat, used as nat)
                    =~= visible_from(bytes@, self.pos as int, 0, 0));
            }
            i = i + 1;
        }
        assert(result@ =~= visible_from(bytes@, self.pos as int, 0, 0));
        text16_of(result.as_str())
    }
}

/// The character of code `b` takes `latin1_width(b)` bytes of UTF-8.
proof fn lemma_latin1_char_bytes(b: u8)
    ensures
        encode_utf8(seq![b as char]).len() == latin1_width(b),
{
    let c = b as char;
    assert(seq![c].drop_first() =~= Seq::<char>::empty());
    assert(encode_utf8(seq![c]) == vstd::utf8::encode_scalar(c as u32) + encode_utf8(
        Seq::<char>::empty(),
    ));
    assert(c as u32 == b as u32);
}

impl Default for Scroller {
    fn default() -> (r: Scroller)
        ensures
            text40(r.text) == Seq::<char>::empty(),
            r.align == ScrollAlign::Left,
            r.pos == 0,
            r.direction == 1,
            r.next_update == 0,
    {
        Scroller::new()
    }
}

// ── Navigation ────────────────────────────────────────────────────────────

/// Navigation state of the service menu.
pub struct MenuNavigator {
    /// The item shown.
    pub current: MenuItem,
    /// A value is being edited.
    pub editing: bool,
    /// The value being edited.
    pub edit_value: i32,
    /// Scroller of the title row.
    pub scroller: Scroller,
    /// Time of the last key press, in milliseconds.
    pub last_activity_ms: u64,
}

/// The value of item `m` in the machine state, as loaded for editing
/// (0 for items without a number).
pub open spec fn read_value(m: MenuItem, s: VendingState) -> i32 {
    match m {
        MenuItem::ItemLevel => s.data.item_level,
        MenuItem::CoinLevelA => s.data.coin_levels[0],
        MenuItem::CoinLevelB => s.data.coin_levels[1],
        MenuItem::Language => match s.settings.user_language {
            crate::state::Language::Latvian => 0,
            crate::state::Language::Russian => 1,
        },
        MenuItem::MachineId => s.settings.machine_id,
        MenuItem::CoinValue0 => s.settings.coin_acceptor.coin_values[0],
        MenuItem::HopperCoinValueA => s.settings.coin_hoppers[0].coin_value,
        MenuItem::ItemWarningLevel => s.settings.item_dispenser.warning_level,
        _ => 0,
    }
}

/// The action Okay runs on item `m` (outside editing).
pub open spec fn ok_action(m: MenuItem) -> MenuAction {
    match m {
        MenuItem::SendReportState => MenuAction::SendMessage(MessageKind::ReportState),
        MenuItem::SendReportAccounting => MenuAction::SendMessage(
            MessageKind::ReportPeriodAccounting,
        ),
        MenuItem::SendReportErrors => MenuAction::SendMessage(MessageKind::ReportErrors),
        MenuItem::ClearErrors => MenuAction::SendMessage(MessageKind::ResetErrors),
        MenuItem::ResetKeys => MenuAction::SendMessage(MessageKind::ResetKeys),
        MenuItem::HopperTest => MenuAction::TestHoppers,
        MenuItem::DisplayTest => MenuAction::TestDisplay,
        MenuItem::GsmSettings => MenuAction::GsmSettings,
        MenuItem::CoinCalibration => MenuAction::CoinCalibration,
        MenuItem::GsmInfo => MenuAction::ShowGsmInfo,
        _ => MenuAction::NoAction,
    }
}

/// Each report item asks for its own report, and only it does: OK on the
/// state report item, and on no other item, asks to send the state report;
/// likewise the accounting report item for the period accounting report and
/// the error report item for the error report. No two action items ask for
/// the same action.
pub proof fn lemma_report_items_ask_their_reports(m: MenuItem, other: MenuItem)
    ensures
        ok_action(m) == MenuAction::SendMessage(MessageKind::ReportState) <==> m
            == MenuItem::SendReportState,
        ok_action(m) == MenuAction::SendMessage(MessageKind::ReportPeriodAccounting) <==> m
            == MenuItem::SendReportAccounting,
        ok_action(m) == MenuAction::SendMessage(MessageKind::ReportErrors) <==> m
            == MenuItem::SendReportErrors,
        is_action_item(m) && is_action_item(other) && ok_action(m) == ok_action(other) ==> m == other,
{
}

/// Pressing OK on an action item always asks for an action; on any other
/// item it asks for none.
pub proof fn lemma_ok_acts_exactly_on_action_items(m: MenuItem)
    ensures
        is_action_item(m) <==> ok_action(m) != MenuAction::NoAction,
{
}

/// Title of item `m` (first display row).
pub open spec fn item_title(m: MenuItem) -> Seq<char> {
    match m {
        MenuItem::CashOnHand => "НАЛИЧНОСТЬ"@,
        MenuItem::ItemLevel => "ТОВАР"@,
        MenuItem::CoinLevelA => "МОНЕТЫ A"@,
        MenuItem::CoinLevelB => "МОНЕТЫ B"@,
        MenuItem::HopperTest => "ТЕСТ ХОППЕРОВ"@,
        MenuItem::DisplayTest => "ТЕСТ ДИСПЛЕЯ"@,
        MenuItem::GsmSettings => "НАСТРОЙКИ GSM"@,
        MenuItem::CoinCalibration => "КАЛИБРОВКА МОН"@,
        MenuItem::Language => "ЯЗЫК"@,
        MenuItem::MachineId => "ID АВТОМАТА"@,
        MenuItem::CoinValue0 => "НОМИНАЛ Ch0"@,
        MenuItem::HopperCoinValueA => "ХОППЕР A VAL"@,
        MenuItem::ItemWarningLevel => "ПРЕДУПР.ТОВАР"@,
        MenuItem::PhoneNumber00 => "ТЕЛЕФОН 0"@,
        MenuItem::SendReportState => "ОТЧЁТ СОСТ."@,
        MenuItem::SendReportAccounting => "ОТЧЁТ БУХГ."@,
        MenuItem::SendReportErrors => "ОТЧЁТ ОШИБ."@,
        MenuItem::ClearErrors => "СБРОС ОШИБОК"@,
        MenuItem::ResetKeys => "СБРОС КЛЮЧЕЙ"@,
        MenuItem::Version => "ВЕРСИЯ"@,
        MenuItem::GsmInfo => "GSM ИНФО"@,
        MenuItem::Count => "---"@,
    }
}

/// The value shown for the navigator's item (second display row, before
/// the editing marker): levels show the edited value while editing.
pub open spec fn item_value(n: MenuNavigator, s: VendingState) -> Seq<char> {
    let edited = |v: i32| if n.editing {
        int_chars(n.edit_value as int)
    } else {
        int_chars(v as int)
    };
    match n.current {
        MenuItem::CashOnHand => int_chars(s.data.cash as int),
        MenuItem::ItemLevel => edited(s.data.item_level),
        MenuItem::CoinLevelA => edited(s.data.coin_levels[0]),
        MenuItem::CoinLevelB => edited(s.data.coin_levels[1]),
        MenuItem::Language => match s.settings.user_language {
            crate::state::Language::Latvian => "Latvija"@,
            crate::state::Language::Russian => "Русский"@,
        },
        MenuItem::MachineId => int_chars(s.settings.machine_id as int),
        MenuItem::CoinValue0 => int_chars(s.settings.coin_acceptor.coin_values[0] as int),
        MenuItem::HopperCoinValueA => int_chars(s.settings.coin_hoppers[0].coin_value as int),
        MenuItem::ItemWarningLevel => int_chars(s.settings.item_dispenser.warning_level as int),
        MenuItem::PhoneNumber00 => "(edit)"@,
        MenuItem::Version => int_chars(FIRMWARE_VERSION as int),
        MenuItem::Count => seq![],
        _ => "Нажми OK"@,
    }
}

/// The value row: while editing, the marker `◄` follows the value.
pub open spec fn value_line(n: MenuNavigator, s: VendingState) -> Seq<char> {
    let v = item_value(n, s);
    if n.editing {
        v.push('◄')
    } else {
        v
    }
}

/// Text whose characters all lie below U+0800 takes at most two bytes of
/// UTF-8 per character.
proof fn lemma_two_byte_text(s: Seq<char>)
    requires
        forall|i: int| 0 <= i < s.len() ==> (#[trigger] s[i]) as u32 <= 0x7FF,
    ensures
        encode_utf8(s).len() <= 2 * s.len(),
    decreases s.len(),
{
    if s.len() > 0 {
        assert forall|i: int| 0 <= i < s.drop_first().len() implies (#[trigger] s.drop_first()[i]) as u32
            <= 0x7FF by {
            assert(s.drop_first()[i] == s[i + 1]);
        }
        lemma_two_byte_text(s.drop_first());
        assert(s[0] as u32 <= 0x7FF);
    }
}

/// Every item title fits the 40-byte title row and the 16-character display.
proof fn lemma_title_fits(m: MenuItem)
    ensures
        byte_len(item_title(m)) <= 40,
        item_title(m).len() <= 16,
{
    match m {
        MenuItem::CashOnHand => {
            reveal_strlit("НАЛИЧНОСТЬ");
            lemma_two_byte_text("НАЛИЧНОСТЬ"@);
        },
        MenuItem::ItemLevel => {
            reveal_strlit("ТОВАР");
            lemma_two_byte_text("ТОВАР"@);
        },
        MenuItem::CoinLevelA => {
            reveal_strlit("МОНЕТЫ A");
            lemma_two_byte_text("МОНЕТЫ A"@);
        },
        MenuItem::CoinLevelB => {
            reveal_strlit("МОНЕТЫ B");
            lemma_two_byte_text("МОНЕТЫ B"@);
        },
        MenuItem::HopperTest => {
            reveal_strlit("ТЕСТ ХОППЕРОВ");
            lemma_two_byte_text("ТЕСТ ХОППЕРОВ"@);
        },
        MenuItem::DisplayTest => {
            reveal_strlit("ТЕСТ ДИСПЛЕЯ");
            lemma_two_byte_text("ТЕСТ ДИСПЛЕЯ"@);
        },
        MenuItem::GsmSettings => {
            reveal_strlit("НАСТРОЙКИ GSM");
            lemma_two_byte_text("НАСТРОЙКИ GSM"@);
        },
        MenuItem::CoinCalibration => {
            reveal_strlit("КАЛИБРОВКА МОН");
            lemma_two_byte_text("КАЛИБРОВКА МОН"@);
        },
        MenuItem::Language => {
            reveal_strlit("ЯЗЫК");
            lemma_two_byte_text("ЯЗЫК"@);
        },
        MenuItem::MachineId => {
            reveal_strlit("ID АВТОМАТА");
            lemma_two_byte_text("ID АВТОМАТА"@);
        },
        MenuItem::CoinValue0 => {
            reveal_strlit("НОМИНАЛ Ch0");
            lemma_two_byte_text("НОМИНАЛ Ch0"@);
        },
        MenuItem::HopperCoinValueA => {
            reveal_strlit("ХОППЕР A VAL");
            lemma_two_byte_text("ХОППЕР A VAL"@);
        },
        MenuItem::ItemWarningLevel => {
            reveal_strlit("ПРЕДУПР.ТОВАР");
            lemma_two_byte_text("ПРЕДУПР.ТОВАР"@);
        },
        MenuItem::PhoneNumber00 => {
            reveal_strlit("ТЕЛЕФОН 0");
            lemma_two_byte_text("ТЕЛЕФОН 0"@);
        },
        MenuItem::SendReportState => {
            reveal_strlit("ОТЧЁТ СОСТ.");
            lemma_two_byte_text("ОТЧЁТ СОСТ."@);
        },
        MenuItem::SendReportAccounting => {
            reveal_strlit("ОТЧЁТ БУХГ.");
            lemma_two_byte_text("ОТЧЁТ БУХГ."@);
        },
        MenuItem::SendReportErrors => {
            reveal_strlit("ОТЧЁТ ОШИБ.");
            lemma_two_byte_text("ОТЧЁТ ОШИБ."@);
        },
        MenuItem::ClearErrors => {
            reveal_strlit("СБРОС ОШИБОК");
            lemma_two_byte_text("СБРОС ОШИБОК"@);
        },
        MenuItem::ResetKeys => {
            reveal_strlit("СБРОС КЛЮЧЕЙ");
            lemma_two_byte_text("СБРОС КЛЮЧЕЙ"@);
        },
        MenuItem::Version => {
            reveal_strlit("ВЕРСИЯ");
            lemma_two_byte_text("ВЕРСИЯ"@);
        },
        MenuItem::GsmInfo => {
            reveal_strlit("GSM ИНФО");
            lemma_two_byte_text("GSM ИНФО"@);
        },
        MenuItem::Count => {
            reveal_strlit("---");
            lemma_two_byte_text("---"@);
        },
    }
}

/// The editing marker takes three bytes of UTF-8.
proof fn lemma_marker_bytes()
    ensures
        encode_utf8(seq!['◄']).len() == 3,
{
    let m = seq!['◄'];
    assert(m.drop_first() =~= Seq::<char>::empty());
    assert('◄' as u32 == 0x25C4);
    assert(encode_utf8(m) == vstd::utf8::encode_scalar(m[0] as u32) + encode_utf8(
        Seq::<char>::empty(),
    ));
    assert(vstd::utf8::encode_scalar(0x25C4u32).len() == 3);
}

/// The value row holds at most 16 characters and fits its 48-byte buffer.
proof fn lemma_value_fits(n: MenuNavigator, s: VendingState)
    ensures
        value_line(n, s).len() <= 16,
        byte_len(value_line(n, s)) <= 48,
{
    let v = item_value(n, s);
    assert(byte_len(v) <= 16 && v.len() <= 15) by {
        reveal_strlit("Latvija");
        reveal_strlit("Русский");
        reveal_strlit("(edit)");
        reveal_strlit("Нажми OK");
        lemma_two_byte_text("Latvija"@);
        lemma_two_byte_text("Русский"@);
        lemma_two_byte_text("(edit)"@);
        lemma_two_byte_text("Нажми OK"@);
        let k: i32 = match n.current {
            MenuItem::CashOnHand => s.data.cash,
            MenuItem::MachineId => s.settings.machine_id,
            MenuItem::CoinValue0 => s.settings.coin_acceptor.coin_values[0],
            MenuItem::HopperCoinValueA => s.settings.coin_hoppers[0].coin_value,
            MenuItem::ItemWarningLevel => s.settings.item_dispenser.warning_level,
            MenuItem::Version => FIRMWARE_VERSION as i32,
            MenuItem::ItemLevel => if n.editing {
                n.edit_value
            } else {
                s.data.item_level
            },
            MenuItem::CoinLevelA => if n.editing {
                n.edit_value
            } else {
                s.data.coin_levels[0]
            },
            MenuItem::CoinLevelB => if n.editing {
                n.edit_value
            } else {
                s.data.coin_levels[1]
            },
            _ => 0,
        };
        lemma_int_chars_ascii(k as int);
        lemma_int_chars_len(k);
        lemma_ascii_bytes(int_chars(k as int));
        assert(encode_utf8(Seq::<char>::empty()) =~= Seq::<u8>::empty());
    }
    if n.editing {
        lemma_marker_bytes();
        assert(v.push('◄') =~= v + seq!['◄']);
        lemma_encode_utf8_concat(v, seq!['◄']);
    }
}

/// Exactly the action items show the OK prompt as their value.
pub proof fn lemma_ok_prompt_exactly_on_action_items(n: MenuNavigator, s: VendingState)
    ensures
        is_action_item(n.current) <==> item_value(n, s) == "Нажми OK"@,
{
    reveal_strlit("Latvija");
    reveal_strlit("Русский");
    reveal_strlit("(edit)");
    reveal_strlit("Нажми OK");
    let p = "Нажми OK"@;
    assert(p.len() == 8 && p[0] == 'Н');
    assert('Н' as u32 == 0x41D);
    let k: i32 = match n.current {
        MenuItem::CashOnHand => s.data.cash,
        MenuItem::MachineId => s.settings.machine_id,
        MenuItem::CoinValue0 => s.settings.coin_acceptor.coin_values[0],
        MenuItem::HopperCoinValueA => s.settings.coin_hoppers[0].coin_value,
        MenuItem::ItemWarningLevel => s.settings.item_dispenser.warning_level,
        MenuItem::Version => FIRMWARE_VERSION as i32,
        MenuItem::ItemLevel => if n.editing {
            n.edit_value
        } else {
            s.data.item_level
        },
        MenuItem::CoinLevelA => if n.editing {
            n.edit_value
        } else {
            s.data.coin_levels[0]
        },
        MenuItem::CoinLevelB => if n.editing {
            n.edit_value
        } else {
            s.data.coin_levels[1]
        },
        _ => 0,
    };
    lemma_int_chars_ascii(k as int);
    let w = int_chars(k as int);
    if w.len() > 0 {
        assert(w[0] <= '\u{7f}') by {
            assert(vstd::utf8::is_ascii_chars(w));
        }
        assert(w != p);
    }
    assert("Latvija"@[0] != p[0]);
    assert("Русский"@[1] != p[1]);
    assert("(edit)"@.len() != p.len());
}

/// No item value ends with the editing marker.
proof fn lemma_value_not_marked(n: MenuNavigator, s: VendingState)
    ensures
        item_value(n, s).len() > 0 ==> item_value(n, s).last() != '◄',
{
    reveal_strlit("Latvija");
    reveal_strlit("Русский");
    reveal_strlit("(edit)");
    reveal_strlit("Нажми OK");
    let v = item_value(n, s);
    if v.len() > 0 {
        let k: i32 = match n.current {
            MenuItem::CashOnHand => s.data.cash,
            MenuItem::MachineId => s.settings.machine_id,
            MenuItem::CoinValue0 => s.settings.coin_acceptor.coin_values[0],
            MenuItem::HopperCoinValueA => s.settings.coin_hoppers[0].coin_value,
            MenuItem::ItemWarningLevel => s.settings.item_dispenser.warning_level,
            MenuItem::Version => FIRMWARE_VERSION as i32,
            MenuItem::ItemLevel => if n.editing {
                n.edit_value
            } else {
                s.data.item_level
            },
            MenuItem::CoinLevelA => if n.editing {
                n.edit_value
            } else {
                s.data.coin_levels[0]
            },
            MenuItem::CoinLevelB => if n.editing {
                n.edit_value
            } else {
                s.data.coin_levels[1]
            },
            _ => 0,
        };
        lemma_int_chars_ascii(k as int);
        let w = int_chars(k as int);
        if w.len() > 0 {
            assert(w.last() <= '\u{7f}') by {
                assert(w.last() == w[w.len() - 1]);
                assert(vstd::utf8::is_ascii_chars(w));
            }
        }
        assert('◄' as u32 == 0x25C4);
    }
}

fn title_text(m: MenuItem) -> (r: String)
    ensures
        r@ == item_title(m),
{
    let t = match m {
        MenuItem::CashOnHand => "НАЛИЧНОСТЬ",
        MenuItem::ItemLevel => "ТОВАР",
        MenuItem::CoinLevelA => "МОНЕТЫ A",
        MenuItem::CoinLevelB => "МОНЕТЫ B",
        MenuItem::HopperTest => "ТЕСТ ХОППЕРОВ",
        MenuItem::DisplayTest => "ТЕСТ ДИСПЛЕЯ",
        MenuItem::GsmSettings => "НАСТРОЙКИ GSM",
        MenuItem::CoinCalibration => "КАЛИБРОВКА МОН",
        MenuItem::Language => "ЯЗЫК",
        MenuItem::MachineId => "ID АВТОМАТА",
        MenuItem::CoinValue0 => "НОМИНАЛ Ch0",
        MenuItem::HopperCoinValueA => "ХОППЕР A VAL",
        MenuItem::ItemWarningLevel => "ПРЕДУПР.ТОВАР",
        MenuItem::PhoneNumber00 => "ТЕЛЕФОН 0",
        MenuItem::SendReportState => "ОТЧЁТ СОСТ.",
        MenuItem::SendReportAccounting => "ОТЧЁТ БУХГ.",
        MenuItem::SendReportErrors => "ОТЧЁТ ОШИБ.",
        MenuItem::ClearErrors => "СБРОС ОШИБОК",
        MenuItem::ResetKeys => "СБРОС КЛЮЧЕЙ",
        MenuItem::Version => "ВЕРСИЯ",
        MenuItem::GsmInfo => "GSM ИНФО",
        MenuItem::Count => "---",
    };
    let mut r = String::new();
    push_str(&mut r, t);
    assert(r@ =~= item_title(m));
    r
}

impl MenuNavigator {
    /// At the first item, not editing, idle since time 0.
    pub fn new() -> (r: MenuNavigator)
        ensures
            r.current == MenuItem::CashOnHand,
            !r.editing,
            r.edit_value == 0,
            text40(r.scroller.text) == Seq::<char>::empty(),
            r.scroller.align == ScrollAlign::Left,
            r.scroller.pos == 0,
            r.scroller.direction == 1,
            r.scroller.next_update == 0,
            r.last_activity_ms == 0,
    {
        MenuNavigator {
            current: MenuItem::CashOnHand,
            editing: false,
            edit_value: 0,
            scroller: Scroller::new(),
            last_activity_ms: 0,
        }
    }

    /// Next (Down): while editing the value grows by one, otherwise the
    /// next item is shown.
    pub fn next(&mut self, now_ms: u64)
        requires
            old(self).editing ==> old(self).edit_value < i32::MAX,
        ensures
            final(self).editing == old(self).editing,
            final(self).current == if old(self).editing {
                old(self).current
            } else {
                item_of(next_code(old(self).current))
            },
            final(self).edit_value == if old(self).editing {
                (old(self).edit_value + 1) as i32
            } else {
                old(self).edit_value
            },
            final(self).scroller == old(self).scroller,
            final(self).last_activity_ms == now_ms,
    {
        if self.editing {
            self.edit_value = self.edit_value + 1;
        } else {
            self.current = self.current.next();
        }
        self.last_activity_ms = now_ms;
    }

    /// Prev (Up): while editing the value drops by one, otherwise the
    /// previous item is shown.
    pub fn prev(&mut self, now_ms: u64)
        requires
            old(self).editing ==> old(self).edit_value > i32::MIN,
        ensures
            final(self).editing == old(self).editing,
            final(self).current == if old(self).editing {
                old(self).current
            } else {
                item_of(prev_code(old(self).current))
            },
            final(self).edit_value == if old(self).editing {
                (old(self).edit_value - 1) as i32
            } else {
                old(self).edit_value
            },
            final(self).scroller == old(self).scroller,
            final(self).last_activity_ms == now_ms,
    {
        if self.editing {
            self.edit_value = self.edit_value - 1;
        } else {
            self.current = self.current.prev();
        }
        self.last_activity_ms = now_ms;
    }

    /// Okay (Enter). While editing, editing ends (the value is not stored)
    /// and nothing is asked. Otherwise an action item returns its action;
    /// an editable item starts editing with its current value; other items
    /// do nothing.
    pub fn ok(&mut self, state: &VendingState, now_ms: u64) -> (r: MenuAction)
        ensures
            final(self).last_activity_ms == now_ms,
            final(self).current == old(self).current,
            final(self).scroller == old(self).scroller,
            old(self).editing ==> {
                &&& !final(self).editing
                &&& final(self).edit_value == old(self).edit_value
                &&& r == MenuAction::NoAction
            },
            !old(self).editing ==> {
                &&& r == ok_action(old(self).current)
                &&& if r == MenuAction::NoAction && is_editable_item(old(self).current) {
                    &&& final(self).editing
                    &&& final(self).edit_value == read_value(old(self).current, *state)
                } else {
                    &&& !final(self).editing
                    &&& final(self).edit_value == old(self).edit_value
                }
            },
    {
        self.last_activity_ms = now_ms;
        if self.editing {
            self.editing = false;
            self.apply_edit_value(state);
            return MenuAction::NoAction;
        }
        match self.current {
            MenuItem::SendReportState => MenuAction::SendMessage(MessageKind::ReportState),
            MenuItem::SendReportAccounting => MenuAction::SendMessage(
                MessageKind::ReportPeriodAccounting,
            ),
            MenuItem::SendReportErrors => MenuAction::SendMessage(MessageKind::ReportErrors),
            MenuItem::ClearErrors => MenuAction::SendMessage(MessageKind::ResetErrors),
            MenuItem::ResetKeys => MenuAction::SendMessage(MessageKind::ResetKeys),
            MenuItem::HopperTest => MenuAction::TestHoppers,
            MenuItem::DisplayTest => MenuAction::TestDisplay,
            MenuItem::GsmSettings => MenuAction::GsmSettings,
            MenuItem::CoinCalibration => MenuAction::CoinCalibration,
            MenuItem::GsmInfo => MenuAction::ShowGsmInfo,
            _ => {
                if self.current.is_editable() {
                    self.editing = true;
                    self.edit_value = self.read_current_value(state);
                }
                MenuAction::NoAction
            },
        }
    }

    /// Cancel (Back): leaves editing (`false`), or asks to leave the menu
    /// (`true`).
    pub fn cancel(&mut self, now_ms: u64) -> (r: bool)
        ensures
            r == !old(self).editing,
            !final(self).editing,
            final(self).current == old(self).current,
            final(self).edit_value == old(self).edit_value,
            final(self).scroller == old(self).scroller,
            final(self).last_activity_ms == now_ms,
    {
        self.last_activity_ms = now_ms;
        if self.editing {
            self.editing = false;
            false
        } else {
            true
        }
    }

    /// The menu has been idle for `timeout_s` seconds by `now_ms`.
    pub fn check_timeout(&self, now_ms: u64, timeout_s: u8) -> (r: bool)
        ensures
            r == ((if now_ms >= self.last_activity_ms {
                now_ms - self.last_activity_ms
            } else {
                0
            }) >= timeout_s * 1000),
    {
        let elapsed = now_ms.saturating_sub(self.last_activity_ms);
        elapsed >= (timeout_s as u64) * 1000
    }

    fn read_current_value(&self, state: &VendingState) -> (r: i32)
        ensures
            r == read_value(self.current, *state),
    {
        match self.current {
            MenuItem::ItemLevel => state.data.item_level,
            MenuItem::CoinLevelA => state.data.coin_levels[0],
            MenuItem::CoinLevelB => state.data.coin_levels[1],
            MenuItem::Language => state.settings.user_language.code(),
            MenuItem::MachineId => state.settings.machine_id,
            MenuItem::CoinValue0 => state.settings.coin_acceptor.coin_values[0],
            MenuItem::HopperCoinValueA => state.settings.coin_hoppers[0].coin_value,
            MenuItem::ItemWarningLevel => state.settings.item_dispenser.warning_level,
            _ => 0,
        }
    }

    /// Storing an edited value is not implemented: the value is dropped.
    fn apply_edit_value(&self, state: &VendingState) {
    }

    /// The two display rows for the current item: its title and its value
    /// (see `item_title`, `value_line`). Each row is at most 16 characters;
    /// the value row ends with the marker `◄` exactly while editing. The
    /// value row's buffer holds 16 characters of up to three bytes each.
    pub fn display_text(&self, state: &VendingState) -> (r: (heapless::String<40>, heapless::String<48>))
        ensures
            text40(r.0) == item_title(self.current),
            text48(r.1) == value_line(*self, *state),
            item_title(self.current).len() <= DISPLAY_WIDTH,
            value_line(*self, *state).len() <= DISPLAY_WIDTH,
            self.editing <==> (value_line(*self, *state).len() > 0
                && value_line(*self, *state).last() == '◄'),
    {
        let line1 = title_text(self.current);
        let mut line2 = String::new();
        match self.current {
            MenuItem::CashOnHand => push_i32(&mut line2, state.data.cash),
            MenuItem::ItemLevel => {
                if self.editing {
                    push_i32(&mut line2, self.edit_value);
                } else {
                    push_i32(&mut line2, state.data.item_level);
                }
            },
            MenuItem::CoinLevelA => {
                if self.editing {
                    push_i32(&mut line2, self.edit_value);
                } else {
                    push_i32(&mut line2, state.data.coin_levels[0]);
                }
            },
            MenuItem::CoinLevelB => {
                if self.editing {
                    push_i32(&mut line2, self.edit_value);
                } else {
                    push_i32(&mut line2, state.data.coin_levels[1]);
                }
            },
            MenuItem::Language => match state.settings.user_language {
                crate::state::Language::Latvian => push_str(&mut line2, "Latvija"),
                crate::state::Language::Russian => push_str(&mut line2, "Русский"),
            },
            MenuItem::MachineId => push_i32(&mut line2, state.settings.machine_id),
            MenuItem::CoinValue0 => push_i32(
                &mut line2,
                state.settings.coin_acceptor.coin_values[0],
            ),
            MenuItem::HopperCoinValueA => push_i32(
                &mut line2,
                state.settings.coin_hoppers[0].coin_value,
            ),
            MenuItem::ItemWarningLevel => push_i32(
                &mut line2,
                state.settings.item_dispenser.warning_level,
            ),
            MenuItem::PhoneNumber00 => push_str(&mut line2, "(edit)"),
            MenuItem::Version => push_i32(&mut line2, FIRMWARE_VERSION as i32),
            MenuItem::Count => {},
            _ => push_str(&mut line2, "Нажми OK"),
        }
        assert(line2@ =~= item_value(*self, *state));
        if self.editing {
            push_char(&mut line2, '◄');
        }
        proof {
            lemma_title_fits(self.current);
            lemma_value_fits(*self, *state);
            lemma_value_not_marked(*self, *state);
        }
        (text40_of(line1.as_str()), text48_of(line2.as_str()))
    }
}

impl Default for MenuNavigator {
    fn default() -> (r: MenuNavigator)
        ensures
            r.current == MenuItem::CashOnHand,
            !r.editing,
            r.edit_value == 0,
            r.last_activity_ms == 0,
    {
        MenuNavigator::new()
    }
}

} // verus!
