//! HD44780 character display behind a PCF8574 I2C backpack.
//!
//! The backpack maps its port to the display: P0 = RS, P1 = RW, P2 = EN,
//! P3 = backlight, P4..P7 = D4..D7. The display runs in 4-bit mode: every
//! byte is sent as two nibbles, each written once with EN high and once
//! with EN low. The driver here decides what goes on the bus: each
//! operation returns the bus writes and waits, in order, as `LcdOp`s, and
//! the application performs them with its I2C writer.

use vstd::prelude::*;
use vstd::utf8::encode_utf8;

use crate::config::{LCD_COLS, LCD_ROWS};
use crate::menu::byte_len;
use crate::fixed::{fitted, text16, text16_of, text16_str, text40, text40_of, text40_str};

verus! {

/// Register select (P0).
pub const RS_BIT: u8 = 0x01;
/// Read/write (P1), always 0: the driver only writes.
pub const RW_BIT: u8 = 0x02;
/// Enable strobe (P2).
pub const EN_BIT: u8 = 0x04;
/// Backlight (P3).
pub const BL_BIT: u8 = 0x08;

/// Clear display.
pub const CMD_CLEAR_DISPLAY: u8 = 0x01;
/// Cursor home.
pub const CMD_RETURN_HOME: u8 = 0x02;
/// Entry mode.
pub const CMD_ENTRY_MODE_SET: u8 = 0x04;
/// Display on/off control.
pub const CMD_DISPLAY_CONTROL: u8 = 0x08;
/// Set the character generator address.
pub const CMD_SET_CGRAM_ADDR: u8 = 0x40;
/// Set the display data address.
pub const CMD_SET_DDRAM_ADDR: u8 = 0x80;
/// Function set: 4-bit bus, two lines, 5x8 dots.
pub const CMD_FUNCTION_4BIT_2LINES: u8 = 0x28;

/// Entry mode: the cursor moves right.
pub const ENTRY_INCREMENT: u8 = 0x02;
/// Entry mode: the display does not shift.
pub const ENTRY_SHIFT_OFF: u8 = 0x00;
/// Display control: display on.
pub const DISPLAY_ON: u8 = 0x04;
/// Display control: cursor shown.
pub const CURSOR_ON: u8 = 0x02;
/// Display control: cursor blinks.
pub const CURSOR_BLINK: u8 = 0x01;

/// EN high time, in microseconds.
pub const EN_PULSE_US: u64 = 1;
/// Time after EN low, in microseconds.
pub const EN_CYCLE_US: u64 = 50;
/// Time a clear takes, in milliseconds.
pub const CLEAR_DELAY_MS: u64 = 2;
/// Time a return home takes, in milliseconds.
pub const HOME_DELAY_MS: u64 = 2;
/// Time after a command or data byte, in microseconds.
pub const CMD_DELAY_US: u64 = 100;

/// Horizontal alignment of a text line.
#[derive(Debug, Clone, Copy, PartialEq, Eq, Structural)]
pub enum Align {
    Left,
    Center,
    Right,
}

/// Command to the display task.
#[derive(Debug, Clone)]
pub enum DisplayCommand {
    /// Clear the screen.
    Clear,
    /// Text at column `x`, row `y`.
    Text { x: u8, y: u8, text: heapless::String<16> },
    /// Aligned text on row `y`.
    TextAligned { align: Align, y: u8, text: heapless::String<40> },
    /// Show or hide the cursor.
    Cursor { visible: bool },
    /// Redraw from the frame buffer.
    ScrollerUpdate,
    /// Define custom character `location`.
    SetCustomChar { location: u8, data: [u8; 8] },
    /// Switch the backlight.
    Backlight { on: bool },
}

/// A display text of up to 40 bytes: `s` when it fits, otherwise empty.
pub fn make_str_40(s: &str) -> (r: heapless::String<40>)
    ensures
        text40(r) == fitted(s@, 40),
{
    text40_of(s)
}

/// A display text of up to 16 bytes: `s` when it fits, otherwise empty.
pub fn make_str_16(s: &str) -> (r: heapless::String<16>)
    ensures
        text16(r) == fitted(s@, 16),
{
    text16_of(s)
}

/// Writes one byte to an I2C device.
pub trait I2cWriter {
    /// Writes `data` to the device at address `addr`.
    fn write_byte(&mut self, addr: u8, data: u8);
}

/// A writer that drops every byte (no bus attached).
pub struct I2cNoop;

impl I2cWriter for I2cNoop {
    fn write_byte(&mut self, addr: u8, data: u8) {
    }
}

/// One bus operation of the display driver.
#[derive(Debug, Clone, Copy, PartialEq, Eq, Structural)]
pub enum LcdOp {
    /// Write this byte to the backpack.
    Write(u8),
    /// Wait this many microseconds.
    DelayUs(u64),
    /// Wait this many milliseconds.
    DelayMs(u64),
}

/// The backpack byte for nibble `nibble` with the given RS, EN and
/// backlight levels (RW low).
pub open spec fn port_byte(nibble: u8, rs: bool, en: bool, bl: bool) -> u8 {
    ((nibble & 0x0F) << 4u8) | (if rs {
        RS_BIT
    } else {
        0u8
    }) | (if bl {
        BL_BIT
    } else {
        0u8
    }) | (if en {
        EN_BIT
    } else {
        0u8
    })
}

/// One nibble: written with EN high, a short wait, written with EN low, a
/// longer wait.
pub open spec fn nibble_ops(nibble: u8, rs: bool, bl: bool) -> Seq<LcdOp> {
    seq![
        LcdOp::Write(port_byte(nibble, rs, true, bl)),
        LcdOp::DelayUs(EN_PULSE_US),
        LcdOp::Write(port_byte(nibble, rs, false, bl)),
        LcdOp::DelayUs(EN_CYCLE_US),
    ]
}

/// One byte (a command with RS low, data with RS high): the high nibble,
/// the low nibble, then the command wait.
pub open spec fn byte_ops(b: u8, rs: bool, bl: bool) -> Seq<LcdOp> {
    nibble_ops(b >> 4u8, rs, bl) + nibble_ops(b & 0x0F, rs, bl) + seq![LcdOp::DelayUs(CMD_DELAY_US)]
}

/// Data bytes written one after another.
pub open spec fn data_seq_ops(bytes: Seq<u8>, bl: bool) -> Seq<LcdOp>
    decreases bytes.len(),
{
    if bytes.len() == 0 {
        seq![]
    } else {
        data_seq_ops(bytes.drop_last(), bl) + byte_ops(bytes.last(), true, bl)
    }
}

/// The display address of column `x`, row `y` (rows start at 0x00 and
/// 0x40; both wrap).
pub open spec fn cursor_address(x: u8, y: u8) -> u8 {
    ((if y % 2 == 0 {
        0x00int
    } else {
        0x40int
    }) + x % 16) as u8
}

/// Custom character `location` (taken modulo 8) defined by `rows`, then
/// the address set back to the display.
pub open spec fn custom_char_ops(location: u8, rows: Seq<u8>, bl: bool) -> Seq<LcdOp> {
    byte_ops(CMD_SET_CGRAM_ADDR | ((location & 0x07) << 3u8), false, bl) + data_seq_ops(rows, bl)
        + byte_ops(CMD_SET_DDRAM_ADDR, false, bl)
}

/// The eight custom characters (Latvian letters).
pub open spec fn custom_chars() -> Seq<Seq<u8>> {
    seq![
        seq![0x02u8, 0x00, 0x0E, 0x11, 0x1F, 0x11, 0x11, 0x00],
        seq![0x02u8, 0x00, 0x0E, 0x11, 0x1F, 0x11, 0x11, 0x00],
        seq![0x02u8, 0x00, 0x0C, 0x04, 0x04, 0x04, 0x0E, 0x00],
        seq![0x02u8, 0x00, 0x0E, 0x11, 0x11, 0x11, 0x0E, 0x00],
        seq![0x0Cu8, 0x04, 0x0E, 0x12, 0x1F, 0x12, 0x12, 0x00],
        seq![0x0Cu8, 0x04, 0x1E, 0x10, 0x1C, 0x12, 0x1C, 0x00],
        seq![0x00u8, 0x00, 0x16, 0x19, 0x11, 0x15, 0x15, 0x00],
        seq![0x04u8, 0x00, 0x1E, 0x20, 0x1C, 0x22, 0x1C, 0x00],
    ]
}

/// Loading the first `k` custom characters.
pub open spec fn custom_chars_ops(k: int, bl: bool) -> Seq<LcdOp>
    decreases k,
{
    if k <= 0 {
        seq![]
    } else {
        custom_chars_ops(k - 1, bl) + custom_char_ops((k - 1) as u8, custom_chars()[k - 1], bl)
    }
}

/// The power-up sequence: three times the 8-bit function set, the switch
/// to 4-bit mode, then 4-bit two-line mode, display on, clear, entry mode,
/// the custom characters and cursor home.
pub open spec fn init_ops(bl: bool) -> Seq<LcdOp> {
    seq![LcdOp::DelayMs(50)] + nibble_ops(0x03, false, bl) + seq![LcdOp::DelayMs(5)] + nibble_ops(
        0x03,
        false,
        bl,
    ) + seq![LcdOp::DelayUs(150)] + nibble_ops(0x03, false, bl) + seq![LcdOp::DelayUs(150)]
        + nibble_ops(0x02, false, bl) + seq![LcdOp::DelayUs(150)] + byte_ops(
        CMD_FUNCTION_4BIT_2LINES,
        false,
        bl,
    ) + byte_ops(CMD_DISPLAY_CONTROL | DISPLAY_ON, false, bl) + byte_ops(
        CMD_CLEAR_DISPLAY,
        false,
        bl,
    ) + seq![LcdOp::DelayMs(CLEAR_DELAY_MS)] + byte_ops(
        CMD_ENTRY_MODE_SET | ENTRY_INCREMENT | ENTRY_SHIFT_OFF,
        false,
        bl,
    ) + custom_chars_ops(8, bl) + byte_ops(CMD_RETURN_HOME, false, bl) + seq![
        LcdOp::DelayMs(HOME_DELAY_MS),
    ]
}

/// Plain values of the driver.
pub struct LcdView {
    pub addr: u8,
    pub backlight: bool,
    pub buf: [[u8; 16]; 2],
}

/// Every cell of the buffer holds a blank.
pub open spec fn is_blank(buf: [[u8; 16]; 2]) -> bool {
    forall|y: int, x: int| 0 <= y < 2 && 0 <= x < 16 ==> #[trigger] buf[y][x] == 32u8
}

/// `after` is `before` with its buffer blanked.
pub open spec fn blanked(before: LcdView, after: LcdView) -> bool {
    &&& after.addr == before.addr
    &&& after.backlight == before.backlight
    &&& is_blank(after.buf)
}

/// HD44780 display driver with a frame buffer.
pub struct Hd44780I2c {
    addr: u8,
    backlight: bool,
    buf: [[u8; 16]; 2],
}

impl View for Hd44780I2c {
    type V = LcdView;

    closed spec fn view(&self) -> LcdView {
        LcdView { addr: self.addr, backlight: self.backlight, buf: self.buf }
    }
}

fn blank_rows() -> (r: [[u8; 16]; 2])
    ensures
        is_blank(r),
{
    let row: [u8; 16] = [32u8; 16];
    let r = [row, row];
    assert(forall|x: int| 0 <= x < 16 ==> #[trigger] row[x] == 32u8);
    r
}

fn push_op(ops: &mut Vec<LcdOp>, op: LcdOp)
    ensures
        final(ops)@ == old(ops)@.push(op),
{
    ops.push(op);
}

impl Hd44780I2c {
    /// A driver for the backpack at `addr`: backlight on, buffer blank.
    pub fn new(addr: u8) -> (r: Hd44780I2c)
        ensures
            r@.addr == addr,
            r@.backlight,
            is_blank(r@.buf),
    {
        Hd44780I2c { addr, backlight: true, buf: blank_rows() }
    }

    /// The I2C address of the backpack.
    pub fn addr(&self) -> (r: u8)
        ensures
            r == self@.addr,
    {
        self.addr
    }

    fn emit_nibble(&self, ops: &mut Vec<LcdOp>, nibble: u8, rs: bool)
        ensures
            final(ops)@ == old(ops)@ + nibble_ops(nibble, rs, self@.backlight),
    {
        let rs_bit = if rs {
            RS_BIT
        } else {
            0x00
        };
        let bl_bit = if self.backlight {
            BL_BIT
        } else {
            0x00
        };
        let data_bits = (nibble & 0x0F) << 4u8;
        let byte_hi = data_bits | rs_bit | bl_bit | EN_BIT;
        let byte_lo = data_bits | rs_bit | bl_bit | 0u8;
        push_op(ops, LcdOp::Write(byte_hi));
        push_op(ops, LcdOp::DelayUs(EN_PULSE_US));
        push_op(ops, LcdOp::Write(byte_lo));
        push_op(ops, LcdOp::DelayUs(EN_CYCLE_US));
        assert(final(ops)@ =~= old(ops)@ + nibble_ops(nibble, rs, self@.backlight));
    }

    fn emit_byte(&self, ops: &mut Vec<LcdOp>, b: u8, rs: bool)
        ensures
            final(ops)@ == old(ops)@ + byte_ops(b, rs, self@.backlight),
    {
        self.emit_nibble(ops, b >> 4u8, rs);
        self.emit_nibble(ops, b & 0x0F, rs);
        push_op(ops, LcdOp::DelayUs(CMD_DELAY_US));
        assert(final(ops)@ =~= old(ops)@ + byte_ops(b, rs, self@.backlight));
    }

    fn emit_data_seq(&self, ops: &mut Vec<LcdOp>, bytes: &[u8])
        ensures
            final(ops)@ == old(ops)@ + data_seq_ops(bytes@, self@.backlight),
    {
        let mut i: usize = 0;
        while i < bytes.len()
            invariant
                i <= bytes@.len(),
                ops@ == old(ops)@ + data_seq_ops(bytes@.take(i as int), self@.backlight),
            decreases bytes@.len() - i,
        {
            let ghost before = ops@;
            self.emit_byte(ops, bytes[i], true);
            proof {
                let t = bytes@.take(i + 1);
                assert(t.drop_last() =~= bytes@.take(i as int));
                assert(t.last() == bytes@[i as int]);
                assert(ops@ =~= old(ops)@ + data_seq_ops(t, self@.backlight));
            }
            i = i + 1;
        }
        assert(bytes@.take(bytes@.len() as int) =~= bytes@);
    }

    /// The bus operations of command byte `cmd` (RS low).
    pub fn write_cmd(&self, cmd: u8) -> (r: Vec<LcdOp>)
        ensures
            r@ == byte_ops(cmd, false, self@.backlight),
    {
        let mut ops: Vec<LcdOp> = Vec::new();
        self.emit_byte(&mut ops, cmd, false);
        assert(ops@ =~= byte_ops(cmd, false, self@.backlight));
        ops
    }

    /// The bus operations of data byte `data` (RS high).
    pub fn write_data(&self, data: u8) -> (r: Vec<LcdOp>)
        ensures
            r@ == byte_ops(data, true, self@.backlight),
    {
        let mut ops: Vec<LcdOp> = Vec::new();
        self.emit_byte(&mut ops, data, true);
        assert(ops@ =~= byte_ops(data, true, self@.backlight));
        ops
    }

    /// Clears the display and blanks the buffer.
    pub fn clear(&mut self) -> (r: Vec<LcdOp>)
        ensures
            blanked(old(self)@, final(self)@),
            r@ == byte_ops(CMD_CLEAR_DISPLAY, false, old(self)@.backlight) + seq![
                LcdOp::DelayMs(CLEAR_DELAY_MS),
            ],
    {
        let mut ops: Vec<LcdOp> = Vec::new();
        self.emit_byte(&mut ops, CMD_CLEAR_DISPLAY, false);
        push_op(&mut ops, LcdOp::DelayMs(CLEAR_DELAY_MS));
        self.buf = blank_rows();
        assert(ops@ =~= byte_ops(CMD_CLEAR_DISPLAY, false, old(self)@.backlight) + seq![
            LcdOp::DelayMs(CLEAR_DELAY_MS),
        ]);
        ops
    }

    fn emit_cursor(&self, ops: &mut Vec<LcdOp>, x: u8, y: u8)
        ensures
            final(ops)@ == old(ops)@ + byte_ops(
                CMD_SET_DDRAM_ADDR | cursor_address(x, y),
                false,
                self@.backlight,
            ),
    {
        let row_offset: [u8; 2] = [0x00, 0x40];
        let offset = row_offset[(y % LCD_ROWS) as usize] + (x % LCD_COLS);
        self.emit_byte(ops, CMD_SET_DDRAM_ADDR | offset, false);
    }

    /// Moves the cursor to column `x`, row `y` (both wrap).
    pub fn set_cursor(&self, x: u8, y: u8) -> (r: Vec<LcdOp>)
        ensures
            r@ == byte_ops(CMD_SET_DDRAM_ADDR | cursor_address(x, y), false, self@.backlight),
    {
        let mut ops: Vec<LcdOp> = Vec::new();
        self.emit_cursor(&mut ops, x, y);
        assert(ops@ =~= byte_ops(CMD_SET_DDRAM_ADDR | cursor_address(x, y), false, self@.backlight));
        ops
    }

    /// Writes the UTF-8 bytes of `text` at the cursor, one data byte each.
    pub fn print(&self, text: &str) -> (r: Vec<LcdOp>)
        ensures
            r@ == data_seq_ops(encode_utf8(text@), self@.backlight),
    {
        let mut ops: Vec<LcdOp> = Vec::new();
        self.emit_data_seq(&mut ops, text.as_bytes());
        assert(ops@ =~= data_seq_ops(encode_utf8(text@), self@.backlight));
        ops
    }

    /// Writes one character code at the cursor.
    pub fn write_char(&self, ch: u8) -> (r: Vec<LcdOp>)
        ensures
            r@ == byte_ops(ch, true, self@.backlight),
    {
        self.write_data(ch)
    }

    fn emit_custom_char(&self, ops: &mut Vec<LcdOp>, location: u8, char_map: &[u8; 8])
        ensures
            final(ops)@ == old(ops)@ + custom_char_ops(location, char_map@, self@.backlight),
    {
        self.emit_byte(ops, CMD_SET_CGRAM_ADDR | ((location & 0x07) << 3u8), false);
        self.emit_data_seq(ops, char_map.as_slice());
        self.emit_byte(ops, CMD_SET_DDRAM_ADDR, false);
        assert(final(ops)@ =~= old(ops)@ + custom_char_ops(location, char_map@, self@.backlight));
    }

    /// Defines custom character `location` (modulo 8) from eight rows.
    pub fn set_custom_char(&self, location: u8, char_map: &[u8; 8]) -> (r: Vec<LcdOp>)
        ensures
            r@ == custom_char_ops(location, char_map@, self@.backlight),
    {
        let mut ops: Vec<LcdOp> = Vec::new();
        self.emit_custom_char(&mut ops, location, char_map);
        assert(ops@ =~= custom_char_ops(location, char_map@, self@.backlight));
        ops
    }

    /// Shows a blinking cursor, or hides it.
    pub fn set_cursor_visible(&self, visible: bool) -> (r: Vec<LcdOp>)
        ensures
            r@ == byte_ops(
                if visible {
                    CMD_DISPLAY_CONTROL | DISPLAY_ON | CURSOR_ON | CURSOR_BLINK
                } else {
                    CMD_DISPLAY_CONTROL | DISPLAY_ON
                },
                false,
                self@.backlight,
            ),
    {
        if visible {
            self.write_cmd(CMD_DISPLAY_CONTROL | DISPLAY_ON | CURSOR_ON | CURSOR_BLINK)
        } else {
            self.write_cmd(CMD_DISPLAY_CONTROL | DISPLAY_ON)
        }
    }

    /// Switches the backlight; it takes effect with the next bus write.
    pub fn set_backlight(&mut self, on: bool)
        ensures
            final(self)@ == (LcdView { backlight: on, ..old(self)@ }),
    {
        self.backlight = on;
    }

    /// Redraws both rows from the buffer.
    pub fn refresh(&self) -> (r: Vec<LcdOp>)
        ensures
            r@ == byte_ops(CMD_SET_DDRAM_ADDR, false, self@.backlight) + data_seq_ops(
                self@.buf[0]@,
                self@.backlight,
            ) + byte_ops(CMD_SET_DDRAM_ADDR | 0x40, false, self@.backlight) + data_seq_ops(
                self@.buf[1]@,
                self@.backlight,
            ),
    {
        let mut ops: Vec<LcdOp> = Vec::new();
        self.emit_byte(&mut ops, CMD_SET_DDRAM_ADDR, false);
        let row0 = self.buf[0];
        self.emit_data_seq(&mut ops, row0.as_slice());
        self.emit_byte(&mut ops, CMD_SET_DDRAM_ADDR | 0x40, false);
        let row1 = self.buf[1];
        self.emit_data_seq(&mut ops, row1.as_slice());
        assert(ops@ =~= byte_ops(CMD_SET_DDRAM_ADDR, false, self@.backlight) + data_seq_ops(
            self@.buf[0]@,
            self@.backlight,
        ) + byte_ops(CMD_SET_DDRAM_ADDR | 0x40, false, self@.backlight) + data_seq_ops(
            self@.buf[1]@,
            self@.backlight,
        ));
        ops
    }

    /// Puts a character code in the buffer at column `x`, row `y`; outside
    /// the display nothing changes.
    pub fn buffer_write(&mut self, x: usize, y: usize, ch: u8)
        ensures
            final(self)@.addr == old(self)@.addr,
            final(self)@.backlight == old(self)@.backlight,
            x < 16 && y < 2 ==> final(self)@.buf[y as int]@ == old(self)@.buf[y as int]@.update(
                x as int,
                ch,
            ) && final(self)@.buf[1 - y as int] == old(self)@.buf[1 - y as int],
            !(x < 16 && y < 2) ==> final(self)@ == old(self)@,
    {
        if x < LCD_COLS as usize && y < LCD_ROWS as usize {
            let mut row = self.buf[y];
            row[x] = ch;
            self.buf[y] = row;
        }
    }

    /// The character code in the buffer at column `x`, row `y`; a blank
    /// outside the display.
    pub fn buffer_read(&self, x: usize, y: usize) -> (r: u8)
        ensures
            r == if x < 16 && y < 2 {
                self@.buf[y as int][x as int]
            } else {
                32u8
            },
    {
        if x < LCD_COLS as usize && y < LCD_ROWS as usize {
            self.buf[y][x]
        } else {
            32u8
        }
    }

    /// Blanks the buffer.
    pub fn buffer_clear(&mut self)
        ensures
            blanked(old(self)@, final(self)@),
    {
        self.buf = blank_rows();
    }

    fn emit_custom_chars(&self, ops: &mut Vec<LcdOp>)
        ensures
            final(ops)@ == old(ops)@ + custom_chars_ops(8, self@.backlight),
    {
        let chars: [[u8; 8]; 8] = [
            [0x02, 0x00, 0x0E, 0x11, 0x1F, 0x11, 0x11, 0x00],
            [0x02, 0x00, 0x0E, 0x11, 0x1F, 0x11, 0x11, 0x00],
            [0x02, 0x00, 0x0C, 0x04, 0x04, 0x04, 0x0E, 0x00],
            [0x02, 0x00, 0x0E, 0x11, 0x11, 0x11, 0x0E, 0x00],
            [0x0C, 0x04, 0x0E, 0x12, 0x1F, 0x12, 0x12, 0x00],
            [0x0C, 0x04, 0x1E, 0x10, 0x1C, 0x12, 0x1C, 0x00],
            [0x00, 0x00, 0x16, 0x19, 0x11, 0x15, 0x15, 0x00],
            [0x04, 0x00, 0x1E, 0x20, 0x1C, 0x22, 0x1C, 0x00],
        ];
        assert(forall|i: int| 0 <= i < 8 ==> #[trigger] chars[i]@ == custom_chars()[i]) by {
            assert(chars[0]@ =~= custom_chars()[0]);
            assert(chars[1]@ =~= custom_chars()[1]);
            assert(chars[2]@ =~= custom_chars()[2]);
            assert(chars[3]@ =~= custom_chars()[3]);
            assert(chars[4]@ =~= custom_chars()[4]);
            assert(chars[5]@ =~= custom_chars()[5]);
            assert(chars[6]@ =~= custom_chars()[6]);
            assert(chars[7]@ =~= custom_chars()[7]);
        }
        let mut i: usize = 0;
        while i < 8
            invariant
                i <= 8,
                forall|j: int| 0 <= j < 8 ==> #[trigger] chars[j]@ == custom_chars()[j],
                ops@ == old(ops)@ + custom_chars_ops(i as int, self@.backlight),
            decreases 8 - i,
        {
            let row = chars[i];
            self.emit_custom_char(ops, i as u8, &row);
            assert(ops@ =~= old(ops)@ + custom_chars_ops(i + 1, self@.backlight));
            i = i + 1;
        }
    }

    /// The power-up sequence (see `init_ops`).
    pub fn init(&self) -> (r: Vec<LcdOp>)
        ensures
            r@ == init_ops(self@.backlight),
    {
        let mut ops: Vec<LcdOp> = Vec::new();
        push_op(&mut ops, LcdOp::DelayMs(50));
        self.emit_nibble(&mut ops, 0x03, false);
        push_op(&mut ops, LcdOp::DelayMs(5));
        self.emit_nibble(&mut ops, 0x03, false);
        push_op(&mut ops, LcdOp::DelayUs(150));
        self.emit_nibble(&mut ops, 0x03, false);
        push_op(&mut ops, LcdOp::DelayUs(150));
        self.emit_nibble(&mut ops, 0x02, false);
        push_op(&mut ops, LcdOp::DelayUs(150));
        self.emit_byte(&mut ops, CMD_FUNCTION_4BIT_2LINES, false);
        self.emit_byte(&mut ops, CMD_DISPLAY_CONTROL | DISPLAY_ON, false);
        self.emit_byte(&mut ops, CMD_CLEAR_DISPLAY, false);
        push_op(&mut ops, LcdOp::DelayMs(CLEAR_DELAY_MS));
        self.emit_byte(&mut ops, CMD_ENTRY_MODE_SET | ENTRY_INCREMENT | ENTRY_SHIFT_OFF, false);
        self.emit_custom_chars(&mut ops);
        self.emit_byte(&mut ops, CMD_RETURN_HOME, false);
        push_op(&mut ops, LcdOp::DelayMs(HOME_DELAY_MS));
        assert(ops@ =~= init_ops(self@.backlight));
        ops
    }
}

/// Column where an aligned text of `len` bytes starts: 0 on the left,
/// centred (0 when it does not fit), right-aligned (0 when it does not
/// fit).
pub open spec fn aligned_column(align: Align, len: int) -> u8 {
    match align {
        Align::Left => 0,
        Align::Center => if len >= 16 {
            0
        } else {
            ((16 - len) / 2) as u8
        },
        Align::Right => if len >= 16 {
            0
        } else {
            (16 - len) as u8
        },
    }
}

/// The driver after a display command: `Clear` blanks the buffer,
/// `Backlight` sets the backlight, the others change nothing.
pub open spec fn command_effect(before: LcdView, after: LcdView, cmd: DisplayCommand) -> bool {
    match cmd {
        DisplayCommand::Clear => blanked(before, after),
        DisplayCommand::Backlight { on } => after == (LcdView { backlight: on, ..before }),
        _ => after == before,
    }
}

/// The bus operations of a display command.
pub open spec fn command_ops(lcd: LcdView, cmd: DisplayCommand) -> Seq<LcdOp> {
    let bl = lcd.backlight;
    match cmd {
        DisplayCommand::Clear => byte_ops(CMD_CLEAR_DISPLAY, false, bl) + seq![
            LcdOp::DelayMs(CLEAR_DELAY_MS),
        ],
        DisplayCommand::Text { x, y, text } => byte_ops(
            CMD_SET_DDRAM_ADDR | cursor_address(x, y),
            false,
            bl,
        ) + data_seq_ops(encode_utf8(text16(text)), bl),
        DisplayCommand::TextAligned { align, y, text } => byte_ops(
            CMD_SET_DDRAM_ADDR | cursor_address(aligned_column(align, byte_len(text40(text))), y),
            false,
            bl,
        ) + data_seq_ops(encode_utf8(text40(text)), bl),
        DisplayCommand::Cursor { visible } => byte_ops(
            if visible {
                CMD_DISPLAY_CONTROL | DISPLAY_ON | CURSOR_ON | CURSOR_BLINK
            } else {
                CMD_DISPLAY_CONTROL | DISPLAY_ON
            },
            false,
            bl,
        ),
        DisplayCommand::ScrollerUpdate => byte_ops(CMD_SET_DDRAM_ADDR, false, bl) + data_seq_ops(
            lcd.buf[0]@,
            bl,
        ) + byte_ops(CMD_SET_DDRAM_ADDR | 0x40, false, bl) + data_seq_ops(lcd.buf[1]@, bl),
        DisplayCommand::SetCustomChar { location, data } => custom_char_ops(location, data@, bl),
        DisplayCommand::Backlight { on } => seq![],
    }
}

/// Carries out a display command: the bus operations to perform, in order
/// (see `command_ops`).
pub fn process_display_command(lcd: &mut Hd44780I2c, cmd: DisplayCommand) -> (r: Vec<LcdOp>)
    ensures
        command_effect(old(lcd)@, final(lcd)@, cmd),
        r@ == command_ops(old(lcd)@, cmd),
{
    match cmd {
        DisplayCommand::Clear => lcd.clear(),
        DisplayCommand::Text { x, y, text } => {
            let t = text16_str(&text);
            let mut ops = lcd.set_cursor(x, y);
            let mut p = lcd.print(t);
            ops.append(&mut p);
            ops
        },
        DisplayCommand::TextAligned { align, y, text } => {
            let t = text40_str(&text);
            let len = t.as_bytes().len();
            let x: u8 = match align {
                Align::Left => 0,
                Align::Center => {
                    if len >= 16 {
                        0
                    } else {
                        ((16 - len) / 2) as u8
                    }
                },
                Align::Right => {
                    if len >= 16 {
                        0
                    } else {
                        (16 - len) as u8
                    }
                },
            };
            let mut ops = lcd.set_cursor(x, y);
            let mut p = lcd.print(t);
            ops.append(&mut p);
            ops
        },
        DisplayCommand::Cursor { visible } => lcd.set_cursor_visible(visible),
        DisplayCommand::ScrollerUpdate => lcd.refresh(),
        DisplayCommand::SetCustomChar { location, data } => lcd.set_custom_char(location, &data),
        DisplayCommand::Backlight { on } => {
            lcd.set_backlight(on);
            Vec::new()
        },
    }
}

/// Each byte goes on the bus as its high nibble then its low nibble on
/// D4..D7, each nibble strobed by EN high then EN low, with RS telling data
/// from commands and the backlight bit kept: the data lines of the four
/// writes give the byte back.
pub proof fn lemma_byte_on_the_bus(b: u8, rs: bool, bl: bool)
    ensures
        ({
            let ops = byte_ops(b, rs, bl);
            &&& ops.len() == 9
            &&& ops[0] matches LcdOp::Write(w0) && ops[2] matches LcdOp::Write(w1) && ops[4] matches LcdOp::Write(
                w2,
            ) && ops[6] matches LcdOp::Write(w3) && {
                &&& ((w0 >> 4u8) << 4u8) | (w2 >> 4u8) == b
                &&& w0 >> 4u8 == w1 >> 4u8 && w2 >> 4u8 == w3 >> 4u8
                &&& w0 & EN_BIT != 0 && w1 & EN_BIT == 0 && w2 & EN_BIT != 0 && w3 & EN_BIT == 0
                &&& (w0 & RS_BIT != 0) == rs && (w1 & RS_BIT != 0) == rs
                &&& (w2 & RS_BIT != 0) == rs && (w3 & RS_BIT != 0) == rs
                &&& (w0 & BL_BIT != 0) == bl && (w2 & BL_BIT != 0) == bl
                &&& w0 & RW_BIT == 0 && w2 & RW_BIT == 0
            }
        }),
{
    let r: u8 = if rs {
        1
    } else {
        0
    };
    let l: u8 = if bl {
        8
    } else {
        0
    };
    let hi = b >> 4u8;
    let lo = b & 0x0F;
    let w0 = ((hi & 0x0F) << 4u8) | r | l | 4u8;
    let w1 = ((hi & 0x0F) << 4u8) | r | l | 0u8;
    let w2 = ((lo & 0x0F) << 4u8) | r | l | 4u8;
    let w3 = ((lo & 0x0F) << 4u8) | r | l | 0u8;
    assert(((w0 >> 4u8) << 4u8) | (w2 >> 4u8) == b && w0 >> 4u8 == w1 >> 4u8 && w2 >> 4u8 == w3
        >> 4u8 && w0 & 4 != 0 && w1 & 4 == 0 && w2 & 4 != 0 && w3 & 4 == 0 && (w0 & 1 != 0) == (r
        == 1) && (w1 & 1 != 0) == (r == 1) && (w2 & 1 != 0) == (r == 1) && (w3 & 1 != 0) == (r
        == 1) && (w0 & 8 != 0) == (l == 8) && (w2 & 8 != 0) == (l == 8) && w0 & 2 == 0 && w2 & 2
        == 0) by (bit_vector)
        requires
            hi == b >> 4u8,
            lo == b & 0x0F,
            r == 0 || r == 1,
            l == 0 || l == 8,
            w0 == ((hi & 0x0F) << 4u8) | r | l | 4u8,
            w1 == ((hi & 0x0F) << 4u8) | r | l | 0u8,
            w2 == ((lo & 0x0F) << 4u8) | r | l | 4u8,
            w3 == ((lo & 0x0F) << 4u8) | r | l | 0u8,
    ;
}

/// What is written to the buffer is read back; the other cells keep their
/// contents.
pub proof fn lemma_buffer_read_after_write(
    before: LcdView,
    after: LcdView,
    x: int,
    y: int,
    ch: u8,
    x2: int,
    y2: int,
)
    requires
        0 <= x < 16 && 0 <= y < 2,
        0 <= x2 < 16 && 0 <= y2 < 2,
        after.buf[y]@ == before.buf[y]@.update(x, ch),
        after.buf[1 - y] == before.buf[1 - y],
    ensures
        after.buf[y][x] == ch,
        (x2 != x || y2 != y) ==> after.buf[y2][x2] == before.buf[y2][x2],
{
    assert(after.buf[y]@[x] == ch);
    if y2 == y && x2 != x {
        assert(after.buf[y]@[x2] == before.buf[y]@[x2]);
    }
}

} // verus!
