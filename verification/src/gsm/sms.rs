//! SMS commands of the SIM800L.
//!
//! Sending an SMS: `AT+CMGS="<number>"`, wait for the `>` prompt, then the
//! text followed by Ctrl+Z (0x1A). Commands are built in small fixed
//! buffers: a piece of a command that does not fit its buffer ends the
//! command there.

use vstd::prelude::*;
use vstd::utf8::{encode_utf8, is_ascii_chars};

use crate::error::GsmError;
use crate::gsm::at_channel::CmuxAtChannel;
use crate::gsm::cmux::{encode_cmux_frame, encode_spec, UIH};
use crate::menu::byte_len;
use crate::fixed::{bytes300, text16, text16_of, text32, text32_of, text32_str};
use crate::text::{
    dec_chars, lemma_ascii_bytes, lemma_ascii_concat, lemma_byte_dec_len, lemma_dec_chars_ascii,
    lemma_encode_utf8_concat, push_dec, push_str,
};

verus! {

/// Incoming SMS marker.
pub const URC_SMS: &'static str = "+CMT:";
/// Modem ready notice.
pub const URC_CALL_READY: &'static str = "Call Ready";
/// Power-down notice.
pub const URC_POWER_DOWN: &'static str = "NORMAL POWER DOWN";
/// Under-voltage notice.
pub const URC_UNDER_VOLTAGE: &'static str = "UNDER-VOLTAGE";
/// Over-voltage notice.
pub const URC_OVER_VOLTAGE: &'static str = "OVER-VOLTAGE";

/// Decimal text of a byte.
pub open spec fn num(v: u8) -> Seq<char> {
    dec_chars(v as nat)
}

/// A byte's decimal text is ASCII, at most three characters.
proof fn lemma_num_ascii(v: u8)
    ensures
        is_ascii_chars(num(v)),
        num(v).len() <= 3,
{
    lemma_dec_chars_ascii(v as nat);
    lemma_byte_dec_len(v);
}

/// An eight-character ASCII head, a byte in decimal and a carriage return
/// take at most 12 bytes.
proof fn lemma_index_command_fits(head: &str, v: u8)
    requires
        head@.len() == 8,
        is_ascii_chars(head@),
    ensures
        is_ascii_chars(head@ + num(v) + "\r"@),
        encode_utf8(head@ + num(v) + "\r"@).len() <= 12,
{
    reveal_strlit("\r");
    lemma_num_ascii(v);
    lemma_ascii_concat(head@, num(v));
    lemma_ascii_concat(head@ + num(v), "\r"@);
    lemma_ascii_bytes(head@ + num(v) + "\r"@);
}

/// `AT+CMGF=<mode>` and carriage return.
pub open spec fn cmgf_text(mode: u8) -> Seq<char> {
    "AT+CMGF="@ + num(mode) + "\r"@
}

/// SMS format command.
pub fn cmd_cmgf(mode: u8) -> (r: heapless::String<16>)
    ensures
        text16(r) == cmgf_text(mode),
{
    let mut s = String::new();
    push_str(&mut s, "AT+CMGF=");
    push_dec(&mut s, mode as u64);
    push_str(&mut s, "\r");
    assert(s@ =~= cmgf_text(mode));
    proof {
        reveal_strlit("AT+CMGF=");
        lemma_index_command_fits("AT+CMGF=", mode);
    }
    text16_of(s.as_str())
}

/// `AT+CNMI=<mode>,<mt>,<bm>,<ds>,<bfr>` and carriage return.
pub open spec fn cnmi_text(mode: u8, mt: u8, bm: u8, ds: u8, bfr: u8) -> Seq<char> {
    "AT+CNMI="@ + num(mode) + ","@ + num(mt) + ","@ + num(bm) + ","@ + num(ds) + ","@ + num(bfr)
        + "\r"@
}

/// New-message indication command.
pub fn cmd_cnmi(mode: u8, mt: u8, bm: u8, ds: u8, bfr: u8) -> (r: heapless::String<32>)
    ensures
        text32(r) == cnmi_text(mode, mt, bm, ds, bfr),
{
    let mut s = String::new();
    push_str(&mut s, "AT+CNMI=");
    push_dec(&mut s, mode as u64);
    push_str(&mut s, ",");
    push_dec(&mut s, mt as u64);
    push_str(&mut s, ",");
    push_dec(&mut s, bm as u64);
    push_str(&mut s, ",");
    push_dec(&mut s, ds as u64);
    push_str(&mut s, ",");
    push_dec(&mut s, bfr as u64);
    push_str(&mut s, "\r");
    assert(s@ =~= cnmi_text(mode, mt, bm, ds, bfr));
    proof {
        reveal_strlit("AT+CNMI=");
        reveal_strlit(",");
        reveal_strlit("\r");
        let c = ","@;
        lemma_num_ascii(mode);
        lemma_num_ascii(mt);
        lemma_num_ascii(bm);
        lemma_num_ascii(ds);
        lemma_num_ascii(bfr);
        let t1 = "AT+CNMI="@ + num(mode);
        lemma_ascii_concat("AT+CNMI="@, num(mode));
        lemma_ascii_concat(t1, c);
        lemma_ascii_concat(t1 + c, num(mt));
        let t2 = t1 + c + num(mt);
        lemma_ascii_concat(t2, c);
        lemma_ascii_concat(t2 + c, num(bm));
        let t3 = t2 + c + num(bm);
        lemma_ascii_concat(t3, c);
        lemma_ascii_concat(t3 + c, num(ds));
        let t4 = t3 + c + num(ds);
        lemma_ascii_concat(t4, c);
        lemma_ascii_concat(t4 + c, num(bfr));
        lemma_ascii_concat(t4 + c + num(bfr), "\r"@);
        lemma_ascii_bytes(cnmi_text(mode, mt, bm, ds, bfr));
    }
    text32_of(s.as_str())
}

/// `AT+CSMP=<fo>,<vp>,<pid>,<dcs>` and carriage return.
pub open spec fn csmp_text(fo: u8, vp: u8, pid: u8, dcs: u8) -> Seq<char> {
    "AT+CSMP="@ + num(fo) + ","@ + num(vp) + ","@ + num(pid) + ","@ + num(dcs) + "\r"@
}

/// SMS parameters command.
pub fn cmd_csmp(fo: u8, vp: u8, pid: u8, dcs: u8) -> (r: heapless::String<32>)
    ensures
        text32(r) == csmp_text(fo, vp, pid, dcs),
{
    let mut s = String::new();
    push_str(&mut s, "AT+CSMP=");
    push_dec(&mut s, fo as u64);
    push_str(&mut s, ",");
    push_dec(&mut s, vp as u64);
    push_str(&mut s, ",");
    push_dec(&mut s, pid as u64);
    push_str(&mut s, ",");
    push_dec(&mut s, dcs as u64);
    push_str(&mut s, "\r");
    assert(s@ =~= csmp_text(fo, vp, pid, dcs));
    proof {
        reveal_strlit("AT+CSMP=");
        reveal_strlit(",");
        reveal_strlit("\r");
        let c = ","@;
        lemma_num_ascii(fo);
        lemma_num_ascii(vp);
        lemma_num_ascii(pid);
        lemma_num_ascii(dcs);
        let t1 = "AT+CSMP="@ + num(fo);
        lemma_ascii_concat("AT+CSMP="@, num(fo));
        lemma_ascii_concat(t1, c);
        lemma_ascii_concat(t1 + c, num(vp));
        let t2 = t1 + c + num(vp);
        lemma_ascii_concat(t2, c);
        lemma_ascii_concat(t2 + c, num(pid));
        let t3 = t2 + c + num(pid);
        lemma_ascii_concat(t3, c);
        lemma_ascii_concat(t3 + c, num(dcs));
        lemma_ascii_concat(t3 + c + num(dcs), "\r"@);
        lemma_ascii_bytes(csmp_text(fo, vp, pid, dcs));
    }
    text32_of(s.as_str())
}

/// `AT+CMGS="` with the number, the closing quote and carriage return, as
/// far as they fit `cap` bytes: the number needs `cap - 9` bytes at most,
/// the closing part two more.
pub open spec fn cmgs_text(number: Seq<char>, cap: int) -> Seq<char> {
    let n = byte_len(number);
    if 9 + n <= cap {
        if 9 + n + 2 <= cap {
            "AT+CMGS=\""@ + number + "\"\r"@
        } else {
            "AT+CMGS=\""@ + number
        }
    } else {
        "AT+CMGS=\""@
    }
}

/// The send command in a buffer of `cap` bytes takes at most `cap` bytes.
proof fn lemma_cmgs_fits(number: Seq<char>, cap: int)
    requires
        cap >= 9,
    ensures
        byte_len(cmgs_text(number, cap)) <= cap,
{
    reveal_strlit("AT+CMGS=\"");
    reveal_strlit("\"\r");
    lemma_ascii_bytes("AT+CMGS=\""@);
    lemma_ascii_bytes("\"\r"@);
    lemma_encode_utf8_concat("AT+CMGS=\""@, number);
    lemma_encode_utf8_concat("AT+CMGS=\""@ + number, "\"\r"@);
}

/// `AT+CMGS="<number>"` in a command of at most `cap` bytes (see
/// `cmgs_text`).
pub fn cmgs_in(number: &str, cap: usize) -> (r: String)
    requires
        cap <= 1000,
    ensures
        r@ == cmgs_text(number@, cap as int),
{
    let mut s = String::new();
    push_str(&mut s, "AT+CMGS=\"");
    let n = number.as_bytes().len();
    if n <= cap && 9 <= cap - n {
        push_str(&mut s, number);
        if 11 <= cap - n {
            push_str(&mut s, "\"\r");
        }
    }
    assert(s@ =~= cmgs_text(number@, cap as int));
    s
}

/// Send-SMS command in a 32-byte buffer.
pub fn cmd_cmgs(number: &str) -> (r: heapless::String<32>)
    ensures
        text32(r) == cmgs_text(number@, 32),
{
    let s = cmgs_in(number, 32);
    proof {
        lemma_cmgs_fits(number@, 32);
    }
    text32_of(s.as_str())
}

/// `AT+CMGR=<index>` and carriage return.
pub open spec fn cmgr_text(index: u8) -> Seq<char> {
    "AT+CMGR="@ + num(index) + "\r"@
}

/// Read-SMS command.
pub fn cmd_cmgr(index: u8) -> (r: heapless::String<16>)
    ensures
        text16(r) == cmgr_text(index),
{
    let mut s = String::new();
    push_str(&mut s, "AT+CMGR=");
    push_dec(&mut s, index as u64);
    push_str(&mut s, "\r");
    assert(s@ =~= cmgr_text(index));
    proof {
        reveal_strlit("AT+CMGR=");
        lemma_index_command_fits("AT+CMGR=", index);
    }
    text16_of(s.as_str())
}

/// `AT+CMGD=<index>` and carriage return.
pub open spec fn cmgd_text(index: u8) -> Seq<char> {
    "AT+CMGD="@ + num(index) + "\r"@
}

/// Delete-SMS command.
pub fn cmd_cmgd(index: u8) -> (r: heapless::String<16>)
    ensures
        text16(r) == cmgd_text(index),
{
    let mut s = String::new();
    push_str(&mut s, "AT+CMGD=");
    push_dec(&mut s, index as u64);
    push_str(&mut s, "\r");
    assert(s@ =~= cmgd_text(index));
    proof {
        reveal_strlit("AT+CMGD=");
        lemma_index_command_fits("AT+CMGD=", index);
    }
    text16_of(s.as_str())
}

/// Echo off.
pub fn cmd_echo_off() -> (r: &'static str)
    ensures
        r@ == "ATE0\r"@,
{
    "ATE0\r"
}

/// Clock query.
pub fn cmd_cclk() -> (r: &'static str)
    ensures
        r@ == "AT+CCLK?\r"@,
{
    "AT+CCLK?\r"
}

/// Multiplexer on (basic mode, 128-byte frames).
pub fn cmd_cmux() -> (r: &'static str)
    ensures
        r@ == "AT+CMUX=0,1,5,128,10,3,30,10,2\r"@,
{
    "AT+CMUX=0,1,5,128,10,3,30,10,2\r"
}

/// Soft power down.
pub fn cmd_power_down() -> (r: &'static str)
    ensures
        r@ == "AT+CPOWD=1\r"@,
{
    "AT+CPOWD=1\r"
}

/// Packet data dial.
pub fn cmd_dial_ppp() -> (r: &'static str)
    ensures
        r@ == "ATD*99***1#\r"@,
{
    "ATD*99***1#\r"
}

/// The two frames of an SMS on `channel`: the send command (32-byte
/// buffer), always, then the text and Ctrl+Z. The application writes the
/// first, waits 500 ms for the prompt, then writes the second. A text of
/// more than 199 bytes does not fit the 200-byte buffer with its Ctrl+Z:
/// there is no second frame and the send fails.
pub fn send_sms_text(channel: &CmuxAtChannel, number: &str, text: &str) -> (r: (
    heapless::Vec<u8, 300>,
    Result<heapless::Vec<u8, 300>, GsmError>,
))
    ensures
        bytes300(r.0) == encode_spec(channel.channel_dlci(), UIH, encode_utf8(cmgs_text(number@, 32))),
        encode_utf8(text@).len() >= 200 ==> r.1 is Err && r.1->Err_0 == GsmError::UartError,
        encode_utf8(text@).len() < 200 ==> r.1 is Ok && bytes300(r.1->Ok_0) == encode_spec(
            channel.channel_dlci(),
            UIH,
            encode_utf8(text@).push(0x1Au8),
        ),
{
    let cmd = cmd_cmgs(number);
    let first = channel.encode_at_cmd(text32_str(&cmd));
    let tb = text.as_bytes();
    if tb.len() >= 200 {
        return (first, Err(GsmError::UartError));
    }
    let mut msg: Vec<u8> = Vec::new();
    let mut k: usize = 0;
    while k < tb.len()
        invariant
            k <= tb@.len(),
            msg@ == tb@.take(k as int),
        decreases tb@.len() - k,
    {
        msg.push(tb[k]);
        assert(msg@ =~= tb@.take(k + 1));
        k = k + 1;
    }
    assert(tb@.take(tb@.len() as int) =~= tb@);
    msg.push(0x1A);
    let second = encode_cmux_frame(channel.dlci_value(), UIH, msg.as_slice());
    (first, Ok(second))
}

} // verus!
