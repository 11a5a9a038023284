//! AT commands to the SIM800L over multiplexer channel 1.
//!
//! Replies arrive as bytes and are collected in a 512-byte buffer. A reply
//! is complete once it holds `OK`, `ERROR` (with `+CME ERROR:` or
//! `+CMS ERROR:` and a code) or the SMS prompt `>`. Unsolicited result
//! codes (incoming SMS, packet data events, power and voltage notices, SMS
//! sent) are recognised in the same buffer.

use vstd::prelude::*;
use vstd::slice::slice_subrange;
use vstd::std_specs::iter::IteratorSpec;
use vstd::utf8::encode_utf8;

use crate::fixed::{
    bytes300, bytes512, bytes512_clear, bytes512_new, bytes512_push, bytes512_slice, fitted, frame_pair, frame_pair_new, frame_pair_push, text160, text160_of, text20, text20_of,
    text40, text40_of,
};
use crate::gsm::cmux::{encode_cmux_frame, encode_spec, UIH};
use crate::menu::byte_len;
use crate::text::{
    push_str, str_from_utf8, trim, trim_spec, trim_start, trim_start_spec, utf8_text,
};

verus! {

broadcast use vstd::string::next_postcondition, vstd::string::axiom_spec_iter;

/// Bytes the receive buffer holds.
pub const RX_CAPACITY: usize = 512;

/// Result of an AT command.
#[derive(Debug, Clone, Copy, PartialEq, Eq, Structural)]
pub enum AtResponse {
    Okay,
    Error,
    Data,
    /// `>`: the modem waits for the SMS text.
    Prompt,
    Timeout,
    CmeError(u16),
    CmsError(u16),
}

/// An unsolicited result code.
#[derive(Debug, Clone)]
pub enum Urc {
    /// `+CMT:` an SMS arrived.
    IncomingSms { sender: heapless::String<20>, text: heapless::String<160> },
    /// `+CGEV:` a packet data event (the trimmed line).
    GprsEvent(heapless::String<40>),
    /// The modem is ready.
    CallReady,
    /// The modem powers down.
    PowerDown,
    /// Supply voltage warning.
    VoltageWarning,
    /// `+CMGS:` an SMS was sent, with its reference.
    SmsSent(u16),
    /// Anything else.
    Unknown(heapless::String<80>),
}

/// Plain view of an unsolicited result code.
pub enum UrcView {
    IncomingSms { sender: Seq<char>, text: Seq<char> },
    GprsEvent(Seq<char>),
    CallReady,
    PowerDown,
    VoltageWarning,
    SmsSent(u16),
    Unknown,
}

/// The plain view of an unsolicited result code.
pub open spec fn urc_view(u: Urc) -> UrcView {
    match u {
        Urc::IncomingSms { sender, text } => UrcView::IncomingSms {
            sender: text20(sender),
            text: text160(text),
        },
        Urc::GprsEvent(s) => UrcView::GprsEvent(text40(s)),
        Urc::CallReady => UrcView::CallReady,
        Urc::PowerDown => UrcView::PowerDown,
        Urc::VoltageWarning => UrcView::VoltageWarning,
        Urc::SmsSent(n) => UrcView::SmsSent(n),
        Urc::Unknown(_) => UrcView::Unknown,
    }
}

// ── Byte search ───────────────────────────────────────────────────────────

/// `pat` occurs in `hay` at position `i`.
pub open spec fn occurs_at(hay: Seq<u8>, pat: Seq<u8>, i: int) -> bool {
    0 <= i && i + pat.len() <= hay.len() && hay.subrange(i, i + pat.len()) == pat
}

/// `pat` occurs somewhere in `hay`.
pub open spec fn occurs(hay: Seq<u8>, pat: Seq<u8>) -> bool {
    exists|i: int| occurs_at(hay, pat, i)
}

/// Position of the first occurrence of `pat` in `hay`, if any.
pub fn find_bytes(hay: &[u8], pat: &[u8]) -> (r: Option<usize>)
    ensures
        match r {
            Some(i) => occurs_at(hay@, pat@, i as int) && forall|j: int|
                0 <= j < i ==> !occurs_at(hay@, pat@, j),
            None => !occurs(hay@, pat@),
        },
{
    let n = hay.len();
    let m = pat.len();
    if m > n {
        return None;
    }
    let mut i: usize = 0;
    while i <= n - m
        invariant
            n == hay@.len(),
            m == pat@.len(),
            m <= n,
            i <= n - m + 1,
            forall|j: int| 0 <= j < i ==> !occurs_at(hay@, pat@, j),
        decreases n - m + 1 - i,
    {
        let mut k: usize = 0;
        let mut same = true;
        while k < m
            invariant
                k <= m,
                i + m <= n,
                n == hay@.len(),
                m == pat@.len(),
                same == (forall|t: int| 0 <= t < k ==> hay@[i + t] == pat@[t]),
            decreases m - k,
        {
            if hay[i + k] != pat[k] {
                same = false;
            }
            k = k + 1;
        }
        if same {
            assert(hay@.subrange(i as int, i + m) =~= pat@);
            return Some(i);
        }
        assert(!occurs_at(hay@, pat@, i as int)) by {
            if occurs_at(hay@, pat@, i as int) {
                assert forall|t: int| 0 <= t < m implies hay@[i + t] == pat@[t] by {
                    assert(hay@.subrange(i as int, i + m)[t] == hay@[i + t]);
                }
            }
        }
        i = i + 1;
    }
    None
}

/// `+CME ERROR:`
pub open spec fn cme_pat() -> Seq<u8> {
    seq![43u8, 67, 77, 69, 32, 69, 82, 82, 79, 82, 58]
}

/// `+CMS ERROR:`
pub open spec fn cms_pat() -> Seq<u8> {
    seq![43u8, 67, 77, 83, 32, 69, 82, 82, 79, 82, 58]
}

/// `OK`
pub open spec fn ok_pat() -> Seq<u8> {
    seq![79u8, 75]
}

/// `ERROR`
pub open spec fn error_pat() -> Seq<u8> {
    seq![69u8, 82, 82, 79, 82]
}

/// `>`
pub open spec fn prompt_pat() -> Seq<u8> {
    seq![62u8]
}

// ── Numbers in replies ────────────────────────────────────────────────────

/// Number of ASCII digits at the start of `s`.
pub open spec fn digit_run(s: Seq<char>) -> nat
    decreases s.len(),
{
    if s.len() > 0 && '0' <= s[0] <= '9' {
        1 + digit_run(s.drop_first())
    } else {
        0
    }
}

/// Decimal value of the first `n` characters of `s` (digits).
pub open spec fn digits_value(s: Seq<char>, n: int) -> nat
    decreases n,
{
    if n <= 0 {
        0
    } else {
        digits_value(s, n - 1) * 10 + ((s[n - 1] as u32) - 48) as nat
    }
}

/// The code after an error marker: the leading white space is skipped and
/// the digits that follow are read as a 16-bit number; no digits, or a
/// number past 65535, give 0.
pub open spec fn error_code_of(s: Seq<char>) -> u16 {
    let t = trim_start_spec(s);
    let n = digit_run(t);
    if n == 0 || digits_value(t, n as int) > 65535 {
        0
    } else {
        digits_value(t, n as int) as u16
    }
}

proof fn lemma_digit_run_step(s: Seq<char>, k: int)
    requires
        0 <= k <= digit_run(s),
    ensures
        digit_run(s) <= s.len(),
        k < digit_run(s) ==> k < s.len() && '0' <= s[k] <= '9',
        k == digit_run(s) ==> k == s.len() || !('0' <= s[k] <= '9'),
    decreases s.len(),
{
    if k > 0 {
        lemma_digit_run_step(s.drop_first(), k - 1);
        if k < s.len() {
            assert(s.drop_first()[k - 1] == s[k]);
        }
    } else if digit_run(s) > 0 {
        lemma_digit_run_step(s.drop_first(), 0);
    }
}

/// The code after an error marker (see `error_code_of`).
pub fn parse_error_code(s: &str) -> (r: u16)
    ensures
        r == error_code_of(s@),
{
    let t = trim_start(s);
    let mut it = t.chars();
    let ghost run = digit_run(t@);
    proof {
        lemma_digit_run_step(t@, 0);
    }
    let ghost mut n: int = 0;
    let mut any_digit = false;
    let mut value: u32 = 0;
    let mut overflow = false;
    loop
        invariant_except_break
            it.remaining() == t@.skip(n),
        invariant
            0 <= n <= run,
            any_digit == (n > 0),
            run == digit_run(t@),
            run <= t@.len(),
            it.obeys_prophetic_iter_laws(),
            !overflow ==> value == digits_value(t@, n) && value <= 65535,
            overflow ==> digits_value(t@, n) > 65535,
        ensures
            n == run,
        decreases t@.len() - n,
    {
        proof {
            lemma_digit_run_step(t@, n);
        }
        let c = it.next();
        match c {
            Some(ch) => {
                assert(ch == t@[n]);
                if '0' <= ch && ch <= '9' {
                    let d = (ch as u32) - 48;
                    if !overflow {
                        value = value * 10 + d;
                        if value > 65535 {
                            overflow = true;
                        }
                    } else {
                        assert(digits_value(t@, n + 1) >= digits_value(t@, n) * 10);
                    }
                    assert(t@.skip(n).drop_first() =~= t@.skip(n + 1));
                    any_digit = true;
                    proof {
                        n = n + 1;
                    }
                } else {
                    break;
                }
            },
            None => {
                break;
            },
        }
    }
    if !any_digit || overflow {
        0
    } else {
        value as u16
    }
}

/// The number after the first `:` of `s` (as `parse_error_code`), 0 when
/// there is no `:`.
pub open spec fn number_after_colon(s: Seq<u8>) -> u32 {
    match first_byte(s, 58) {
        Some(p) => error_code_of(utf8_text(s.skip(p + 1))) as u32,
        None => 0,
    }
}

/// Position of the first byte `b` in `s`, if any.
pub open spec fn first_byte(s: Seq<u8>, b: u8) -> Option<int> {
    if exists|i: int| 0 <= i < s.len() && s[i] == b {
        Some(choose|i: int| 0 <= i < s.len() && s[i] == b && forall|j: int| 0 <= j < i ==> s[j] != b)
    } else {
        None
    }
}

fn find_byte(s: &[u8], b: u8) -> (r: Option<usize>)
    ensures
        match r {
            Some(i) => first_byte(s@, b) == Some(i as int) && i < s@.len() && s@[i as int] == b
                && forall|j: int| 0 <= j < i ==> s@[j] != b,
            None => first_byte(s@, b) is None,
        },
{
    let mut i: usize = 0;
    while i < s.len()
        invariant
            i <= s@.len(),
            forall|j: int| 0 <= j < i ==> s@[j] != b,
        decreases s@.len() - i,
    {
        if s[i] == b {
            proof {
                let w = choose|k: int| 0 <= k < s@.len() && s@[k] == b && forall|j: int|
                    0 <= j < k ==> s@[j] != b;
                assert(0 <= i < s@.len() && s@[i as int] == b && forall|j: int|
                    0 <= j < i ==> s@[j] != b);
                if w < i {
                } else if w > i {
                }
            }
            return Some(i);
        }
        i = i + 1;
    }
    None
}

fn code_after(bytes: &[u8], start: usize) -> (r: u16)
    requires
        start <= bytes@.len(),
    ensures
        r == error_code_of(utf8_text(bytes@.skip(start as int))),
{
    let rest = slice_subrange(bytes, start, bytes.len());
    assert(rest@ =~= bytes@.skip(start as int));
    match str_from_utf8(rest) {
        Some(t) => {
            proof {
                vstd::utf8::encode_utf8_decode_utf8(t@);
            }
            parse_error_code(t)
        },
        None => {
            assert(utf8_text(rest@) =~= Seq::<char>::empty());
            assert(error_code_of(Seq::<char>::empty()) == 0) by {
                assert(trim_start_spec(Seq::<char>::empty()) =~= Seq::<char>::empty());
            }
            0
        },
    }
}

/// The number after the first `:` of the text (see `number_after_colon`).
pub fn parse_number_after_colon(s: &[u8]) -> (r: u32)
    ensures
        r == number_after_colon(s@),
{
    let len = s.len();
    match find_byte(s, 58) {
        Some(pos) => code_after(s, pos + 1) as u32,
        None => 0,
    }
}

/// Text between the first two double quotes of `s` at or after `start`
/// (bytes, not decoded), if there are two.
pub open spec fn quoted(s: Seq<u8>, start: int) -> Option<Seq<u8>> {
    let t = s.skip(start);
    match first_byte(t, 34) {
        Some(f) => match first_byte(t.skip(f + 1), 34) {
            Some(g) => Some(t.subrange(f + 1, f + 1 + g)),
            None => None,
        },
        None => None,
    }
}

/// `t` when its UTF-8 takes at most `cap` bytes, otherwise empty.
pub open spec fn capped(t: Seq<char>, cap: int) -> Seq<char> {
    if byte_len(t) <= cap {
        t
    } else {
        Seq::empty()
    }
}

/// A capped text fits its capacity.
proof fn lemma_capped_fits(t: Seq<char>, cap: int)
    requires
        cap >= 0,
    ensures
        fitted(capped(t, cap), cap) == capped(t, cap),
{
    assert(encode_utf8(Seq::<char>::empty()) =~= Seq::<u8>::empty());
}

fn capped_string(bytes: &[u8], cap: usize) -> (r: String)
    ensures
        r@ == capped(utf8_text(bytes@), cap as int),
{
    let mut r = String::new();
    match str_from_utf8(bytes) {
        Some(t) => {
            proof {
                vstd::utf8::encode_utf8_decode_utf8(t@);
            }
            if t.as_bytes().len() <= cap {
                push_str(&mut r, t);
                assert(r@ =~= t@);
            }
        },
        None => {},
    }
    r
}

/// The text between the first two double quotes at or after `start`, kept
/// when it takes at most 20 bytes (otherwise empty); none without two
/// quotes.
pub fn extract_between_quotes(s: &[u8], start: usize) -> (r: Option<heapless::String<20>>)
    requires
        start <= s@.len(),
    ensures
        match quoted(s@, start as int) {
            Some(inner) => r is Some && text20(r->0) == capped(utf8_text(inner), 20),
            None => r is None,
        },
{
    let t = slice_subrange(s, start, s.len());
    assert(t@ =~= s@.skip(start as int));
    match find_byte(t, 34) {
        Some(f) => {
            let after = slice_subrange(t, f + 1, t.len());
            assert(after@ =~= t@.skip(f + 1));
            match find_byte(after, 34) {
                Some(g) => {
                    let inner = slice_subrange(t, f + 1, f + 1 + g);
                    let text = capped_string(inner, 20);
                    proof {
                        lemma_capped_fits(utf8_text(inner@), 20);
                    }
                    Some(text20_of(text.as_str()))
                },
                None => None,
            }
        },
        None => None,
    }
}

/// `s` without its trailing carriage returns.
pub open spec fn strip_cr(s: Seq<u8>) -> Seq<u8>
    decreases s.len(),
{
    if s.len() > 0 && s.last() == 13 {
        strip_cr(s.drop_last())
    } else {
        s
    }
}

// ── The channel ───────────────────────────────────────────────────────────

/// AT channel over one multiplexer channel, with its receive buffer.
pub struct CmuxAtChannel {
    /// Multiplexer channel of the AT commands (usually 1).
    pub dlci: u8,
    rx_buffer: heapless::Vec<u8, 512>,
}

/// The receive buffer after `data` arrives: bytes are kept while the
/// buffer has room, later ones are dropped.
pub open spec fn feed_spec(buf: Seq<u8>, data: Seq<u8>) -> Seq<u8> {
    if buf.len() >= RX_CAPACITY {
        buf
    } else if buf.len() + data.len() <= RX_CAPACITY {
        buf + data
    } else {
        buf + data.take(RX_CAPACITY - buf.len())
    }
}

/// The reply a buffer holds, if complete (see `CmuxAtChannel::parse_response`).
pub open spec fn response_of(b: Seq<u8>) -> Option<AtResponse> {
    if !vstd::utf8::valid_utf8(b) {
        None
    } else if occurs(b, ok_pat()) {
        Some(AtResponse::Okay)
    } else if occurs(b, error_pat()) {
        if occurs(b, cme_pat()) {
            let p = choose|i: int| occurs_at(b, cme_pat(), i) && forall|j: int|
                0 <= j < i ==> !occurs_at(b, cme_pat(), j);
            Some(AtResponse::CmeError(error_code_of(utf8_text(b.skip(p + 11)))))
        } else if occurs(b, cms_pat()) {
            let p = choose|i: int| occurs_at(b, cms_pat(), i) && forall|j: int|
                0 <= j < i ==> !occurs_at(b, cms_pat(), j);
            Some(AtResponse::CmsError(error_code_of(utf8_text(b.skip(p + 11)))))
        } else {
            Some(AtResponse::Error)
        }
    } else if occurs(b, prompt_pat()) {
        Some(AtResponse::Prompt)
    } else {
        None
    }
}

/// The bytes of the text `t`.
pub open spec fn pat(t: &str) -> Seq<u8> {
    encode_utf8(t@)
}

/// The unsolicited result code a buffer holds, if any (see
/// `CmuxAtChannel::parse_urc`).
pub open spec fn urc_of(b: Seq<u8>) -> Option<UrcView> {
    if !vstd::utf8::valid_utf8(b) {
        None
    } else if occurs(b, pat("+CMT:")) {
        Some(
            UrcView::IncomingSms {
                sender: match quoted(b, 0) {
                    Some(inner) => capped(utf8_text(inner), 20),
                    None => Seq::empty(),
                },
                text: match first_byte(b, 10) {
                    Some(p) => capped(utf8_text(strip_cr(b.skip(p + 1))), 160),
                    None => Seq::empty(),
                },
            },
        )
    } else if occurs(b, pat("+CGEV:")) {
        Some(UrcView::GprsEvent(capped(trim_spec(utf8_text(b)), 40)))
    } else if occurs(b, pat("Call Ready")) {
        Some(UrcView::CallReady)
    } else if occurs(b, pat("NORMAL POWER DOWN")) || occurs(b, pat("UNDER-VOLTAGE POWER DOWN"))
        || occurs(b, pat("OVER-VOLTAGE POWER DOWN")) {
        Some(UrcView::PowerDown)
    } else if occurs(b, pat("+CMGS:")) {
        Some(UrcView::SmsSent(number_after_colon(b) as u16))
    } else if occurs(b, pat("UNDER-VOLTAGE WARNING")) || occurs(b, pat("OVER-VOLTAGE WARNING")) {
        Some(UrcView::VoltageWarning)
    } else {
        None
    }
}

proof fn lemma_ascii_pat(t: &str, bytes: Seq<u8>)
    requires
        vstd::utf8::is_ascii_chars(t@),
        t@.len() == bytes.len(),
        forall|i: int| 0 <= i < bytes.len() ==> #[trigger] bytes[i] == t@[i] as u8,
    ensures
        pat(t) == bytes,
{
    vstd::utf8::is_ascii_chars_encode_utf8(t@);
    assert(pat(t) =~= bytes);
}

/// What a reply is recognised as, for valid UTF-8 text: `OK` anywhere
/// gives `Okay`; otherwise `ERROR` gives a `+CME ERROR:` code when that
/// occurs, else a `+CMS ERROR:` code when that occurs, else a plain
/// `Error`; otherwise `>` gives the prompt; a text holding none of these,
/// or bytes that are not UTF-8, is no complete reply.
pub proof fn lemma_reply_recognised(b: Seq<u8>)
    ensures
        !vstd::utf8::valid_utf8(b) ==> response_of(b) is None,
        ({
            let ok = occurs(b, pat("OK"));
            let err = occurs(b, pat("ERROR"));
            let cme = occurs(b, pat("+CME ERROR:"));
            let cms = occurs(b, pat("+CMS ERROR:"));
            let v = vstd::utf8::valid_utf8(b);
            &&& v && ok ==> response_of(b) == Some(AtResponse::Okay)
            &&& v && !ok && err && cme ==> (response_of(b) matches Some(AtResponse::CmeError(_)))
            &&& v && !ok && err && !cme && cms ==> (response_of(b) matches Some(
                AtResponse::CmsError(_),
            ))
            &&& v && !ok && err && !cme && !cms ==> response_of(b) == Some(AtResponse::Error)
            &&& v && !ok && !err && occurs(b, pat(">")) ==> response_of(b) == Some(
                AtResponse::Prompt,
            )
            &&& v && !ok && !err && !occurs(b, pat(">")) ==> response_of(b) is None
        }),
{
    reveal_strlit("OK");
    reveal_strlit("ERROR");
    reveal_strlit("+CME ERROR:");
    reveal_strlit("+CMS ERROR:");
    reveal_strlit(">");
    lemma_ascii_pat("OK", ok_pat());
    lemma_ascii_pat("ERROR", error_pat());
    lemma_ascii_pat("+CME ERROR:", cme_pat());
    lemma_ascii_pat("+CMS ERROR:", cms_pat());
    lemma_ascii_pat(">", prompt_pat());
}

/// What an unsolicited result code is recognised from, for valid UTF-8
/// text: an incoming SMS whenever `+CMT:` occurs; otherwise a packet-data
/// event whenever `+CGEV:` occurs; otherwise `Call Ready`; otherwise a power
/// down whenever any of the three power-down reports (normal, under-voltage,
/// over-voltage) occurs; otherwise an SMS sent on `+CMGS:`; otherwise a
/// voltage warning on either warning; and nothing at all in a text holding
/// none of these, or in bytes that are not UTF-8.
pub proof fn lemma_urc_recognised(b: Seq<u8>)
    ensures
        !vstd::utf8::valid_utf8(b) ==> urc_of(b) is None,
        vstd::utf8::valid_utf8(b) && occurs(b, pat("+CMT:")) ==> urc_of(b) matches Some(
            UrcView::IncomingSms { .. },
        ),
        vstd::utf8::valid_utf8(b) && !occurs(b, pat("+CMT:")) && occurs(b, pat("+CGEV:"))
            ==> urc_of(b) matches Some(UrcView::GprsEvent(_)),
        vstd::utf8::valid_utf8(b) && !occurs(b, pat("+CMT:")) && !occurs(b, pat("+CGEV:"))
            && occurs(b, pat("Call Ready")) ==> urc_of(b) == Some(UrcView::CallReady),
        ({
            let before = vstd::utf8::valid_utf8(b) && !occurs(b, pat("+CMT:")) && !occurs(
                b,
                pat("+CGEV:"),
            ) && !occurs(b, pat("Call Ready"));
            &&& before && occurs(b, pat("NORMAL POWER DOWN")) ==> urc_of(b) == Some(
                UrcView::PowerDown,
            )
            &&& before && occurs(b, pat("UNDER-VOLTAGE POWER DOWN")) ==> urc_of(b) == Some(
                UrcView::PowerDown,
            )
            &&& before && occurs(b, pat("OVER-VOLTAGE POWER DOWN")) ==> urc_of(b) == Some(
                UrcView::PowerDown,
            )
            &&& urc_of(b) == Some(UrcView::PowerDown) ==> before && (occurs(
                b,
                pat("NORMAL POWER DOWN"),
            ) || occurs(b, pat("UNDER-VOLTAGE POWER DOWN")) || occurs(
                b,
                pat("OVER-VOLTAGE POWER DOWN"),
            ))
            &&& urc_of(b) == Some(UrcView::VoltageWarning) ==> before && (occurs(
                b,
                pat("UNDER-VOLTAGE WARNING"),
            ) || occurs(b, pat("OVER-VOLTAGE WARNING")))
            &&& before && !occurs(b, pat("NORMAL POWER DOWN")) && !occurs(
                b,
                pat("UNDER-VOLTAGE POWER DOWN"),
            ) && !occurs(b, pat("OVER-VOLTAGE POWER DOWN")) && !occurs(b, pat("+CMGS:")) && (occurs(
                b,
                pat("UNDER-VOLTAGE WARNING"),
            ) || occurs(b, pat("OVER-VOLTAGE WARNING"))) ==> urc_of(b) == Some(
                UrcView::VoltageWarning,
            )
            &&& before && !occurs(b, pat("NORMAL POWER DOWN")) && !occurs(
                b,
                pat("UNDER-VOLTAGE POWER DOWN"),
            ) && !occurs(b, pat("OVER-VOLTAGE POWER DOWN")) && !occurs(b, pat("+CMGS:")) && !occurs(
                b,
                pat("UNDER-VOLTAGE WARNING"),
            ) && !occurs(b, pat("OVER-VOLTAGE WARNING")) ==> urc_of(b) is None
        }),
{
}

fn has_text(b: &[u8], t: &str) -> (r: bool)
    ensures
        r == occurs(b@, pat(t)),
{
    contains_bytes(b, t.as_bytes())
}

fn strip_trailing_cr(s: &[u8]) -> (r: &[u8])
    ensures
        r@ == strip_cr(s@),
{
    let mut end = s.len();
    assert(s@.take(s@.len() as int) =~= s@);
    while end > 0 && s[end - 1] == 13
        invariant
            end <= s@.len(),
            strip_cr(s@.take(end as int)) == strip_cr(s@),
        decreases end,
    {
        assert(s@.take(end as int).drop_last() =~= s@.take(end - 1));
        end = end - 1;
    }
    let r = slice_subrange(s, 0, end);
    assert(r@ =~= s@.take(end as int));
    assert(strip_cr(s@.take(end as int)) == s@.take(end as int));
    r
}

proof fn lemma_first_occurrence_unique(b: Seq<u8>, pat: Seq<u8>, i: int)
    requires
        occurs_at(b, pat, i),
        forall|j: int| 0 <= j < i ==> !occurs_at(b, pat, j),
    ensures
        (choose|k: int| occurs_at(b, pat, k) && forall|j: int| 0 <= j < k ==> !occurs_at(b, pat, j))
            == i,
{
    let k = choose|k: int| occurs_at(b, pat, k) && forall|j: int| 0 <= j < k ==> !occurs_at(b, pat, j);
    assert(occurs_at(b, pat, k) && forall|j: int| 0 <= j < k ==> !occurs_at(b, pat, j));
    if k < i {
    } else if k > i {
    }
}

fn pattern(which: u8) -> (r: Vec<u8>)
    requires
        which < 5,
    ensures
        which == 0 ==> r@ == ok_pat(),
        which == 1 ==> r@ == error_pat(),
        which == 2 ==> r@ == cme_pat(),
        which == 3 ==> r@ == cms_pat(),
        which == 4 ==> r@ == prompt_pat(),
{
    if which == 0 {
        let r = vec![79u8, 75];
        assert(r@ =~= ok_pat());
        r
    } else if which == 1 {
        let r = vec![69u8, 82, 82, 79, 82];
        assert(r@ =~= error_pat());
        r
    } else if which == 2 {
        let r = vec![43u8, 67, 77, 69, 32, 69, 82, 82, 79, 82, 58];
        assert(r@ =~= cme_pat());
        r
    } else if which == 3 {
        let r = vec![43u8, 67, 77, 83, 32, 69, 82, 82, 79, 82, 58];
        assert(r@ =~= cms_pat());
        r
    } else {
        let r = vec![62u8];
        assert(r@ =~= prompt_pat());
        r
    }
}

fn contains_bytes(hay: &[u8], pat: &[u8]) -> (r: bool)
    ensures
        r == occurs(hay@, pat@),
{
    match find_bytes(hay, pat) {
        Some(i) => true,
        None => false,
    }
}

fn sms_urc(b: &[u8]) -> (r: Urc)
    ensures
        urc_view(r) == (UrcView::IncomingSms {
            sender: match quoted(b@, 0) {
                Some(inner) => capped(utf8_text(inner), 20),
                None => Seq::empty(),
            },
            text: match first_byte(b@, 10) {
                Some(p) => capped(utf8_text(strip_cr(b@.skip(p + 1))), 160),
                None => Seq::empty(),
            },
        }),
{
    let len = b.len();
    proof {
        reveal_strlit("");
        assert(""@ =~= Seq::<char>::empty());
        assert(encode_utf8(Seq::<char>::empty()) =~= Seq::<u8>::empty());
        assert(fitted(""@, 20) == Seq::<char>::empty());
        assert(fitted(""@, 160) == Seq::<char>::empty());
    }
    let sender = match extract_between_quotes(b, 0) {
        Some(s) => s,
        None => text20_of(""),
    };
    let body = match find_byte(b, 10) {
        Some(pos) => {
            let rest = slice_subrange(b, pos + 1, b.len());
            assert(rest@ =~= b@.skip(pos + 1));
            let trimmed = strip_trailing_cr(rest);
            let text = capped_string(trimmed, 160);
            proof {
                lemma_capped_fits(utf8_text(trimmed@), 160);
            }
            text160_of(text.as_str())
        },
        None => text160_of(""),
    };
    Urc::IncomingSms { sender, text: body }
}

fn gprs_urc(text: &str) -> (r: Urc)
    ensures
        urc_view(r) == UrcView::GprsEvent(capped(trim_spec(text@), 40)),
{
    let t = trim(text);
    Urc::GprsEvent(text40_of(t))
}

fn urc_in(b: &[u8]) -> (r: Option<Urc>)
    ensures
        match r {
            Some(u) => urc_of(b@) == Some(urc_view(u)),
            None => urc_of(b@) is None,
        },
{
    let text = match str_from_utf8(b) {
        Some(t) => t,
        None => {
            return None;
        },
    };
    proof {
        vstd::utf8::encode_utf8_decode_utf8(text@);
    }
    if has_text(b, "+CMT:") {
        return Some(sms_urc(b));
    }
    if has_text(b, "+CGEV:") {
        return Some(gprs_urc(text));
    }
    if has_text(b, "Call Ready") {
        return Some(Urc::CallReady);
    }
    let down1 = has_text(b, "NORMAL POWER DOWN");
    let down2 = has_text(b, "UNDER-VOLTAGE POWER DOWN");
    let down3 = has_text(b, "OVER-VOLTAGE POWER DOWN");
    if down1 || down2 || down3 {
        return Some(Urc::PowerDown);
    }
    if has_text(b, "+CMGS:") {
        let code = parse_number_after_colon(b);
        return Some(Urc::SmsSent(code as u16));
    }
    let warn1 = has_text(b, "UNDER-VOLTAGE WARNING");
    let warn2 = has_text(b, "OVER-VOLTAGE WARNING");
    if warn1 || warn2 {
        return Some(Urc::VoltageWarning);
    }
    None
}

impl CmuxAtChannel {
    /// The received bytes not yet consumed.
    pub closed spec fn buffer(&self) -> Seq<u8> {
        bytes512(self.rx_buffer)
    }

    /// The channel's multiplexer channel.
    pub closed spec fn channel_dlci(&self) -> u8 {
        self.dlci
    }

    /// The channel's multiplexer channel.
    pub fn dlci_value(&self) -> (r: u8)
        ensures
            r == self.channel_dlci(),
    {
        self.dlci
    }

    /// A channel on `dlci` with an empty buffer.
    pub fn new(dlci: u8) -> (r: CmuxAtChannel)
        ensures
            r.channel_dlci() == dlci,
            r.buffer() == Seq::<u8>::empty(),
    {
        CmuxAtChannel { dlci, rx_buffer: bytes512_new() }
    }

    /// Adds received bytes; bytes past the 512th are dropped.
    pub fn feed_rx_data(&mut self, data: &[u8])
        ensures
            final(self).channel_dlci() == old(self).channel_dlci(),
            final(self).buffer() == feed_spec(old(self).buffer(), data@),
    {
        let mut i: usize = 0;
        let ghost start = bytes512(self.rx_buffer);
        while i < data.len()
            invariant
                i <= data@.len(),
                bytes512(self.rx_buffer) == feed_spec(start, data@.take(i as int)),
                self.dlci == old(self).dlci,
                start == bytes512(old(self).rx_buffer),
            decreases data@.len() - i,
        {
            let _ = bytes512_push(&mut self.rx_buffer, data[i]);
            assert(feed_spec(start, data@.take(i + 1)) =~= if bytes512(self.rx_buffer).len()
                <= RX_CAPACITY && (start.len() < RX_CAPACITY) && start.len() + i + 1 <= RX_CAPACITY {
                start + data@.take(i + 1)
            } else {
                feed_spec(start, data@.take(i + 1))
            });
            assert(bytes512(self.rx_buffer) =~= feed_spec(start, data@.take(i + 1)));
            i = i + 1;
        }
        assert(data@.take(data@.len() as int) =~= data@);
    }

    /// The reply in the buffer, if complete: with the buffer as UTF-8 text
    /// (invalid UTF-8 counts as nothing), `OK` anywhere gives `Okay`; else
    /// `ERROR` gives the code after the first `+CME ERROR:` or, failing
    /// that, after the first `+CMS ERROR:`, or a plain `Error`; else `>`
    /// gives `Prompt`. A complete reply empties the buffer; otherwise it is
    /// kept.
    pub fn parse_response(&mut self) -> (r: Option<AtResponse>)
        ensures
            final(self).channel_dlci() == old(self).channel_dlci(),
            r == response_of(old(self).buffer()),
            r is Some ==> final(self).buffer() == Seq::<u8>::empty(),
            r is None ==> final(self).buffer() == old(self).buffer(),
    {
        let valid = match str_from_utf8(bytes512_slice(&self.rx_buffer)) {
            Some(_) => true,
            None => false,
        };
        if !valid {
            return None;
        }
        let b = bytes512_slice(&self.rx_buffer);
        let blen = b.len();
        if contains_bytes(b, pattern(0).as_slice()) {
            bytes512_clear(&mut self.rx_buffer);
            return Some(AtResponse::Okay);
        }
        if contains_bytes(b, pattern(1).as_slice()) {
            let cme = pattern(2);
            assert(cme@.len() == 11);
            match find_bytes(b, cme.as_slice()) {
                Some(pos) => {
                    proof {
                        lemma_first_occurrence_unique(b@, cme_pat(), pos as int);
                    }
                    let code = code_after(b, pos + 11);
                    bytes512_clear(&mut self.rx_buffer);
                    return Some(AtResponse::CmeError(code));
                },
                None => {},
            }
            let cms = pattern(3);
            assert(cms@.len() == 11);
            match find_bytes(b, cms.as_slice()) {
                Some(pos) => {
                    proof {
                        lemma_first_occurrence_unique(b@, cms_pat(), pos as int);
                    }
                    let code = code_after(b, pos + 11);
                    bytes512_clear(&mut self.rx_buffer);
                    return Some(AtResponse::CmsError(code));
                },
                None => {},
            }
            bytes512_clear(&mut self.rx_buffer);
            return Some(AtResponse::Error);
        }
        if contains_bytes(b, pattern(4).as_slice()) {
            bytes512_clear(&mut self.rx_buffer);
            return Some(AtResponse::Prompt);
        }
        None
    }

    /// The unsolicited result code in the buffer, if any, checked in this
    /// order (the buffer as UTF-8 text; invalid UTF-8 counts as nothing):
    /// `+CMT:` is an incoming SMS whose sender is the text between the first
    /// two double quotes (at most 20 bytes, else empty) and whose text is
    /// everything after the first line feed without trailing carriage
    /// returns (at most 160 bytes, else empty); `+CGEV:` is a packet data
    /// event with the trimmed buffer (at most 40 bytes, else empty); `Call
    /// Ready`; a normal, under- or over-voltage power down; `+CMGS:` is an
    /// SMS sent, with the number after the first `:`; an under- or
    /// over-voltage warning. A recognised code empties the buffer.
    pub fn parse_urc(&mut self) -> (r: Option<Urc>)
        ensures
            final(self).channel_dlci() == old(self).channel_dlci(),
            match r {
                Some(u) => urc_of(old(self).buffer()) == Some(urc_view(u))
                    && final(self).buffer() == Seq::<u8>::empty(),
                None => urc_of(old(self).buffer()) is None && final(self).buffer() == old(
                    self,
                ).buffer(),
            },
    {
        let r = urc_in(bytes512_slice(&self.rx_buffer));
        if r.is_some() {
            bytes512_clear(&mut self.rx_buffer);
        }
        r
    }

    /// The frame carrying the command `cmd` on this channel.
    pub fn encode_at_cmd(&self, cmd: &str) -> (r: heapless::Vec<u8, 300>)
        ensures
            bytes300(r) == encode_spec(self.channel_dlci(), UIH, encode_utf8(cmd@)),
    {
        encode_cmux_frame(self.dlci, UIH, cmd.as_bytes())
    }

    /// Empties the buffer.
    pub fn clear(&mut self)
        ensures
            final(self).channel_dlci() == old(self).channel_dlci(),
            final(self).buffer() == Seq::<u8>::empty(),
    {
        bytes512_clear(&mut self.rx_buffer);
    }
}

// ── AT client ─────────────────────────────────────────────────────────────

/// Stage of the modem set-up and packet data connection.
#[derive(Debug, Clone, Copy, PartialEq, Eq, Structural)]
pub enum AtInitStage {
    Idle,
    EchoOff,
    Cmgf,
    Cnmi,
    Csmp,
    Cclk,
    Cgatt,
    Cstt,
    Ciicr,
    Cifsr,
    Ready,
}

/// AT client of the SIM800L: set-up, packet data connection and SMS.
pub struct GsmAtClient {
    /// The AT channel.
    pub channel: CmuxAtChannel,
    /// Current stage.
    pub init_stage: AtInitStage,
    /// Packet data is attached.
    pub gprs_attached: bool,
    /// Local IP address, when known.
    pub ip_addr: Option<[u8; 4]>,
}

/// The next set-up command at `stage` and the stage after it: echo off,
/// SMS text mode, SMS indications, SMS parameters, clock query, then
/// ready (no command).
pub open spec fn init_step(stage: AtInitStage) -> (AtInitStage, Option<Seq<char>>) {
    match stage {
        AtInitStage::Idle => (AtInitStage::EchoOff, Some("ATE0\r"@)),
        AtInitStage::EchoOff => (AtInitStage::Cmgf, Some("AT+CMGF=1\r"@)),
        AtInitStage::Cmgf => (AtInitStage::Cnmi, Some("AT+CNMI=2,2,0,0,0\r"@)),
        AtInitStage::Cnmi => (AtInitStage::Csmp, Some("AT+CSMP=17,167,0,0\r"@)),
        AtInitStage::Csmp => (AtInitStage::Cclk, Some("AT+CCLK?\r"@)),
        AtInitStage::Cclk => (AtInitStage::Ready, None),
        _ => (stage, None),
    }
}

/// The stage from which the set-up command last taken at `stage` is
/// taken again: the stage before it during set-up, otherwise `stage`.
pub open spec fn retry_stage(stage: AtInitStage) -> AtInitStage {
    match stage {
        AtInitStage::EchoOff => AtInitStage::Idle,
        AtInitStage::Cmgf => AtInitStage::EchoOff,
        AtInitStage::Cnmi => AtInitStage::Cmgf,
        AtInitStage::Csmp => AtInitStage::Cnmi,
        AtInitStage::Cclk => AtInitStage::Csmp,
        _ => stage,
    }
}

/// A set-up command that failed is taken again: after the command taken at
/// `stage` and an error reply, the next command is the same one, with the
/// same stage after it.
pub proof fn lemma_error_repeats_command(stage: AtInitStage)
    requires
        init_step(stage).1 is Some,
    ensures
        init_step(retry_stage(init_step(stage).0)) == init_step(stage),
{
}

/// The next packet-data command at `stage` and the stage after it: APN,
/// bring up the connection, ask the IP address, then ready (attached, no
/// command).
pub open spec fn gprs_step(stage: AtInitStage) -> (AtInitStage, Option<Seq<char>>) {
    match stage {
        AtInitStage::Cgatt => (AtInitStage::Cstt, Some("AT+CSTT=\"internet\"\r"@)),
        AtInitStage::Cstt => (AtInitStage::Ciicr, Some("AT+CIICR\r"@)),
        AtInitStage::Ciicr => (AtInitStage::Cifsr, Some("AT+CIFSR\r"@)),
        AtInitStage::Cifsr => (AtInitStage::Ready, None),
        _ => (stage, None),
    }
}

/// The view of an optional command text.
pub open spec fn cmd_view(c: Option<&str>) -> Option<Seq<char>> {
    match c {
        Some(t) => Some(t@),
        None => None,
    }
}

/// `AT+CMGS="` then the number, the closing quote and carriage return, as
/// far as they fit 40 bytes (a piece that does not fit ends the command).
pub open spec fn cmgs_bytes(number: Seq<u8>) -> Seq<u8> {
    let head = pat("AT+CMGS=\"");
    if number.len() <= 31 {
        if number.len() <= 29 {
            head + number + pat("\"\r")
        } else {
            head + number
        }
    } else {
        head
    }
}

/// The SMS text (when it fits 200 bytes, else nothing) and Ctrl+Z.
pub open spec fn sms_body_bytes(text: Seq<u8>) -> Seq<u8> {
    if text.len() <= 200 {
        if text.len() < 200 {
            text.push(0x1Au8)
        } else {
            text
        }
    } else {
        seq![0x1Au8]
    }
}

impl GsmAtClient {
    /// A client on `channel`, before set-up.
    pub fn new(channel: CmuxAtChannel) -> (r: GsmAtClient)
        ensures
            r.channel == channel,
            r.init_stage == AtInitStage::Idle,
            !r.gprs_attached,
            r.ip_addr is None,
    {
        GsmAtClient { channel, init_stage: AtInitStage::Idle, gprs_attached: false, ip_addr: None }
    }

    /// The next set-up command (see `init_step`); none once set up.
    pub fn next_init_cmd(&mut self) -> (r: Option<&'static str>)
        ensures
            final(self).init_stage == init_step(old(self).init_stage).0,
            cmd_view(r) == init_step(old(self).init_stage).1,
            final(self).channel == old(self).channel,
            final(self).gprs_attached == old(self).gprs_attached,
            final(self).ip_addr == old(self).ip_addr,
    {
        match self.init_stage {
            AtInitStage::Idle => {
                self.init_stage = AtInitStage::EchoOff;
                Some("ATE0\r")
            },
            AtInitStage::EchoOff => {
                self.init_stage = AtInitStage::Cmgf;
                Some("AT+CMGF=1\r")
            },
            AtInitStage::Cmgf => {
                self.init_stage = AtInitStage::Cnmi;
                Some("AT+CNMI=2,2,0,0,0\r")
            },
            AtInitStage::Cnmi => {
                self.init_stage = AtInitStage::Csmp;
                Some("AT+CSMP=17,167,0,0\r")
            },
            AtInitStage::Csmp => {
                self.init_stage = AtInitStage::Cclk;
                Some("AT+CCLK?\r")
            },
            AtInitStage::Cclk => {
                self.init_stage = AtInitStage::Ready;
                None
            },
            _ => None,
        }
    }

    /// A reply to a set-up command. `OK` changes nothing: the stage already
    /// moved on when the command was taken. An error (`ERROR`, `+CME ERROR`,
    /// `+CMS ERROR`) steps the stage back (see `retry_stage`), so that the
    /// next `next_init_cmd` repeats the failed command. Other replies change
    /// nothing.
    pub fn process_init_response(&mut self, response: AtResponse)
        ensures
            final(self).init_stage == match response {
                AtResponse::Error | AtResponse::CmeError(_) | AtResponse::CmsError(_) => retry_stage(
                    old(self).init_stage,
                ),
                _ => old(self).init_stage,
            },
            final(self).channel == old(self).channel,
            final(self).gprs_attached == old(self).gprs_attached,
            final(self).ip_addr == old(self).ip_addr,
    {
        match response {
            AtResponse::Okay => {},
            AtResponse::Error | AtResponse::CmeError(_) | AtResponse::CmsError(_) => {
                self.init_stage = match self.init_stage {
                    AtInitStage::EchoOff => AtInitStage::Idle,
                    AtInitStage::Cmgf => AtInitStage::EchoOff,
                    AtInitStage::Cnmi => AtInitStage::Cmgf,
                    AtInitStage::Csmp => AtInitStage::Cnmi,
                    AtInitStage::Cclk => AtInitStage::Csmp,
                    other => other,
                };
            },
            _ => {},
        }
    }

    /// Starts the packet data connection once set up: the attach command;
    /// none in any other stage.
    pub fn start_gprs_connect(&mut self) -> (r: Option<&'static str>)
        ensures
            old(self).init_stage == AtInitStage::Ready ==> final(self).init_stage
                == AtInitStage::Cgatt && cmd_view(r) == Some("AT+CGATT=1\r"@),
            old(self).init_stage != AtInitStage::Ready ==> final(self).init_stage == old(
                self,
            ).init_stage && r is None,
            final(self).channel == old(self).channel,
            final(self).gprs_attached == old(self).gprs_attached,
            final(self).ip_addr == old(self).ip_addr,
    {
        if self.init_stage != AtInitStage::Ready {
            return None;
        }
        self.init_stage = AtInitStage::Cgatt;
        Some("AT+CGATT=1\r")
    }

    /// The next packet-data command (see `gprs_step`); finishing marks
    /// packet data attached.
    pub fn next_gprs_cmd(&mut self) -> (r: Option<&'static str>)
        ensures
            final(self).init_stage == gprs_step(old(self).init_stage).0,
            cmd_view(r) == gprs_step(old(self).init_stage).1,
            final(self).gprs_attached == (old(self).gprs_attached || old(self).init_stage
                == AtInitStage::Cifsr),
            final(self).channel == old(self).channel,
            final(self).ip_addr == old(self).ip_addr,
    {
        match self.init_stage {
            AtInitStage::Cgatt => {
                self.init_stage = AtInitStage::Cstt;
                Some("AT+CSTT=\"internet\"\r")
            },
            AtInitStage::Cstt => {
                self.init_stage = AtInitStage::Ciicr;
                Some("AT+CIICR\r")
            },
            AtInitStage::Ciicr => {
                self.init_stage = AtInitStage::Cifsr;
                Some("AT+CIFSR\r")
            },
            AtInitStage::Cifsr => {
                self.init_stage = AtInitStage::Ready;
                self.gprs_attached = true;
                None
            },
            _ => None,
        }
    }

    /// The two frames of an SMS: the send command with the number (see
    /// `cmgs_bytes`), then the text and Ctrl+Z (see `sms_body_bytes`).
    pub fn encode_sms_send(&self, number: &str, text: &str) -> (r: heapless::Vec<
        heapless::Vec<u8, 300>,
        2,
    >)
        ensures
            frame_pair(r).len() == 2,
            bytes300(frame_pair(r)[0]) == encode_spec(
                self.channel.channel_dlci(),
                UIH,
                cmgs_bytes(encode_utf8(number@)),
            ),
            bytes300(frame_pair(r)[1]) == encode_spec(
                self.channel.channel_dlci(),
                UIH,
                sms_body_bytes(encode_utf8(text@)),
            ),
    {
        let dlci = self.channel.dlci;
        let mut cmd: Vec<u8> = Vec::new();
        let head = "AT+CMGS=\"".as_bytes();
        let nb = number.as_bytes();
        let mut i: usize = 0;
        while i < head.len()
            invariant
                i <= head@.len(),
                cmd@ == head@.take(i as int),
            decreases head@.len() - i,
        {
            cmd.push(head[i]);
            assert(cmd@ =~= head@.take(i + 1));
            i = i + 1;
        }
        assert(head@.take(head@.len() as int) =~= head@);
        proof {
            reveal_strlit("AT+CMGS=\"");
            vstd::utf8::is_ascii_chars_encode_utf8("AT+CMGS=\""@);
            reveal_strlit("\"\r");
            vstd::utf8::is_ascii_chars_encode_utf8("\"\r"@);
        }
        if nb.len() <= 31 {
            let mut k: usize = 0;
            let ghost base = cmd@;
            while k < nb.len()
                invariant
                    k <= nb@.len(),
                    cmd@ == base + nb@.take(k as int),
                decreases nb@.len() - k,
            {
                cmd.push(nb[k]);
                assert(cmd@ =~= base + nb@.take(k + 1));
                k = k + 1;
            }
            assert(nb@.take(nb@.len() as int) =~= nb@);
            if nb.len() <= 29 {
                let tail = "\"\r".as_bytes();
                let ghost mid = cmd@;
                let mut t: usize = 0;
                while t < tail.len()
                    invariant
                        t <= tail@.len(),
                        cmd@ == mid + tail@.take(t as int),
                    decreases tail@.len() - t,
                {
                    cmd.push(tail[t]);
                    assert(cmd@ =~= mid + tail@.take(t + 1));
                    t = t + 1;
                }
                assert(tail@.take(tail@.len() as int) =~= tail@);
            }
        }
        assert(cmd@ =~= cmgs_bytes(encode_utf8(number@)));
        let mut frames = frame_pair_new();
        let _ = frame_pair_push(&mut frames, encode_cmux_frame(dlci, UIH, cmd.as_slice()));
        let tb = text.as_bytes();
        let mut msg: Vec<u8> = Vec::new();
        if tb.len() <= 200 {
            let mut k: usize = 0;
            while k < tb.len()
                invariant
                    k <= tb@.len(),
                    msg@ == tb@.take(k as int),
                decreases tb@.len() - k,
            {
                msg.push(tb[k]);
                assert(msg@ =~= tb@.take(k + 1));
                k = k + 1;
            }
            assert(tb@.take(tb@.len() as int) =~= tb@);
        }
        if msg.len() < 200 {
            msg.push(0x1A);
        }
        assert(msg@ =~= sms_body_bytes(encode_utf8(text@)));
        let _ = frame_pair_push(&mut frames, encode_cmux_frame(dlci, UIH, msg.as_slice()));
        frames
    }
}

} // verus!
