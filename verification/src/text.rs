//! Text building blocks: decimal and hexadecimal rendering of integers and
//! appending to `String`s, with exact specifications of the produced text.

use vstd::prelude::*;
use vstd::utf8::{decode_utf8, encode_utf8, is_ascii_chars, valid_utf8};

verus! {

/// The character of the decimal or hexadecimal digit `d` (upper case).
pub open spec fn digit_char(d: nat) -> char {
    if d < 10 {
        (48 + d) as char
    } else {
        (55 + d) as char
    }
}

/// Decimal digits of `n`, most significant first, without leading zeros.
pub open spec fn dec_chars(n: nat) -> Seq<char>
    decreases n,
{
    if n < 10 {
        seq![digit_char(n)]
    } else {
        dec_chars(n / 10).push(digit_char(n % 10))
    }
}

/// Decimal rendering of a signed integer, with a leading '-' when negative.
pub open spec fn int_chars(v: int) -> Seq<char> {
    if v < 0 {
        seq!['-'] + dec_chars((-v) as nat)
    } else {
        dec_chars(v as nat)
    }
}

/// Upper-case hexadecimal digits of `n`, without leading zeros.
pub open spec fn hex_chars(n: nat) -> Seq<char>
    decreases n,
{
    if n < 16 {
        seq![digit_char(n)]
    } else {
        hex_chars(n / 16).push(digit_char(n % 16))
    }
}

/// Two upper-case hexadecimal digits of a byte.
pub open spec fn hex2_chars(b: u8) -> Seq<char> {
    seq![digit_char((b / 16) as nat), digit_char((b % 16) as nat)]
}

/// Appends one character to a string.
///
/// Trusted: calls `String::push`, which appends the character to the end.
#[verifier::external_body]
pub(crate) fn push_char(s: &mut String, c: char)
    ensures
        final(s)@ == old(s)@.push(c),
{
    s.push(c)
}

/// Appends a string slice.
pub fn push_str(s: &mut String, t: &str)
    ensures
        final(s)@ == old(s)@ + t@,
{
    s.append(t);
}

/// The character of a digit value below 16.
pub fn digit(d: u8) -> (c: char)
    requires
        d < 16,
    ensures
        c == digit_char(d as nat),
{
    if d < 10 {
        (48u8 + d) as char
    } else {
        (55u8 + d) as char
    }
}

/// Appends the decimal rendering of `v`.
pub fn push_dec(s: &mut String, v: u64)
    ensures
        final(s)@ == old(s)@ + dec_chars(v as nat),
    decreases v,
{
    if v >= 10 {
        push_dec(s, v / 10);
    }
    let d = (v % 10) as u8;
    push_char(s, digit(d));
    assert(final(s)@ =~= old(s)@ + dec_chars(v as nat));
}

/// Appends the decimal rendering of a signed value.
pub fn push_int(s: &mut String, v: i64)
    requires
        v > i64::MIN,
    ensures
        final(s)@ == old(s)@ + int_chars(v as int),
{
    if v < 0 {
        push_char(s, '-');
        push_dec(s, (-v) as u64);
        assert(final(s)@ =~= old(s)@ + int_chars(v as int));
    } else {
        push_dec(s, v as u64);
    }
}

/// Appends the decimal rendering of an `i32`.
pub fn push_i32(s: &mut String, v: i32)
    ensures
        final(s)@ == old(s)@ + int_chars(v as int),
{
    push_int(s, v as i64);
}

/// Appends the upper-case hexadecimal rendering of `v` (no leading zeros).
pub fn push_hex(s: &mut String, v: u64)
    ensures
        final(s)@ == old(s)@ + hex_chars(v as nat),
    decreases v,
{
    if v >= 16 {
        push_hex(s, v / 16);
    }
    let d = (v % 16) as u8;
    push_char(s, digit(d));
    assert(final(s)@ =~= old(s)@ + hex_chars(v as nat));
}

/// Appends a byte as exactly two upper-case hexadecimal digits.
pub fn push_hex2(s: &mut String, b: u8)
    ensures
        final(s)@ == old(s)@ + hex2_chars(b),
{
    push_char(s, digit(b / 16));
    push_char(s, digit(b % 16));
    assert(final(s)@ =~= old(s)@ + hex2_chars(b));
}

/// Builds a string from a slice.
pub fn string_of(t: &str) -> (r: String)
    ensures
        r@ == t@,
{
    let mut r = String::new();
    push_str(&mut r, t);
    assert(r@ =~= t@);
    r
}

/// Decimal digits of a number below 10^10: at most ten.
pub proof fn lemma_dec_chars_len(n: nat)
    requires
        n < 10_000_000_000,
    ensures
        dec_chars(n).len() <= 10,
{
    assert(pow10(10) == 10_000_000_000) by {
        reveal_with_fuel(pow10, 11);
    }
    lemma_dec_chars_len_below(n, 10, 10_000_000_000);
}

proof fn lemma_dec_chars_len_below(n: nat, k: nat, bound: nat)
    requires
        n < bound,
        k >= 1,
        bound <= pow10(k),
    ensures
        dec_chars(n).len() <= k,
    decreases n,
{
    if n >= 10 {
        assert(k >= 2) by {
            if k == 1 {
                assert(pow10(1) == 10) by {
                    assert(pow10(0) == 1);
                }
            }
        }
        assert(pow10(k) == 10 * pow10((k - 1) as nat));
        assert(n / 10 < pow10((k - 1) as nat)) by (nonlinear_arith)
            requires
                n < bound,
                bound <= pow10(k),
                pow10(k) == 10 * pow10((k - 1) as nat),
        ;
        lemma_dec_chars_len_below(n / 10, (k - 1) as nat, pow10((k - 1) as nat));
    }
}

/// The decimal rendering of a byte: at most three digits.
pub proof fn lemma_byte_dec_len(v: u8)
    ensures
        dec_chars(v as nat).len() <= 3,
{
    assert(pow10(3) == 1000) by {
        reveal_with_fuel(pow10, 4);
    }
    lemma_dec_chars_len_below(v as nat, 3, 1000);
}

/// The decimal rendering of a number up to 65536: at most five ASCII
/// digits.
pub proof fn lemma_short_dec(v: nat)
    requires
        v <= 65536,
    ensures
        dec_chars(v).len() <= 5,
        is_ascii_chars(dec_chars(v)),
{
    assert(pow10(5) == 100000) by {
        reveal_with_fuel(pow10, 6);
    }
    lemma_dec_chars_len_below(v, 5, 100000);
    lemma_dec_chars_ascii(v);
}

/// Two hexadecimal digits of a byte are ASCII.
pub proof fn lemma_hex2_ascii(b: u8)
    ensures
        is_ascii_chars(hex2_chars(b)),
{
}

/// Decimal digits are ASCII characters.
pub proof fn lemma_dec_chars_ascii(n: nat)
    ensures
        is_ascii_chars(dec_chars(n)),
    decreases n,
{
    if n >= 10 {
        lemma_dec_chars_ascii(n / 10);
    }
}

/// Signed decimal renderings are ASCII characters.
pub proof fn lemma_int_chars_ascii(v: int)
    ensures
        is_ascii_chars(int_chars(v)),
{
    if v < 0 {
        lemma_dec_chars_ascii((-v) as nat);
        lemma_ascii_concat(seq!['-'], dec_chars((-v) as nat));
    } else {
        lemma_dec_chars_ascii(v as nat);
    }
}

/// Hexadecimal digits are ASCII characters.
pub proof fn lemma_hex_chars_ascii(n: nat)
    ensures
        is_ascii_chars(hex_chars(n)),
    decreases n,
{
    if n >= 16 {
        lemma_hex_chars_ascii(n / 16);
    }
}

/// Two ASCII texts joined are ASCII.
pub proof fn lemma_ascii_concat(a: Seq<char>, b: Seq<char>)
    requires
        is_ascii_chars(a),
        is_ascii_chars(b),
    ensures
        is_ascii_chars(a + b),
{
    assert forall|i: int| 0 <= i < (a + b).len() implies '\0' <= #[trigger] (a + b)[i] <= '\u{7f}' by {
        if i < a.len() {
            assert((a + b)[i] == a[i]);
        } else {
            assert((a + b)[i] == b[i - a.len()]);
        }
    }
}

/// ASCII text takes one byte per character.
pub proof fn lemma_ascii_bytes(s: Seq<char>)
    requires
        is_ascii_chars(s),
    ensures
        encode_utf8(s).len() == s.len(),
{
    vstd::utf8::is_ascii_chars_encode_utf8(s);
}

/// The UTF-8 bytes of joined texts are the joined bytes.
pub proof fn lemma_encode_utf8_concat(a: Seq<char>, b: Seq<char>)
    ensures
        encode_utf8(a + b) == encode_utf8(a) + encode_utf8(b),
    decreases a.len(),
{
    if a.len() == 0 {
        assert(a + b =~= b);
        assert(encode_utf8(a) =~= Seq::<u8>::empty());
        assert(encode_utf8(a) + encode_utf8(b) =~= encode_utf8(b));
    } else {
        assert((a + b).drop_first() =~= a.drop_first() + b);
        assert((a + b)[0] == a[0]);
        lemma_encode_utf8_concat(a.drop_first(), b);
        assert(encode_utf8(a + b) =~= encode_utf8(a) + encode_utf8(b));
    }
}

/// `10^k`.
pub open spec fn pow10(k: nat) -> nat
    decreases k,
{
    if k == 0 {
        1
    } else {
        10 * pow10((k - 1) as nat)
    }
}

/// The decimal rendering of an `i32` takes at most 11 characters.
pub proof fn lemma_int_chars_len(v: i32)
    ensures
        int_chars(v as int).len() <= 11,
{
    if v < 0 {
        lemma_dec_chars_len((-v) as nat);
    } else {
        lemma_dec_chars_len(v as nat);
    }
}

/// The hexadecimal rendering of a `u64` takes at most 16 characters.
pub proof fn lemma_hex_chars_len(n: u64)
    ensures
        hex_chars(n as nat).len() <= 16,
{
    assert(pow16(16) == 0x1_0000_0000_0000_0000) by {
        reveal_with_fuel(pow16, 17);
    }
    lemma_hex_chars_len_below(n as nat, 16, 0x1_0000_0000_0000_0000);
}

/// `16^k`.
pub open spec fn pow16(k: nat) -> nat
    decreases k,
{
    if k == 0 {
        1
    } else {
        16 * pow16((k - 1) as nat)
    }
}

proof fn lemma_hex_chars_len_below(n: nat, k: nat, bound: nat)
    requires
        n < bound,
        k >= 1,
        bound <= pow16(k),
    ensures
        hex_chars(n).len() <= k,
    decreases n,
{
    if n >= 16 {
        assert(k >= 2) by {
            if k == 1 {
                assert(pow16(1) == 16) by {
                    assert(pow16(0) == 1);
                }
            }
        }
        assert(pow16(k) == 16 * pow16((k - 1) as nat));
        assert(n / 16 < pow16((k - 1) as nat)) by (nonlinear_arith)
            requires
                n < bound,
                bound <= pow16(k),
                pow16(k) == 16 * pow16((k - 1) as nat),
        ;
        lemma_hex_chars_len_below(n / 16, (k - 1) as nat, pow16((k - 1) as nat));
    }
}

// ── Text in received bytes ────────────────────────────────────────────────

/// The text of UTF-8 bytes: the decoded characters when the bytes are
/// valid UTF-8, otherwise nothing.
pub open spec fn utf8_text(bytes: Seq<u8>) -> Seq<char> {
    if valid_utf8(bytes) {
        decode_utf8(bytes)
    } else {
        Seq::empty()
    }
}

/// Reads bytes as UTF-8 text.
///
/// Trusted: calls `core::str::from_utf8`, which succeeds exactly when the
/// bytes are valid UTF-8 and then returns a string slice made of those
/// bytes.
#[verifier::external_body]
pub(crate) fn str_from_utf8(bytes: &[u8]) -> (r: Option<&str>)
    ensures
        r is Some <==> valid_utf8(bytes@),
        r is Some ==> encode_utf8(r->0@) == bytes@,
{
    core::str::from_utf8(bytes).ok()
}

/// The text of UTF-8 bytes (empty when they are not valid UTF-8).
pub fn text_of_bytes(bytes: &[u8]) -> (r: String)
    ensures
        r@ == utf8_text(bytes@),
{
    let mut r = String::new();
    match str_from_utf8(bytes) {
        Some(t) => {
            proof {
                vstd::utf8::encode_utf8_decode_utf8(t@);
            }
            push_str(&mut r, t);
            assert(r@ =~= utf8_text(bytes@));
        },
        None => {},
    }
    r
}

/// The character is white space in the sense of Unicode (the White_Space
/// property): tab to carriage return, space, next line, no-break space,
/// ogham space, the spaces from en quad to hair space, line and paragraph
/// separators, narrow no-break space, medium mathematical space and
/// ideographic space.
pub open spec fn is_white_space(c: char) -> bool {
    let u = c as u32;
    ||| 0x09 <= u <= 0x0D
    ||| u == 0x20
    ||| u == 0x85
    ||| u == 0xA0
    ||| u == 0x1680
    ||| 0x2000 <= u <= 0x200A
    ||| u == 0x2028
    ||| u == 0x2029
    ||| u == 0x202F
    ||| u == 0x205F
    ||| u == 0x3000
}

/// Number of white-space characters at the start of `s`.
pub open spec fn ws_prefix_len(s: Seq<char>) -> nat
    decreases s.len(),
{
    if s.len() > 0 && is_white_space(s[0]) {
        1 + ws_prefix_len(s.drop_first())
    } else {
        0
    }
}

/// Number of white-space characters at the end of `s`.
pub open spec fn ws_suffix_len(s: Seq<char>) -> nat
    decreases s.len(),
{
    if s.len() > 0 && is_white_space(s.last()) {
        1 + ws_suffix_len(s.drop_last())
    } else {
        0
    }
}

/// `s` without its leading white space.
pub open spec fn trim_start_spec(s: Seq<char>) -> Seq<char> {
    s.skip(ws_prefix_len(s) as int)
}

/// `s` without its leading and trailing white space.
pub open spec fn trim_spec(s: Seq<char>) -> Seq<char> {
    let t = trim_start_spec(s);
    t.take(t.len() - ws_suffix_len(t))
}

/// Removes leading white space.
///
/// Trusted: calls `str::trim_start`, which returns the slice without its
/// leading white space, white space being the Unicode White_Space
/// property.
#[verifier::external_body]
pub(crate) fn trim_start(s: &str) -> (r: &str)
    ensures
        r@ == trim_start_spec(s@),
{
    s.trim_start()
}

/// Removes leading and trailing white space.
///
/// Trusted: calls `str::trim`, which returns the slice without its leading
/// and trailing white space, white space being the Unicode White_Space
/// property.
#[verifier::external_body]
pub(crate) fn trim(s: &str) -> (r: &str)
    ensures
        r@ == trim_spec(s@),
{
    s.trim()
}

} // verus!
