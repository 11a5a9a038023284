//! Fixed-capacity strings and byte buffers of the `heapless` crate, in
//! which the library hands out display lines, commands, reports and
//! frames: what each holds, and the calls that fill and read them.
//!
//! A buffer of capacity `N` holds at most `N` bytes. Text is filled from a
//! string slice as a whole: it is copied when its UTF-8 bytes fit and the
//! buffer stays empty otherwise.

use vstd::prelude::*;
use vstd::utf8::encode_utf8;

verus! {

/// `heapless::String`, made known to the verifier; what one holds is read
/// through the names below.
#[verifier::external_type_specification]
#[verifier::external_body]
pub struct ExFixedString<const N: usize>(heapless::String<N>);

/// `heapless::Vec`, made known to the verifier; what one holds is read
/// through the names below.
#[verifier::external_type_specification]
#[verifier::external_body]
#[verifier::reject_recursive_types(T)]
pub struct ExFixedVec<T, const N: usize>(heapless::Vec<T, N>);

/// Copying a fixed-capacity string.
///
/// Trusted: `heapless::String::clone` copies the bytes held; the copy's
/// contents are not stated here.
pub assume_specification<const N: usize>[ <heapless::String<N> as core::clone::Clone>::clone ](
    s: &heapless::String<N>,
) -> heapless::String<N>;

/// `s` when its UTF-8 bytes fit `cap`, otherwise nothing.
pub open spec fn fitted(s: Seq<char>, cap: int) -> Seq<char> {
    if encode_utf8(s).len() <= cap {
        s
    } else {
        Seq::empty()
    }
}

/// `b` when it fits `cap` bytes, otherwise nothing.
pub open spec fn fitted_bytes(b: Seq<u8>, cap: int) -> Seq<u8> {
    if b.len() <= cap {
        b
    } else {
        Seq::empty()
    }
}

// ── 16-byte text ──────────────────────────────────────────────────────────

/// The text a 16-byte string holds.
pub uninterp spec fn text16(s: heapless::String<16>) -> Seq<char>;

/// `s` in a 16-byte string (see `fitted`).
///
/// Trusted: calls `heapless::String::try_from`, which copies the text when
/// its bytes fit the capacity and fails otherwise; the failure gives the
/// empty `String::default()`.
#[verifier::external_body]
pub(crate) fn text16_of(s: &str) -> (r: heapless::String<16>)
    ensures
        text16(r) == fitted(s@, 16),
{
    heapless::String::try_from(s).unwrap_or_default()
}

/// The text of a 16-byte string.
///
/// Trusted: calls `heapless::String::as_str`, which returns the text held,
/// at most 16 bytes.
#[verifier::external_body]
pub(crate) fn text16_str(s: &heapless::String<16>) -> (r: &str)
    ensures
        r@ == text16(*s),
        encode_utf8(r@).len() <= 16,
{
    s.as_str()
}

// ── 17-byte text ──────────────────────────────────────────────────────────

/// The text a 17-byte string holds.
pub uninterp spec fn text17(s: heapless::String<17>) -> Seq<char>;

/// `s` in a 17-byte string (see `fitted`).
///
/// Trusted: calls `heapless::String::try_from`, which copies the text when
/// its bytes fit the capacity and fails otherwise; the failure gives the
/// empty `String::default()`.
#[verifier::external_body]
pub(crate) fn text17_of(s: &str) -> (r: heapless::String<17>)
    ensures
        text17(r) == fitted(s@, 17),
{
    heapless::String::try_from(s).unwrap_or_default()
}

/// The text of a 17-byte string.
///
/// Trusted: calls `heapless::String::as_str`, which returns the text held,
/// at most 17 bytes.
#[verifier::external_body]
pub(crate) fn text17_str(s: &heapless::String<17>) -> (r: &str)
    ensures
        r@ == text17(*s),
        encode_utf8(r@).len() <= 17,
{
    s.as_str()
}

// ── 20-byte text ──────────────────────────────────────────────────────────

/// The text a 20-byte string holds.
pub uninterp spec fn text20(s: heapless::String<20>) -> Seq<char>;

/// `s` in a 20-byte string (see `fitted`).
///
/// Trusted: calls `heapless::String::try_from`, which copies the text when
/// its bytes fit the capacity and fails otherwise; the failure gives the
/// empty `String::default()`.
#[verifier::external_body]
pub(crate) fn text20_of(s: &str) -> (r: heapless::String<20>)
    ensures
        text20(r) == fitted(s@, 20),
{
    heapless::String::try_from(s).unwrap_or_default()
}

// ── 32-byte text ──────────────────────────────────────────────────────────

/// The text a 32-byte string holds.
pub uninterp spec fn text32(s: heapless::String<32>) -> Seq<char>;

/// `s` in a 32-byte string (see `fitted`).
///
/// Trusted: calls `heapless::String::try_from`, which copies the text when
/// its bytes fit the capacity and fails otherwise; the failure gives the
/// empty `String::default()`.
#[verifier::external_body]
pub(crate) fn text32_of(s: &str) -> (r: heapless::String<32>)
    ensures
        text32(r) == fitted(s@, 32),
{
    heapless::String::try_from(s).unwrap_or_default()
}

/// The text of a 32-byte string.
///
/// Trusted: calls `heapless::String::as_str`, which returns the text held,
/// at most 32 bytes.
#[verifier::external_body]
pub(crate) fn text32_str(s: &heapless::String<32>) -> (r: &str)
    ensures
        r@ == text32(*s),
        encode_utf8(r@).len() <= 32,
{
    s.as_str()
}

// ── 40-byte text ──────────────────────────────────────────────────────────

/// The text a 40-byte string holds.
pub uninterp spec fn text40(s: heapless::String<40>) -> Seq<char>;

/// `s` in a 40-byte string (see `fitted`).
///
/// Trusted: calls `heapless::String::try_from`, which copies the text when
/// its bytes fit the capacity and fails otherwise; the failure gives the
/// empty `String::default()`.
#[verifier::external_body]
pub(crate) fn text40_of(s: &str) -> (r: heapless::String<40>)
    ensures
        text40(r) == fitted(s@, 40),
{
    heapless::String::try_from(s).unwrap_or_default()
}

/// The text of a 40-byte string.
///
/// Trusted: calls `heapless::String::as_str`, which returns the text held,
/// at most 40 bytes.
#[verifier::external_body]
pub(crate) fn text40_str(s: &heapless::String<40>) -> (r: &str)
    ensures
        r@ == text40(*s),
        encode_utf8(r@).len() <= 40,
{
    s.as_str()
}

// ── 48-byte text ──────────────────────────────────────────────────────────

/// The text a 48-byte string holds.
pub uninterp spec fn text48(s: heapless::String<48>) -> Seq<char>;

/// `s` in a 48-byte string (see `fitted`).
///
/// Trusted: calls `heapless::String::try_from`, which copies the text when
/// its bytes fit the capacity and fails otherwise; the failure gives the
/// empty `String::default()`.
#[verifier::external_body]
pub(crate) fn text48_of(s: &str) -> (r: heapless::String<48>)
    ensures
        text48(r) == fitted(s@, 48),
{
    heapless::String::try_from(s).unwrap_or_default()
}

// ── 64-byte text ──────────────────────────────────────────────────────────

/// The text a 64-byte string holds.
pub uninterp spec fn text64(s: heapless::String<64>) -> Seq<char>;

/// `s` in a 64-byte string (see `fitted`).
///
/// Trusted: calls `heapless::String::try_from`, which copies the text when
/// its bytes fit the capacity and fails otherwise; the failure gives the
/// empty `String::default()`.
#[verifier::external_body]
pub(crate) fn text64_of(s: &str) -> (r: heapless::String<64>)
    ensures
        text64(r) == fitted(s@, 64),
{
    heapless::String::try_from(s).unwrap_or_default()
}

// ── 160-byte text ──────────────────────────────────────────────────────────

/// The text a 160-byte string holds.
pub uninterp spec fn text160(s: heapless::String<160>) -> Seq<char>;

/// `s` in a 160-byte string (see `fitted`).
///
/// Trusted: calls `heapless::String::try_from`, which copies the text when
/// its bytes fit the capacity and fails otherwise; the failure gives the
/// empty `String::default()`.
#[verifier::external_body]
pub(crate) fn text160_of(s: &str) -> (r: heapless::String<160>)
    ensures
        text160(r) == fitted(s@, 160),
{
    heapless::String::try_from(s).unwrap_or_default()
}

// ── Event list ────────────────────────────────────────────────────────────

/// The events a list of at most 32 holds.
pub uninterp spec fn events32(v: heapless::Vec<crate::event::EventEntry, 32>) -> Seq<
    crate::event::EventEntry,
>;

/// The events of `v` in a list of at most 32 (empty when there are more).
///
/// Trusted: calls `heapless::Vec::from_slice`, which copies the items when
/// they fit the capacity and fails otherwise; the failure gives the empty
/// `Vec::default()`. The items are plain copies.
#[verifier::external_body]
pub(crate) fn events32_of(v: &[crate::event::EventEntry]) -> (r: heapless::Vec<
    crate::event::EventEntry,
    32,
>)
    ensures
        events32(r) == (if v@.len() <= 32 {
            v@
        } else {
            Seq::empty()
        }),
{
    heapless::Vec::from_slice(v).unwrap_or_default()
}

// ── 12-byte buffer ────────────────────────────────────────────────────────

/// The bytes a buffer of 12 holds.
pub uninterp spec fn bytes12(v: heapless::Vec<u8, 12>) -> Seq<u8>;

/// The bytes `b` in a buffer of 12 (see `fitted_bytes`).
///
/// Trusted: calls `heapless::Vec::from_slice`, which copies the bytes when
/// they fit the capacity and fails otherwise; the failure gives the empty
/// `Vec::default()`.
#[verifier::external_body]
pub(crate) fn bytes12_of(b: &[u8]) -> (r: heapless::Vec<u8, 12>)
    ensures
        bytes12(r) == fitted_bytes(b@, 12),
{
    heapless::Vec::from_slice(b).unwrap_or_default()
}

// ── 256-byte buffer ────────────────────────────────────────────────────────

/// The bytes a buffer of 256 holds.
pub uninterp spec fn bytes256(v: heapless::Vec<u8, 256>) -> Seq<u8>;

/// The bytes `b` in a buffer of 256 (see `fitted_bytes`).
///
/// Trusted: calls `heapless::Vec::from_slice`, which copies the bytes when
/// they fit the capacity and fails otherwise; the failure gives the empty
/// `Vec::default()`.
#[verifier::external_body]
pub(crate) fn bytes256_of(b: &[u8]) -> (r: heapless::Vec<u8, 256>)
    ensures
        bytes256(r) == fitted_bytes(b@, 256),
{
    heapless::Vec::from_slice(b).unwrap_or_default()
}

// ── 300-byte buffer ────────────────────────────────────────────────────────

/// The bytes a buffer of 300 holds.
pub uninterp spec fn bytes300(v: heapless::Vec<u8, 300>) -> Seq<u8>;

/// The bytes `b` in a buffer of 300 (see `fitted_bytes`).
///
/// Trusted: calls `heapless::Vec::from_slice`, which copies the bytes when
/// they fit the capacity and fails otherwise; the failure gives the empty
/// `Vec::default()`.
#[verifier::external_body]
pub(crate) fn bytes300_of(b: &[u8]) -> (r: heapless::Vec<u8, 300>)
    ensures
        bytes300(r) == fitted_bytes(b@, 300),
{
    heapless::Vec::from_slice(b).unwrap_or_default()
}

/// The bytes of a buffer of 300.
///
/// Trusted: calls `heapless::Vec::as_slice`, which returns the bytes held,
/// at most 300.
#[verifier::external_body]
pub(crate) fn bytes300_slice(v: &heapless::Vec<u8, 300>) -> (r: &[u8])
    ensures
        r@ == bytes300(*v),
        r@.len() <= 300,
{
    v.as_slice()
}

/// Appends a byte to a buffer of 300, when there is room.
///
/// Trusted: calls `heapless::Vec::push`, which appends the byte and
/// succeeds while fewer than 300 are held, and otherwise fails and keeps the
/// buffer.
#[verifier::external_body]
pub(crate) fn bytes300_push(v: &mut heapless::Vec<u8, 300>, b: u8) -> (r: bool)
    ensures
        bytes300(*old(v)).len() < 300 ==> r && bytes300(*final(v)) == bytes300(*old(v)).push(b),
        bytes300(*old(v)).len() >= 300 ==> !r && bytes300(*final(v)) == bytes300(*old(v)),
{
    v.push(b).is_ok()
}

/// Empties a buffer of 300.
///
/// Trusted: calls `heapless::Vec::clear`, which removes every byte.
#[verifier::external_body]
pub(crate) fn bytes300_clear(v: &mut heapless::Vec<u8, 300>)
    ensures
        bytes300(*final(v)).len() == 0,
{
    v.clear()
}

// ── 512-byte buffer ───────────────────────────────────────────────────────

/// The bytes a buffer of 512 holds.
pub uninterp spec fn bytes512(v: heapless::Vec<u8, 512>) -> Seq<u8>;

/// An empty buffer of 512.
///
/// Trusted: calls `heapless::Vec::new`, which holds nothing.
#[verifier::external_body]
pub(crate) fn bytes512_new() -> (r: heapless::Vec<u8, 512>)
    ensures
        bytes512(r).len() == 0,
{
    heapless::Vec::new()
}

/// The bytes of a buffer of 512.
///
/// Trusted: calls `heapless::Vec::as_slice`, which returns the bytes held,
/// at most 512.
#[verifier::external_body]
pub(crate) fn bytes512_slice(v: &heapless::Vec<u8, 512>) -> (r: &[u8])
    ensures
        r@ == bytes512(*v),
        r@.len() <= 512,
{
    v.as_slice()
}

/// Appends a byte to a buffer of 512, when there is room.
///
/// Trusted: calls `heapless::Vec::push`, which appends the byte and
/// succeeds while fewer than 512 are held, and otherwise fails and keeps the
/// buffer.
#[verifier::external_body]
pub(crate) fn bytes512_push(v: &mut heapless::Vec<u8, 512>, b: u8) -> (r: bool)
    ensures
        bytes512(*old(v)).len() < 512 ==> r && bytes512(*final(v)) == bytes512(*old(v)).push(b),
        bytes512(*old(v)).len() >= 512 ==> !r && bytes512(*final(v)) == bytes512(*old(v)),
{
    v.push(b).is_ok()
}

/// Empties a buffer of 512.
///
/// Trusted: calls `heapless::Vec::clear`, which removes every byte.
#[verifier::external_body]
pub(crate) fn bytes512_clear(v: &mut heapless::Vec<u8, 512>)
    ensures
        bytes512(*final(v)).len() == 0,
{
    v.clear()
}

// ── Frame list ────────────────────────────────────────────────────────────

/// The frames a list of at most four holds.
pub uninterp spec fn frames4(v: heapless::Vec<crate::gsm::cmux::CmuxFrame, 4>) -> Seq<
    crate::gsm::cmux::CmuxFrame,
>;

/// An empty list of at most four frames.
///
/// Trusted: calls `heapless::Vec::new`, which holds nothing.
#[verifier::external_body]
pub(crate) fn frames4_new() -> (r: heapless::Vec<crate::gsm::cmux::CmuxFrame, 4>)
    ensures
        frames4(r) == Seq::<crate::gsm::cmux::CmuxFrame>::empty(),
{
    heapless::Vec::new()
}

/// Appends a frame to a list of at most four, when there is room.
///
/// Trusted: calls `heapless::Vec::push`, which appends the item and
/// succeeds while fewer than four are held, and otherwise fails and keeps
/// the list.
#[verifier::external_body]
pub(crate) fn frames4_push(v: &mut heapless::Vec<crate::gsm::cmux::CmuxFrame, 4>, f: crate::gsm::cmux::CmuxFrame) -> (r: bool)
    ensures
        frames4(*old(v)).len() < 4 ==> r && frames4(*final(v)) == frames4(*old(v)).push(f),
        frames4(*old(v)).len() >= 4 ==> !r && frames4(*final(v)) == frames4(*old(v)),
{
    v.push(f).is_ok()
}

// ── Frame pair ────────────────────────────────────────────────────────────

/// The frames a list of at most two 300-byte frames holds.
pub uninterp spec fn frame_pair(v: heapless::Vec<heapless::Vec<u8, 300>, 2>) -> Seq<
    heapless::Vec<u8, 300>,
>;

/// An empty list of at most two frames.
///
/// Trusted: calls `heapless::Vec::new`, which holds nothing.
#[verifier::external_body]
pub(crate) fn frame_pair_new() -> (r: heapless::Vec<heapless::Vec<u8, 300>, 2>)
    ensures
        frame_pair(r).len() == 0,
{
    heapless::Vec::new()
}

/// Appends a frame to a list of at most two, when there is room.
///
/// Trusted: calls `heapless::Vec::push`, which appends the item and
/// succeeds while fewer than two are held, and otherwise fails and keeps
/// the list.
#[verifier::external_body]
pub(crate) fn frame_pair_push(v: &mut heapless::Vec<heapless::Vec<u8, 300>, 2>, f: heapless::Vec<u8, 300>) -> (r: bool)
    ensures
        frame_pair(*old(v)).len() < 2 ==> r && frame_pair(*final(v)) == frame_pair(*old(v)).push(f),
        frame_pair(*old(v)).len() >= 2 ==> !r && frame_pair(*final(v)) == frame_pair(*old(v)),
{
    v.push(f).is_ok()
}

} // verus!
