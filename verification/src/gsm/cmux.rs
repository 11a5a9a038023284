//! GSM 07.10 basic-mode multiplexer: frame encoder, frame parser and a
//! byte-at-a-time decoder.
//!
//! A frame is `F9 | address | control | length (1-2 bytes) | data | FCS | F9`.
//! The address holds EA=1, C/R=1 and the 6-bit DLCI; a one-byte length
//! holds EA=1 and 7 bits, a two-byte length EA=0 and 15 bits. Encoded
//! frames are limited to 300 bytes and parsed payloads to 256 bytes.

use vstd::prelude::*;

use crate::fixed::{
    bytes12, bytes12_of, bytes256, bytes256_of, bytes300, bytes300_clear, bytes300_of,
    bytes300_push, bytes300_slice, frames4, frames4_new, frames4_push,
};

verus! {

/// Frame delimiter.
pub const CMUX_FLAG: u8 = 0xF9;
/// Set asynchronous balanced mode (open a channel).
pub const SABM: u8 = 0x2F;
/// Unnumbered acknowledge.
pub const UA: u8 = 0x63;
/// Disconnected mode (refusal).
pub const DM: u8 = 0x0F;
/// Disconnect a channel.
pub const DISC: u8 = 0x43;
/// Unnumbered information with header check (data).
pub const UIH: u8 = 0xEF;
/// Unnumbered information.
pub const UI: u8 = 0x03;
/// Modem status command.
pub const MSC_CMD: u8 = 0xFD;
/// Modem status acknowledge.
pub const MSC_ACK: u8 = 0x73;
/// Flow-control bit of the modem status signals.
pub const FC_BIT: u8 = 0x02;
/// Ready-to-communicate bit.
pub const RTC_BIT: u8 = 0x04;
/// Ready-to-receive bit.
pub const RTR_BIT: u8 = 0x08;

/// Capacity of an encoded frame and of the decoder buffer.
pub const FRAME_CAPACITY: usize = 300;
/// Capacity of a parsed payload.
pub const PAYLOAD_CAPACITY: usize = 256;

/// A received frame.
#[derive(Debug)]
pub struct CmuxFrame {
    /// Channel (0 control, 1 AT commands, 2 PPP).
    pub dlci: u8,
    /// Frame type (SABM, UA, UIH, ...).
    pub control: u8,
    /// Payload.
    pub data: heapless::Vec<u8, 256>,
}

/// Well-known channels.
#[derive(Debug, Clone, Copy, PartialEq, Eq, Structural)]
pub enum Dlci {
    Control,
    AtCommands,
    PppData,
}

impl Dlci {
    /// The channel of a number 0, 1 or 2.
    pub fn from_u8(v: u8) -> (r: Option<Dlci>)
        ensures
            v == 0 ==> r == Some(Dlci::Control),
            v == 1 ==> r == Some(Dlci::AtCommands),
            v == 2 ==> r == Some(Dlci::PppData),
            v > 2 ==> r is None,
    {
        match v {
            0 => Some(Dlci::Control),
            1 => Some(Dlci::AtCommands),
            2 => Some(Dlci::PppData),
            _ => None,
        }
    }
}

// ── CRC-8, reflected, with a chosen polynomial ────────────────────────────

/// Reflected form of the frame check polynomial x^8 + x^2 + x + 1.
pub const FCS_POLY: u8 = 0xE0;

/// One shift of the reflected CRC-8 register with polynomial `p`.
pub open spec fn crc8_bit(c: u8, p: u8) -> u8 {
    if c & 1 != 0 {
        (c >> 1u8) ^ p
    } else {
        c >> 1u8
    }
}

/// `k` shifts of the CRC-8 register.
pub open spec fn crc8_bits(c: u8, k: nat, p: u8) -> u8
    decreases k,
{
    if k == 0 {
        c
    } else {
        crc8_bits(crc8_bit(c, p), (k - 1) as nat, p)
    }
}

/// The CRC-8 register after one more byte.
pub open spec fn crc8_byte(c: u8, b: u8, p: u8) -> u8 {
    crc8_bits(c ^ b, 8, p)
}

/// The CRC-8 register after the bytes `s`, starting from `init`.
pub open spec fn crc8_fold(init: u8, s: Seq<u8>, p: u8) -> u8
    decreases s.len(),
{
    if s.len() == 0 {
        init
    } else {
        crc8_byte(crc8_fold(init, s.drop_last(), p), s.last(), p)
    }
}

/// Frame check sequence of GSM 07.10: CRC-8 with polynomial
/// x^8 + x^2 + x + 1 (reflected 0xE0) from 0xFF, complemented.
pub open spec fn fcs_spec(s: Seq<u8>) -> u8 {
    !crc8_fold(0xFF, s, FCS_POLY)
}

/// Runs the CRC-8 register with polynomial `poly` over the bytes of
/// `data`, starting from `init`.
pub fn crc8_update(init: u8, data: &[u8], poly: u8) -> (r: u8)
    ensures
        r == crc8_fold(init, data@, poly),
{
    let mut crc = init;
    let mut i: usize = 0;
    while i < data.len()
        invariant
            i <= data@.len(),
            crc == crc8_fold(init, data@.take(i as int), poly),
        decreases data@.len() - i,
    {
        let ghost before = crc;
        crc = crc ^ data[i];
        let ghost start = crc;
        let mut k: u32 = 0;
        while k < 8
            invariant
                k <= 8,
                crc == crc8_bits(start, k as nat, poly),
            decreases 8 - k,
        {
            proof {
                lemma_crc8_bits_step(start, k as nat, poly);
            }
            if crc & 0x01 != 0 {
                crc = (crc >> 1) ^ poly;
            } else {
                crc = crc >> 1;
            }
            k = k + 1;
        }
        assert(data@.take(i + 1).drop_last() =~= data@.take(i as int));
        i = i + 1;
    }
    assert(data@.take(data@.len() as int) =~= data@);
    crc
}

proof fn lemma_crc8_bits_step(c: u8, k: nat, p: u8)
    ensures
        crc8_bits(c, k + 1, p) == crc8_bit(crc8_bits(c, k, p), p),
    decreases k,
{
    reveal_with_fuel(crc8_bits, 2);
    if k > 0 {
        lemma_crc8_bits_step(crc8_bit(c, p), (k - 1) as nat, p);
    }
}

/// Frame check sequence of `data` (see `fcs_spec`).
pub fn compute_fcs(data: &[u8]) -> (r: u8)
    ensures
        r == fcs_spec(data@),
{
    !crc8_update(0xFF, data, FCS_POLY)
}

// ── Encoding ──────────────────────────────────────────────────────────────

/// Address byte of a command frame: EA=1, C/R=1, DLCI in bits 2..7.
pub open spec fn addr_byte(dlci: u8) -> u8 {
    (3u8 | ((dlci & 0x3Fu8) << 2u8)) as u8
}

/// Length field of a payload of `n` bytes.
pub open spec fn len_field(n: nat) -> Seq<u8> {
    if n <= 127 {
        seq![(n * 2 + 1) as u8]
    } else {
        seq![((n % 128) * 2) as u8, ((n / 128) % 256) as u8]
    }
}

/// The bytes of a frame for `dlci`, `control` and `data`, as they fit in a
/// 300-byte buffer: a payload that does not fit is left out whole, and the
/// FCS and closing flag are dropped when there is no room for them.
pub open spec fn encode_spec(dlci: u8, control: u8, data: Seq<u8>) -> Seq<u8> {
    let addr = addr_byte(dlci);
    let head = seq![CMUX_FLAG, addr, control] + len_field(data.len());
    let body = if head.len() + data.len() <= FRAME_CAPACITY {
        head + data
    } else {
        head
    };
    let with_fcs = if body.len() < FRAME_CAPACITY {
        body.push(fcs_spec(seq![addr, control]))
    } else {
        body
    };
    if with_fcs.len() < FRAME_CAPACITY {
        with_fcs.push(CMUX_FLAG)
    } else {
        with_fcs
    }
}

/// Encodes a frame for sending.
pub fn encode_cmux_frame(dlci: u8, control: u8, data: &[u8]) -> (r: heapless::Vec<u8, 300>)
    ensures
        bytes300(r) == encode_spec(dlci, control, data@),
        bytes300(r).len() <= FRAME_CAPACITY,
{
    let mut frame: Vec<u8> = Vec::new();
    frame.push(CMUX_FLAG);
    let addr: u8 = 0x01 | 0x02 | ((dlci & 0x3F) << 2);
    proof {
        let d = dlci;
        assert(0x01u8 | 0x02u8 | ((d & 0x3F) << 2) == 3u8 | ((d & 0x3F) << 2)) by (bit_vector);
    }
    frame.push(addr);
    frame.push(control);
    let len = data.len();
    if len <= 0x7F {
        let l8 = len as u8;
        let b: u8 = (l8 << 1) | 0x01;
        proof {
            assert(l8 == len);
            assert(l8 <= 0x7F ==> (l8 << 1) | 1 == l8 * 2 + 1) by (bit_vector);
        }
        frame.push(b);
    } else {
        let b1: u8 = ((len as u8 & 0x7F) << 1) | 0x00;
        let b2: u8 = (len >> 7) as u8;
        proof {
            let l = len as u64;
            assert(((l as u8 & 0x7F) << 1) | 0 == ((l % 128) * 2) as u8) by (bit_vector);
            assert((l >> 7) as u8 == ((l / 128) % 256) as u8) by (bit_vector);
        }
        frame.push(b1);
        frame.push(b2);
    }
    let ghost head = frame@;
    assert(head =~= seq![CMUX_FLAG, addr_byte(dlci), control] + len_field(data@.len()));
    if data.len() <= FRAME_CAPACITY - frame.len() {
        let mut i: usize = 0;
        while i < data.len()
            invariant
                i <= data@.len(),
                frame@ == head + data@.take(i as int),
            decreases data@.len() - i,
        {
            frame.push(data[i]);
            assert(frame@ =~= head + data@.take(i + 1));
            i = i + 1;
        }
        assert(data@.take(data@.len() as int) =~= data@);
    }
    let fcs = compute_fcs(&[addr, control]);
    assert([addr, control]@ =~= seq![addr, control]);
    if frame.len() < FRAME_CAPACITY {
        frame.push(fcs);
    }
    if frame.len() < FRAME_CAPACITY {
        frame.push(CMUX_FLAG);
    }
    bytes300_of(frame.as_slice())
}

/// Signal byte of a modem-status command: EA, then FC (bit 1) when flow
/// control stops the channel, RTC and RTR always set.
pub open spec fn msc_signals(fc_on: bool) -> u8 {
    if fc_on {
        0x0Fu8
    } else {
        0x0Du8
    }
}

/// Modem-status command payload for `dlci`: `FD, address, 01, signals`,
/// the signals holding FC = `fc_on` with RTC, RTR and EA set.
pub fn encode_msc_set(dlci: u8, fc_on: bool) -> (r: heapless::Vec<u8, 12>)
    ensures
        bytes12(r) == seq![MSC_CMD, addr_byte(dlci), 0x01u8, msc_signals(fc_on)],
        ((msc_signals(fc_on) & FC_BIT) != 0) == fc_on,
        msc_signals(fc_on) & (RTC_BIT | RTR_BIT) == RTC_BIT | RTR_BIT,
        msc_signals(fc_on) & 0x01 == 0x01,
{
    let mut msc: Vec<u8> = Vec::new();
    msc.push(MSC_CMD);
    msc.push(((dlci & 0x3F) << 2) | 0x01 | 0x02);
    msc.push(0x01);
    let fc: u8 = if fc_on {
        FC_BIT
    } else {
        0
    };
    msc.push(0x01 | fc | RTC_BIT | RTR_BIT);
    proof {
        assert((0x01u8 | 0x02u8 | 0x04u8 | 0x08u8) == 0x0Fu8) by (bit_vector);
        assert((0x01u8 | 0x00u8 | 0x04u8 | 0x08u8) == 0x0Du8) by (bit_vector);
        assert((0x0Fu8 & 0x02u8) != 0 && (0x0Du8 & 0x02u8) == 0) by (bit_vector);
        assert((0x0Fu8 & (0x04u8 | 0x08u8)) == (0x04u8 | 0x08u8) && (0x0Du8 & (0x04u8
            | 0x08u8)) == (0x04u8 | 0x08u8)) by (bit_vector);
        assert((0x0Fu8 & 0x01u8) == 0x01u8 && (0x0Du8 & 0x01u8) == 0x01u8) by (bit_vector);
        let d = dlci;
        assert(((d & 0x3F) << 2) | 0x01 | 0x02 == 3u8 | ((d & 0x3F) << 2)) by (bit_vector);
    }
    assert(msc@ =~= seq![MSC_CMD, addr_byte(dlci), 0x01u8, msc_signals(fc_on)]);
    bytes12_of(msc.as_slice())
}

/// SABM frame for `dlci`.
pub fn encode_sabm(dlci: u8) -> (r: heapless::Vec<u8, 300>)
    ensures
        bytes300(r) == encode_spec(dlci, SABM, Seq::empty()),
{
    encode_cmux_frame(dlci, SABM, &[])
}

/// UA frame for `dlci`.
pub fn encode_ua(dlci: u8) -> (r: heapless::Vec<u8, 300>)
    ensures
        bytes300(r) == encode_spec(dlci, UA, Seq::empty()),
{
    encode_cmux_frame(dlci, UA, &[])
}

/// DISC frame for `dlci`.
pub fn encode_disc(dlci: u8) -> (r: heapless::Vec<u8, 300>)
    ensures
        bytes300(r) == encode_spec(dlci, DISC, Seq::empty()),
{
    encode_cmux_frame(dlci, DISC, &[])
}

/// DM frame for `dlci`.
pub fn encode_dm(dlci: u8) -> (r: heapless::Vec<u8, 300>)
    ensures
        bytes300(r) == encode_spec(dlci, DM, Seq::empty()),
{
    encode_cmux_frame(dlci, DM, &[])
}

// ── Parsing ───────────────────────────────────────────────────────────────

/// The plain values of a frame: channel, frame type and payload.
pub open spec fn frame_view(f: CmuxFrame) -> (u8, u8, Seq<u8>) {
    (f.dlci, f.control, bytes256(f.data))
}

/// Header length of a frame body whose length byte is `lb`.
pub open spec fn spec_header_len(lb: u8) -> int {
    if lb & 1 == 0 {
        4
    } else {
        3
    }
}

/// Payload length announced by a frame body `raw`.
pub open spec fn spec_data_len(raw: Seq<u8>) -> int {
    if raw[2] & 1 == 0 {
        (raw[2] / 2) as int + raw[3] as int * 128
    } else {
        (raw[2] / 2) as int
    }
}

/// The frame in `raw` (the bytes between two flags), if it is complete:
/// channel from address bits 2..7, the control byte, and the payload of the
/// announced length (empty when the announced length exceeds 256 bytes).
/// The check sequence is not verified and bytes after it are ignored.
pub open spec fn parse_spec(raw: Seq<u8>) -> Option<(u8, u8, Seq<u8>)> {
    if raw.len() < 3 {
        None
    } else if raw[2] & 1 == 0 && raw.len() < 4 {
        None
    } else if raw.len() < spec_header_len(raw[2]) + spec_data_len(raw) + 1 {
        None
    } else {
        Some(
            (
                (raw[0] >> 2u8) & 0x3Fu8,
                raw[1],
                if spec_data_len(raw) <= PAYLOAD_CAPACITY {
                    raw.subrange(spec_header_len(raw[2]), spec_header_len(raw[2]) + spec_data_len(raw))
                } else {
                    Seq::empty()
                },
            ),
        )
    }
}

/// Parses the bytes of one frame without its flags.
pub fn parse_cmux_frame(raw: &[u8]) -> (r: Option<CmuxFrame>)
    ensures
        match r {
            Some(f) => parse_spec(raw@) == Some(frame_view(f)),
            None => parse_spec(raw@) is None,
        },
{
    if raw.len() < 3 {
        return None;
    }
    let addr = raw[0];
    let dlci = (addr >> 2) & 0x3F;
    let control = raw[1];
    let len_byte = raw[2];
    let ea = len_byte & 0x01;
    let mut data_len: usize = (len_byte >> 1) as usize;
    let mut header_len: usize = 3;
    proof {
        let lb = len_byte;
        assert(lb >> 1 == lb / 2) by (bit_vector);
        assert((lb & 1 == 0) == (lb & 0x01 == 0));
    }
    if ea == 0 {
        if raw.len() < 4 {
            return None;
        }
        let hi = raw[3] as usize;
        proof {
            let lo = data_len;
            let h = hi;
            assert(lo < 128 && h < 256 ==> lo | (h << 7) == lo + h * 128) by (bit_vector);
        }
        data_len = data_len | (hi << 7);
        header_len = 4;
    }
    assert(header_len as int == spec_header_len(raw@[2]));
    assert(data_len as int == spec_data_len(raw@));
    assert(data_len < 40000);
    if raw.len() - header_len < data_len + 1 {
        return None;
    }
    let mut data: Vec<u8> = Vec::new();
    if data_len > 0 && data_len <= PAYLOAD_CAPACITY {
        let start = header_len;
        let rl = raw.len();
        let mut i: usize = 0;
        while i < data_len
            invariant
                i <= data_len,
                start + data_len <= raw@.len(),
                start == header_len,
                header_len <= 4,
                rl == raw@.len(),
                data@ == raw@.subrange(start as int, start + i),
            decreases data_len - i,
        {
            assert(start + i < rl);
            let b = raw[start + i];
            data.push(b);
            assert(data@ =~= raw@.subrange(start as int, start + i + 1));
            i = i + 1;
        }
    }
    assert(data_len == 0 ==> data@ =~= raw@.subrange(header_len as int, header_len as int));
    assert(data@.len() <= PAYLOAD_CAPACITY);
    Some(CmuxFrame { dlci, control, data: bytes256_of(data.as_slice()) })
}

// ── Byte-at-a-time decoder ────────────────────────────────────────────────

/// Phase of the decoder.
#[derive(Debug, Clone, Copy, PartialEq, Eq, Structural)]
pub enum DecoderState {
    /// Waiting for an opening flag.
    Idle,
    /// Collecting the bytes of a frame.
    InFrame,
}

/// The decoder after one byte `b`, from phase `st` with collected bytes
/// `cur`, and the frame completed by the byte, if any.
///
/// A flag opens a frame; inside a frame a flag closes it (an empty frame is
/// skipped) and other bytes are collected; a frame longer than 300 bytes is
/// abandoned.
pub open spec fn feed_spec(st: DecoderState, cur: Seq<u8>, b: u8) -> (
    DecoderState,
    Seq<u8>,
    Option<(u8, u8, Seq<u8>)>,
) {
    match st {
        DecoderState::Idle => {
            if b == CMUX_FLAG {
                (DecoderState::InFrame, Seq::empty(), None)
            } else {
                (st, cur, None)
            }
        },
        DecoderState::InFrame => {
            if b == CMUX_FLAG {
                if cur.len() > 0 {
                    (DecoderState::Idle, cur, parse_spec(cur))
                } else {
                    (DecoderState::Idle, cur, None)
                }
            } else if cur.len() < FRAME_CAPACITY {
                (st, cur.push(b), None)
            } else {
                (DecoderState::Idle, cur, None)
            }
        },
    }
}

/// The decoder after the bytes `bytes`, and every frame completed on the
/// way, in order.
pub open spec fn feed_all(st: DecoderState, cur: Seq<u8>, bytes: Seq<u8>) -> (
    DecoderState,
    Seq<u8>,
    Seq<(u8, u8, Seq<u8>)>,
)
    decreases bytes.len(),
{
    if bytes.len() == 0 {
        (st, cur, Seq::empty())
    } else {
        let prev = feed_all(st, cur, bytes.drop_last());
        let next = feed_spec(prev.0, prev.1, bytes.last());
        (
            next.0,
            next.1,
            match next.2 {
                Some(f) => prev.2.push(f),
                None => prev.2,
            },
        )
    }
}

/// Byte-at-a-time frame decoder for the receive side of the UART.
pub struct CmuxDecoder {
    state: DecoderState,
    current: heapless::Vec<u8, 300>,
}

impl CmuxDecoder {
    /// The collected bytes fit the 300-byte buffer.
    pub closed spec fn wf(self) -> bool {
        bytes300(self.current).len() <= FRAME_CAPACITY
    }

    /// Phase of the decoder.
    pub closed spec fn phase(self) -> DecoderState {
        self.state
    }

    /// Bytes collected for the frame in progress.
    pub closed spec fn collected(self) -> Seq<u8> {
        bytes300(self.current)
    }

    /// A decoder waiting for a frame.
    pub fn new() -> (r: CmuxDecoder)
        ensures
            r.wf(),
            r.phase() == DecoderState::Idle,
            r.collected() == Seq::<u8>::empty(),
    {
        CmuxDecoder { state: DecoderState::Idle, current: bytes300_of(&[]) }
    }

    /// Feeds one received byte; returns the frame it completes, if any.
    pub fn feed_byte(&mut self, byte: u8) -> (r: Option<CmuxFrame>)
        requires
            old(self).wf(),
        ensures
            final(self).wf(),
            ({
                let n = feed_spec(old(self).phase(), old(self).collected(), byte);
                &&& final(self).phase() == n.0
                &&& final(self).collected() == n.1
                &&& match r {
                    Some(f) => n.2 == Some(frame_view(f)),
                    None => n.2 is None,
                }
            }),
    {
        match self.state {
            DecoderState::Idle => {
                if byte == CMUX_FLAG {
                    self.state = DecoderState::InFrame;
                    bytes300_clear(&mut self.current);
                }
                None
            },
            DecoderState::InFrame => {
                if byte == CMUX_FLAG {
                    let cur = bytes300_slice(&self.current);
                    if cur.len() > 0 {
                        let result = parse_cmux_frame(cur);
                        self.state = DecoderState::Idle;
                        return result;
                    }
                    self.state = DecoderState::Idle;
                } else {
                    if bytes300_slice(&self.current).len() < FRAME_CAPACITY {
                        let _ = bytes300_push(&mut self.current, byte);
                    } else {
                        self.state = DecoderState::Idle;
                    }
                }
                None
            },
        }
    }

    /// Feeds a run of received bytes; returns the first four frames they
    /// complete (further frames are dropped).
    pub fn feed_slice(&mut self, bytes: &[u8]) -> (r: heapless::Vec<CmuxFrame, 4>)
        requires
            old(self).wf(),
        ensures
            final(self).wf(),
            ({
                let n = feed_all(old(self).phase(), old(self).collected(), bytes@);
                &&& final(self).phase() == n.0
                &&& final(self).collected() == n.1
                &&& frames4(r).len() == if n.2.len() < 4 {
                    n.2.len() as int
                } else {
                    4
                }
                &&& forall|i: int|
                    0 <= i < frames4(r).len() ==> frame_view(#[trigger] frames4(r)[i]) == n.2[i]
            }),
    {
        let ghost st0 = self.phase();
        let ghost cur0 = self.collected();
        let mut frames = frames4_new();
        let mut i: usize = 0;
        while i < bytes.len()
            invariant
                i <= bytes@.len(),
                self.wf(),
                ({
                    let n = feed_all(st0, cur0, bytes@.take(i as int));
                    &&& self.phase() == n.0
                    &&& self.collected() == n.1
                    &&& frames4(frames).len() == if n.2.len() < 4 {
                        n.2.len() as int
                    } else {
                        4
                    }
                    &&& forall|j: int|
                        0 <= j < frames4(frames).len() ==> frame_view(#[trigger] frames4(frames)[j])
                            == n.2[j]
                }),
            decreases bytes@.len() - i,
        {
            assert(bytes@.take(i + 1).drop_last() =~= bytes@.take(i as int));
            if let Some(frame) = self.feed_byte(bytes[i]) {
                let _ = frames4_push(&mut frames, frame);
            }
            i = i + 1;
        }
        assert(bytes@.take(bytes@.len() as int) =~= bytes@);
        frames
    }
}

// ── Multiplexer start-up ──────────────────────────────────────────────────

/// Progress of opening channels 0, 1 and 2.
pub struct CmuxInitState {
    /// Number of acknowledgements received.
    pub stage: u8,
    /// Which of channels 0..2 are acknowledged.
    pub dlci_established: [bool; 3],
}

impl CmuxInitState {
    /// Nothing opened yet.
    pub fn new() -> (r: CmuxInitState)
        ensures
            r.stage == 0,
            r.dlci_established@ == seq![false, false, false],
    {
        let r = CmuxInitState { stage: 0, dlci_established: [false, false, false] };
        assert(r.dlci_established@ =~= seq![false, false, false]);
        r
    }

    /// Takes a frame received while opening channels: an acknowledgement
    /// marks its channel (when below 3) and advances the stage; returns
    /// whether channels 0, 1 and 2 are all open.
    pub fn process_frame(&mut self, frame: &CmuxFrame) -> (r: bool)
        requires
            frame.control == UA ==> old(self).stage < 255,
        ensures
            final(self).stage == if frame.control == UA {
                (old(self).stage + 1) as u8
            } else {
                old(self).stage
            },
            final(self).dlci_established@ == if frame.control == UA && frame.dlci < 3 {
                old(self).dlci_established@.update(frame.dlci as int, true)
            } else {
                old(self).dlci_established@
            },
            r == (final(self).dlci_established[0] && final(self).dlci_established[1]
                && final(self).dlci_established[2]),
    {
        if frame.control == UA {
            if frame.dlci < 3 {
                self.dlci_established[frame.dlci as usize] = true;
            }
            self.stage = self.stage + 1;
        }
        self.dlci_established[0] && self.dlci_established[1] && self.dlci_established[2]
    }

    /// The SABM frame for the first channel, in order 0, 1, 2, not yet
    /// acknowledged; none when all three are open.
    pub fn next_sabm(&self) -> (r: Option<heapless::Vec<u8, 300>>)
        ensures
            match r {
                Some(f) => exists|d: u8|
                    d < 3 && !self.dlci_established[d as int] && (forall|e: int|
                        0 <= e < d ==> self.dlci_established[e]) && #[trigger] bytes300(f)
                        == encode_spec(d, SABM, Seq::empty()),
                None => self.dlci_established[0] && self.dlci_established[1]
                    && self.dlci_established[2],
            },
    {
        if !self.dlci_established[0] {
            let f = encode_sabm(0);
            assert(bytes300(f) == encode_spec(0u8, SABM, Seq::empty()));
            Some(f)
        } else if !self.dlci_established[1] {
            let f = encode_sabm(1);
            assert(bytes300(f) == encode_spec(1u8, SABM, Seq::empty()));
            Some(f)
        } else if !self.dlci_established[2] {
            let f = encode_sabm(2);
            assert(bytes300(f) == encode_spec(2u8, SABM, Seq::empty()));
            Some(f)
        } else {
            None
        }
    }
}

// ── Laws of the frame format ──────────────────────────────────────────────

/// The bytes of an encoded frame between its two flags.
pub open spec fn frame_body(dlci: u8, control: u8, data: Seq<u8>) -> Seq<u8> {
    let e = encode_spec(dlci, control, data);
    e.subrange(1, e.len() - 1)
}

proof fn lemma_len_field(d: nat)
    requires
        d <= PAYLOAD_CAPACITY,
    ensures
        len_field(d).len() == if d <= 127 {
            1int
        } else {
            2int
        },
        (len_field(d)[0] & 1 == 0) == (d > 127),
        spec_header_len(len_field(d)[0]) == 2 + len_field(d).len(),
        d <= 127 ==> (len_field(d)[0] / 2) as int == d,
        d > 127 ==> (len_field(d)[0] / 2) as int + len_field(d)[1] as int * 128 == d,
{
    if d <= 127 {
        let b = (d * 2 + 1) as u8;
        assert(b == d * 2 + 1);
        assert(b & 1 == b % 2) by (bit_vector);
    } else {
        let b = ((d % 128) * 2) as u8;
        assert(b == (d % 128) * 2);
        assert(b & 1 == b % 2) by (bit_vector);
        assert(((d / 128) % 256) as u8 == d / 128);
    }
}

/// Parsing the body of an encoded frame gives back its channel (below 64),
/// frame type and payload, for payloads of at most 256 bytes.
pub proof fn lemma_parse_encoded(dlci: u8, control: u8, data: Seq<u8>)
    requires
        dlci < 64,
        data.len() <= PAYLOAD_CAPACITY,
    ensures
        parse_spec(frame_body(dlci, control, data)) == Some((dlci, control, data)),
{
    let addr = addr_byte(dlci);
    let lf = len_field(data.len());
    lemma_len_field(data.len());
    let e = encode_spec(dlci, control, data);
    let head = seq![CMUX_FLAG, addr, control] + lf;
    assert(e == (head + data).push(fcs_spec(seq![addr, control])).push(CMUX_FLAG));
    let raw = frame_body(dlci, control, data);
    assert(raw =~= seq![addr, control] + lf + data + seq![fcs_spec(seq![addr, control])]);
    assert(((3u8 | ((dlci & 0x3Fu8) << 2u8)) >> 2u8) & 0x3Fu8 == dlci & 0x3Fu8) by (bit_vector);
    assert(dlci < 64 ==> dlci & 0x3Fu8 == dlci) by (bit_vector);
    assert(raw[2] == lf[0]);
    if data.len() > 127 {
        assert(raw[3] == lf[1]);
    }
    assert(spec_data_len(raw) == data.len());
    let hl = spec_header_len(raw[2]);
    assert(raw.subrange(hl, hl + data.len()) =~= data);
}

/// From any byte run `x` then `y`, the decoder ends where `y` takes it from
/// where `x` left it, and reports the frames of `x` then those of `y`.
pub proof fn lemma_feed_all_append(st: DecoderState, cur: Seq<u8>, x: Seq<u8>, y: Seq<u8>)
    ensures
        ({
            let a = feed_all(st, cur, x);
            let b = feed_all(a.0, a.1, y);
            feed_all(st, cur, x + y) == (b.0, b.1, a.2 + b.2)
        }),
    decreases y.len(),
{
    if y.len() == 0 {
        assert(x + y =~= x);
        let a = feed_all(st, cur, x);
        assert(a.2 + Seq::<(u8, u8, Seq<u8>)>::empty() =~= a.2);
    } else {
        lemma_feed_all_append(st, cur, x, y.drop_last());
        assert((x + y).drop_last() =~= x + y.drop_last());
        assert((x + y).last() == y.last());
        let a = feed_all(st, cur, x);
        let b0 = feed_all(a.0, a.1, y.drop_last());
        let n = feed_spec(b0.0, b0.1, y.last());
        match n.2 {
            Some(f) => {
                assert(a.2 + b0.2.push(f) =~= (a.2 + b0.2).push(f));
            },
            None => {},
        }
    }
}

/// Inside a frame, bytes other than the flag are collected while they fit.
pub proof fn lemma_collect(cur: Seq<u8>, w: Seq<u8>)
    requires
        cur.len() + w.len() <= FRAME_CAPACITY,
        forall|i: int| 0 <= i < w.len() ==> w[i] != CMUX_FLAG,
    ensures
        feed_all(DecoderState::InFrame, cur, w) == (DecoderState::InFrame, cur + w, Seq::<
            (u8, u8, Seq<u8>),
        >::empty()),
    decreases w.len(),
{
    if w.len() == 0 {
        assert(cur + w =~= cur);
    } else {
        lemma_collect(cur, w.drop_last());
        assert((cur + w.drop_last()).push(w.last()) =~= cur + w);
    }
}

/// A decoder waiting for a frame, fed the bytes of an encoded frame whose
/// body holds no flag byte, reports exactly that frame and waits again.
pub proof fn lemma_decode_encoded(cur: Seq<u8>, dlci: u8, control: u8, data: Seq<u8>)
    requires
        dlci < 64,
        data.len() <= PAYLOAD_CAPACITY,
        forall|i: int|
            0 <= i < frame_body(dlci, control, data).len() ==> frame_body(dlci, control, data)[i]
                != CMUX_FLAG,
    ensures
        ({
            let r = feed_all(DecoderState::Idle, cur, encode_spec(dlci, control, data));
            r.0 == DecoderState::Idle && r.2 == seq![(dlci, control, data)]
        }),
{
    reveal_with_fuel(feed_all, 2);
    let e = encode_spec(dlci, control, data);
    let body = frame_body(dlci, control, data);
    lemma_len_field(data.len());
    assert(e.len() == body.len() + 2);
    assert(e =~= seq![CMUX_FLAG] + body + seq![CMUX_FLAG]);
    lemma_parse_encoded(dlci, control, data);
    let first = seq![CMUX_FLAG];
    assert(first.drop_last() =~= Seq::<u8>::empty());
    let a = feed_all(DecoderState::Idle, cur, first);
    assert(a == (DecoderState::InFrame, Seq::<u8>::empty(), Seq::<(u8, u8, Seq<u8>)>::empty()));
    lemma_collect(Seq::empty(), body);
    assert(Seq::<u8>::empty() + body =~= body);
    lemma_feed_all_append(DecoderState::Idle, cur, first, body);
    let b = feed_all(DecoderState::Idle, cur, first + body);
    assert(b.0 == DecoderState::InFrame && b.1 == body);
    assert(b.2 =~= Seq::<(u8, u8, Seq<u8>)>::empty());
    let last = seq![CMUX_FLAG];
    assert(last.drop_last() =~= Seq::<u8>::empty());
    lemma_feed_all_append(DecoderState::Idle, cur, first + body, last);
    assert(first + body + last =~= e);
    let c = feed_all(b.0, b.1, last);
    assert(body.len() > 0);
    assert(c.2 =~= seq![(dlci, control, data)]);
    assert(b.2 + c.2 =~= seq![(dlci, control, data)]);
}

} // verus!
