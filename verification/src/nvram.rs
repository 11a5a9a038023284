//! Working state in the 24C08 I2C EEPROM, with wear levelling.
//!
//! The 1024-byte EEPROM is split into four sectors of 256 bytes. The state
//! record (see `crate::record`) takes more than one sector, so a save uses
//! a slot of two sectors: slots start at sectors 0 and 2 and are used in
//! turn. A slot starts with a two-byte marker (0xBABE when valid) and a
//! two-byte CRC, followed by the state record. Each save goes to the other
//! slot and then clears the marker of the previous one. The application
//! moves the bytes over I2C; this module decides addresses, what to write
//! and what to accept.

use vstd::prelude::*;

use crate::config::{EEPROM_I2C_ADDR, EEPROM_PAGE_SIZE, STATE_PERSIST_DEBOUNCE_S, STATE_VERSION};
use crate::error::NvramError;
use crate::flash::{crc16, crc16_spec};
use crate::record::{decode_state, encode_state, lemma_record_round_trip, state_at, state_bytes, STATE_RECORD_LEN};
use crate::state::{PersistReason, VendingStateData};

verus! {

/// I2C address of the EEPROM.
pub const EEPROM_ADDR: u8 = 0x50;
/// EEPROM size, in bytes.
pub const EEPROM_TOTAL_SIZE: u16 = 1024;
/// Sectors used in turn.
pub const NVRAM_SECTORS: usize = 4;
/// Sector size, in bytes.
pub const NVRAM_SECTOR_SIZE: u16 = 256;
/// Marker of a valid sector.
pub const NVRAM_SECTOR_MAGIC: u16 = 0xBABE;
/// Offset of the state record in a sector.
pub const STATE_OFFSET_IN_SECTOR: u16 = 4;
/// Sectors one state slot takes: the header and the record run on from a
/// slot's first sector into the next.
pub const SLOT_SECTORS: u8 = 2;
/// Largest state record a slot holds after its 4-byte header.
pub const STATE_RECORD_MAX: usize = 508;

/// First sector of the slot a save after the slot at `sector` goes to:
/// slots start at sectors 0 and 2 and are used in turn.
pub open spec fn next_slot_spec(sector: int) -> int {
    if sector < 2 {
        2
    } else {
        0
    }
}

/// The slot after the one at `sector` (see `next_slot_spec`).
pub fn next_slot(sector: u8) -> (r: u8)
    requires
        sector < NVRAM_SECTORS,
    ensures
        r == next_slot_spec(sector as int),
        r == 0 || r == 2,
{
    if sector < SLOT_SECTORS {
        SLOT_SECTORS
    } else {
        0
    }
}

/// I2C device address and word address of EEPROM byte `mem_addr`: the two
/// high address bits go into the device address.
pub fn eeprom_address(mem_addr: u16) -> (r: (u8, u8))
    ensures
        r.0 == (EEPROM_I2C_ADDR | (((mem_addr >> 8u16) as u8) & 0x03u8)),
        r.1 == (mem_addr & 0xFF) as u8,
{
    let device_addr = EEPROM_ADDR | (((mem_addr >> 8) as u8) & 0x03);
    let word_addr = (mem_addr & 0xFF) as u8;
    (device_addr, word_addr)
}

/// The sector searched first. Sectors are not scanned for their markers
/// yet: always sector 0.
pub fn find_active_sector() -> (r: u8)
    ensures
        r == 0,
{
    0
}

/// The sector after `sector`, wrapping after the last.
pub fn next_sector(sector: u8) -> (r: u8)
    requires
        sector < u8::MAX,
    ensures
        r == (sector + 1) % NVRAM_SECTORS as int,
{
    (sector + 1) % NVRAM_SECTORS as u8
}

/// First EEPROM address of sector `sector`.
pub fn sector_base_addr(sector: u8) -> (r: u16)
    ensures
        r == sector * 256,
{
    (sector as u16) * NVRAM_SECTOR_SIZE
}

/// The sector read at attempt `attempt` of a load starting at `start`.
pub fn load_sector(start: u8, attempt: usize) -> (r: u8)
    requires
        attempt < NVRAM_SECTORS,
    ensures
        r == (start + attempt) % NVRAM_SECTORS as int,
{
    ((start as usize + attempt) % NVRAM_SECTORS) as u8
}

/// Little-endian 16-bit value of two bytes.
pub open spec fn le16(lo: u8, hi: u8) -> u16 {
    (lo as u16 | ((hi as u16) << 8u16)) as u16
}

fn u16_from_le(lo: u8, hi: u8) -> (r: u16)
    ensures
        r == le16(lo, hi),
{
    (lo as u16) | ((hi as u16) << 8)
}

/// A sector's record is accepted: its marker is valid and the CRC-16 of
/// the record bytes equals the stored CRC.
pub open spec fn record_ok(header: Seq<u8>, data: Seq<u8>) -> bool {
    &&& le16(header[0], header[1]) == NVRAM_SECTOR_MAGIC
    &&& crc16_spec(data) == le16(header[2], header[3])
}

/// The marker (bytes 0..2) of a sector header is valid.
pub fn header_has_magic(header: &[u8; 4]) -> (r: bool)
    ensures
        r == (le16(header[0], header[1]) == NVRAM_SECTOR_MAGIC),
{
    u16_from_le(header[0], header[1]) == NVRAM_SECTOR_MAGIC
}

/// A sector's header and record bytes are accepted (see `record_ok`).
pub fn sector_record_ok(header: &[u8; 4], data: &[u8]) -> (r: bool)
    ensures
        r == record_ok(header@, data@),
{
    if !header_has_magic(header) {
        return false;
    }
    let crc = u16_from_le(header[2], header[3]);
    crc16(data) == crc
}

/// An accepted record of a newer layout is refused.
pub fn check_state_version(state: VendingStateData) -> (r: Result<VendingStateData, NvramError>)
    ensures
        state.version > STATE_VERSION ==> r == Err::<VendingStateData, NvramError>(
            NvramError::CrcMismatch,
        ),
        state.version <= STATE_VERSION ==> r == Ok::<VendingStateData, NvramError>(state),
{
    if state.version > STATE_VERSION {
        Err(NvramError::CrcMismatch)
    } else {
        Ok(state)
    }
}

/// The working state to start with, given the outcome of loading it: the
/// loaded state, or a fresh state when loading failed.
pub fn load_state_default(loaded: Result<VendingStateData, NvramError>) -> (r: VendingStateData)
    ensures
        loaded is Ok ==> r == loaded->Ok_0,
        loaded is Err ==> r.is_fresh(),
{
    match loaded {
        Ok(state) => state,
        Err(_) => VendingStateData::default(),
    }
}

// ── Saving ────────────────────────────────────────────────────────────────

/// One EEPROM write (each is followed by the 5 ms write cycle).
#[derive(Debug, Clone, Copy)]
pub enum EepromWrite {
    /// One byte at `addr`.
    Byte { addr: u16, data: u8 },
    /// One 8-byte page starting at `addr`.
    Page { addr: u16, bytes: [u8; 8] },
}

/// Plain view of a write: the address and the bytes written from it.
pub open spec fn write_view(w: EepromWrite) -> (int, Seq<u8>) {
    match w {
        EepromWrite::Byte { addr, data } => (addr as int, seq![data]),
        EepromWrite::Page { addr, bytes } => (addr as int, bytes@),
    }
}

/// Plain views of a list of writes.
pub open spec fn writes_view(w: Seq<EepromWrite>) -> Seq<(int, Seq<u8>)> {
    w.map_values(|x: EepromWrite| write_view(x))
}

/// The bytes of `s` written one by one from `addr`.
pub open spec fn byte_writes(addr: int, s: Seq<u8>) -> Seq<(int, Seq<u8>)>
    decreases s.len(),
{
    if s.len() == 0 {
        seq![]
    } else {
        seq![(addr, seq![s[0]])] + byte_writes(addr + 1, s.drop_first())
    }
}

/// The record bytes `s` written from `addr`: whole pages of 8 bytes, then
/// the bytes of a last partial page one by one.
pub open spec fn record_writes(addr: int, s: Seq<u8>) -> Seq<(int, Seq<u8>)>
    decreases s.len(),
{
    if s.len() >= 8 {
        seq![(addr, s.take(8))] + record_writes(addr + 8, s.skip(8))
    } else {
        byte_writes(addr, s)
    }
}

/// The writes of a save into the slot after the one at `old_sector`: the
/// CRC of the record into the slot's bytes 2 and 3, the record from offset
/// 4, the marker into the first two bytes, then the old sector's marker
/// cleared.
pub open spec fn save_writes(old_sector: u8, record: Seq<u8>) -> Seq<(int, Seq<u8>)> {
    let nb = next_slot_spec(old_sector as int) * 256;
    let ob = old_sector * 256;
    let crc = crc16_spec(record);
    seq![(nb + 2, seq![(crc & 0xFF) as u8]), (nb + 3, seq![(crc >> 8u16) as u8])] + record_writes(
        nb + 4,
        record,
    ) + seq![(nb, seq![0xBEu8]), (nb + 1, seq![0xBAu8]), (ob, seq![0u8]), (ob + 1, seq![0u8])]
}

fn push_write(v: &mut Vec<EepromWrite>, w: EepromWrite)
    ensures
        final(v)@ == old(v)@.push(w),
{
    v.push(w);
}

/// Plans a save of the record bytes `record` after the slot at sector
/// `old_sector`: the new slot's first sector and the writes, in order (see
/// `save_writes`). A record longer than a slot holds after its header is
/// refused (`WriteFailed`): a save never writes outside its slot.
pub fn save_plan(old_sector: u8, record: &[u8]) -> (r: Result<(u8, Vec<EepromWrite>), NvramError>)
    requires
        old_sector < NVRAM_SECTORS,
    ensures
        record@.len() > STATE_RECORD_MAX ==> r == Err::<(u8, Vec<EepromWrite>), NvramError>(
            NvramError::WriteFailed,
        ),
        record@.len() <= STATE_RECORD_MAX ==> {
            &&& r is Ok
            &&& r->Ok_0.0 == next_slot_spec(old_sector as int)
            &&& writes_view(r->Ok_0.1@) == save_writes(old_sector, record@)
        },
{
    if record.len() > STATE_RECORD_MAX {
        return Err(NvramError::WriteFailed);
    }
    let new_sector = next_slot(old_sector);
    let new_base = sector_base_addr(new_sector);
    let crc = crc16(record);
    let mut w: Vec<EepromWrite> = Vec::new();
    push_write(&mut w, EepromWrite::Byte { addr: new_base + 2, data: (crc & 0xFF) as u8 });
    push_write(&mut w, EepromWrite::Byte { addr: new_base + 3, data: (crc >> 8) as u8 });
    let ghost head = writes_view(w@);
    let data_base = new_base + STATE_OFFSET_IN_SECTOR;
    let len = record.len() as u16;
    let mut offset: u16 = 0;
    assert(record@.skip(0) =~= record@);
    while offset < len
        invariant
            len == record@.len(),
            len <= STATE_RECORD_MAX,
            offset <= len + 7,
            offset % 8 == 0,
            data_base as int == next_slot_spec(old_sector as int) * 256 + 4,
            offset < len ==> writes_view(w@) + record_writes(
                data_base + offset,
                record@.skip(offset as int),
            ) == head + record_writes(data_base as int, record@),
            offset >= len ==> writes_view(w@) == head + record_writes(data_base as int, record@),
        decreases len + 8 - offset,
    {
        let remaining = len - offset;
        let ghost rest = record@.skip(offset as int);
        if remaining >= EEPROM_PAGE_SIZE as u16 {
            let o = offset as usize;
            let page: [u8; 8] = [
                record[o],
                record[o + 1],
                record[o + 2],
                record[o + 3],
                record[o + 4],
                record[o + 5],
                record[o + 6],
                record[o + 7],
            ];
            assert(page@ =~= rest.take(8));
            let ghost before = writes_view(w@);
            push_write(&mut w, EepromWrite::Page { addr: data_base + offset, bytes: page });
            proof {
                assert(writes_view(w@) =~= before + seq![(data_base + offset, rest.take(8))]);
                assert(rest.skip(8) =~= record@.skip(offset + 8));
                if offset + 8 < len {
                    assert(writes_view(w@) + record_writes(
                        data_base + offset + 8,
                        record@.skip(offset + 8),
                    ) =~= head + record_writes(data_base as int, record@));
                } else {
                    assert(record@.skip(offset + 8).len() == 0);
                    assert(record_writes(data_base + offset + 8, record@.skip(offset + 8))
                        =~= Seq::empty());
                    assert(writes_view(w@) =~= head + record_writes(data_base as int, record@));
                }
            }
        } else {
            let mut i: u16 = 0;
            assert(rest.skip(0) =~= rest);
            assert(rest.len() < 8);
            assert(record_writes(data_base + offset, rest) == byte_writes(data_base + offset, rest));
            while i < remaining
                invariant
                    remaining == len - offset,
                    remaining < 8,
                    offset < len,
                    len == record@.len(),
                    len <= STATE_RECORD_MAX,
                    rest == record@.skip(offset as int),
                    data_base as int == next_slot_spec(old_sector as int) * 256 + 4,
                    i <= remaining,
                    writes_view(w@) + byte_writes(data_base + offset + i, rest.skip(i as int))
                        == head + record_writes(data_base as int, record@),
                decreases remaining - i,
            {
                let ghost before = writes_view(w@);
                let b = record[(offset + i) as usize];
                push_write(&mut w, EepromWrite::Byte { addr: data_base + offset + i, data: b });
                proof {
                    assert(rest.skip(i as int)[0] == b);
                    assert(rest.skip(i as int).drop_first() =~= rest.skip(i + 1));
                    assert(writes_view(w@) =~= before + seq![(data_base + offset + i, seq![b])]);
                }
                i = i + 1;
            }
            proof {
                assert(rest.skip(remaining as int).len() == 0);
                assert(writes_view(w@) =~= head + record_writes(data_base as int, record@));
            }
        }
        offset = offset + EEPROM_PAGE_SIZE as u16;
    }
    let ghost mid = writes_view(w@);
    push_write(&mut w, EepromWrite::Byte { addr: new_base, data: 0xBE });
    push_write(&mut w, EepromWrite::Byte { addr: new_base + 1, data: 0xBA });
    let old_base = sector_base_addr(old_sector);
    push_write(&mut w, EepromWrite::Byte { addr: old_base, data: 0x00 });
    push_write(&mut w, EepromWrite::Byte { addr: old_base + 1, data: 0x00 });
    proof {
        assert(writes_view(w@) =~= mid + seq![
            (new_base as int, seq![0xBEu8]),
            (new_base + 1, seq![0xBAu8]),
            (old_base as int, seq![0u8]),
            (old_base + 1, seq![0u8]),
        ]);
        assert(writes_view(w@) =~= save_writes(old_sector, record@));
    }
    Ok((new_sector, w))
}

// ── What a save leaves in the EEPROM ──────────────────────────────────────

/// The EEPROM image `mem` after writing the bytes `w.1` from address `w.0`.
pub open spec fn apply_write(mem: Seq<u8>, w: (int, Seq<u8>)) -> Seq<u8> {
    Seq::new(
        mem.len(),
        |i: int|
            if w.0 <= i < w.0 + w.1.len() {
                w.1[i - w.0]
            } else {
                mem[i]
            },
    )
}

/// The EEPROM image `mem` after the writes `ws`, in order.
pub open spec fn apply_writes(mem: Seq<u8>, ws: Seq<(int, Seq<u8>)>) -> Seq<u8>
    decreases ws.len(),
{
    if ws.len() == 0 {
        mem
    } else {
        apply_writes(apply_write(mem, ws[0]), ws.drop_first())
    }
}

/// `mem` with the bytes `s` placed from address `a`.
pub open spec fn overlay(mem: Seq<u8>, a: int, s: Seq<u8>) -> Seq<u8> {
    Seq::new(
        mem.len(),
        |i: int|
            if a <= i < a + s.len() {
                s[i - a]
            } else {
                mem[i]
            },
    )
}

proof fn lemma_apply_concat(mem: Seq<u8>, x: Seq<(int, Seq<u8>)>, y: Seq<(int, Seq<u8>)>)
    ensures
        apply_writes(mem, x + y) == apply_writes(apply_writes(mem, x), y),
    decreases x.len(),
{
    if x.len() == 0 {
        assert(x + y =~= y);
    } else {
        assert((x + y).drop_first() =~= x.drop_first() + y);
        assert((x + y)[0] == x[0]);
        lemma_apply_concat(apply_write(mem, x[0]), x.drop_first(), y);
    }
}

proof fn lemma_byte_writes_effect(mem: Seq<u8>, a: int, s: Seq<u8>)
    requires
        0 <= a,
        a + s.len() <= mem.len(),
    ensures
        apply_writes(mem, byte_writes(a, s)) == overlay(mem, a, s),
    decreases s.len(),
{
    if s.len() == 0 {
        assert(overlay(mem, a, s) =~= mem);
    } else {
        let m1 = apply_write(mem, (a, seq![s[0]]));
        let ws = byte_writes(a, s);
        assert(ws[0] == (a, seq![s[0]]));
        assert(ws.drop_first() =~= byte_writes(a + 1, s.drop_first()));
        lemma_byte_writes_effect(m1, a + 1, s.drop_first());
        assert(overlay(m1, a + 1, s.drop_first()) =~= overlay(mem, a, s));
    }
}

proof fn lemma_record_writes_effect(mem: Seq<u8>, a: int, s: Seq<u8>)
    requires
        0 <= a,
        a + s.len() <= mem.len(),
    ensures
        apply_writes(mem, record_writes(a, s)) == overlay(mem, a, s),
    decreases s.len(),
{
    if s.len() >= 8 {
        let ws = record_writes(a, s);
        let m1 = apply_write(mem, (a, s.take(8)));
        assert(ws[0] == (a, s.take(8)));
        assert(ws.drop_first() =~= record_writes(a + 8, s.skip(8)));
        lemma_record_writes_effect(m1, a + 8, s.skip(8));
        assert(overlay(m1, a + 8, s.skip(8)) =~= overlay(mem, a, s));
    } else {
        lemma_byte_writes_effect(mem, a, s);
    }
}

/// Sector `sector` of the EEPROM image `mem` carries the valid marker.
pub open spec fn has_marker(mem: Seq<u8>, sector: int) -> bool {
    le16(mem[sector * 256], mem[sector * 256 + 1]) == NVRAM_SECTOR_MAGIC
}

/// The `len` record bytes that sector `sector` of `mem` holds.
pub open spec fn sector_data(mem: Seq<u8>, sector: int, len: int) -> Seq<u8> {
    mem.subrange(sector * 256 + 4, sector * 256 + 4 + len)
}

/// A load accepts sector `sector` of `mem` with a record of `len` bytes:
/// its marker is valid and its stored CRC matches the record.
pub open spec fn sector_accepted(mem: Seq<u8>, sector: int, len: int) -> bool {
    record_ok(mem.subrange(sector * 256, sector * 256 + 4), sector_data(mem, sector, len))
}

/// The slot a load takes from the EEPROM image `mem`, trying the slots at
/// sectors `start + 2k`, `start + 2k + 2`, ... (modulo 4) up to the second
/// try: the first accepted with a record of `len` bytes, if any.
pub open spec fn load_pick(mem: Seq<u8>, start: int, len: int, k: int) -> Option<int>
    decreases 2 - k,
{
    if k >= 2 || k < 0 {
        None
    } else if sector_accepted(mem, (start + 2 * k) % 4, len) {
        Some((start + 2 * k) % 4)
    } else {
        load_pick(mem, start, len, k + 1)
    }
}

/// The slot a load takes from the EEPROM image `mem`, scanning the slots
/// from the one at sector `start` (see `load_pick`).
pub fn find_loaded_sector(mem: &[u8], start: u8, len: usize) -> (r: Option<u8>)
    requires
        mem@.len() == EEPROM_TOTAL_SIZE,
        start < NVRAM_SECTORS,
        start % 2 == 0,
        len <= STATE_RECORD_MAX,
    ensures
        r is None ==> load_pick(mem@, start as int, len as int, 0) is None,
        r matches Some(s) ==> load_pick(mem@, start as int, len as int, 0) == Some(s as int),
        r matches Some(s) ==> s == 0 || s == 2,
{
    let mut attempt: usize = 0;
    while attempt < 2
        invariant
            mem@.len() == EEPROM_TOTAL_SIZE,
            start < 4,
            start % 2 == 0,
            len <= STATE_RECORD_MAX,
            attempt <= 2,
            load_pick(mem@, start as int, len as int, 0) == load_pick(
                mem@,
                start as int,
                len as int,
                attempt as int,
            ),
        decreases 2 - attempt,
    {
        let s = load_sector(start, 2 * attempt);
        let base = sector_base_addr(s) as usize;
        assert(s == 0 || s == 2);
        let header: [u8; 4] = [mem[base], mem[base + 1], mem[base + 2], mem[base + 3]];
        let data = vstd::slice::slice_subrange(mem, base + 4, base + 4 + len);
        let ok = sector_record_ok(&header, data);
        proof {
            assert(header@ =~= mem@.subrange(s * 256, s * 256 + 4));
        }
        if ok {
            return Some(s);
        }
        attempt = attempt + 1;
    }
    None
}

/// A load after a save finds the saved record: when no slot but the old
/// one carried the marker before the save, a load that scans the slots
/// from either slot takes the new one, whose record bytes are the saved
/// ones.
pub proof fn lemma_load_after_save(mem: Seq<u8>, old_sector: u8, record: Seq<u8>, start: int)
    requires
        mem.len() == EEPROM_TOTAL_SIZE,
        old_sector < NVRAM_SECTORS,
        record.len() <= STATE_RECORD_MAX,
        start == 0 || start == 2,
        forall|s: int| (s == 0 || s == 2) && s != old_sector ==> !#[trigger] has_marker(mem, s),
    ensures
        ({
            let m2 = apply_writes(mem, save_writes(old_sector, record));
            let ns = next_slot_spec(old_sector as int);
            &&& load_pick(m2, start, record.len() as int, 0) == Some(ns)
            &&& sector_data(m2, ns, record.len() as int) == record
        }),
{
    let m2 = apply_writes(mem, save_writes(old_sector, record));
    let ns = next_slot_spec(old_sector as int);
    let len = record.len() as int;
    lemma_save_round_trip(mem, old_sector, record);
    let other = (ns + 2) % 4;
    assert(!sector_accepted(m2, other, len));
    if start == ns {
        assert(load_pick(m2, start, len, 0) == Some(ns));
    } else {
        assert((start + 2 * 0) % 4 == other);
        assert((start + 2 * 1) % 4 == ns);
        assert(load_pick(m2, start, len, 1) == Some(ns));
    }
}

/// Plans a save of the working state `state` after the slot at sector
/// `old_sector`: its record (see `state_bytes`) always fits a slot, so the
/// plan is that of `save_plan` for the record.
pub fn save_state_plan(old_sector: u8, state: &VendingStateData) -> (r: (u8, Vec<EepromWrite>))
    requires
        old_sector < NVRAM_SECTORS,
    ensures
        r.0 == next_slot_spec(old_sector as int),
        writes_view(r.1@) == save_writes(old_sector, state_bytes(*state)),
{
    let record = encode_state(state);
    match save_plan(old_sector, record.as_slice()) {
        Ok(plan) => plan,
        Err(_) => {
            assert(false);
            (0, Vec::new())
        },
    }
}

/// The working state a load finds in the EEPROM image `mem`, scanning the
/// slots from the one at sector `start`: the state of the first accepted
/// slot and that slot's sector; `CrcMismatch` when no slot is accepted or
/// the state found is of a newer layout.
pub fn load_state_from_image(mem: &[u8], start: u8) -> (r: Result<(VendingStateData, u8), NvramError>)
    requires
        mem@.len() == EEPROM_TOTAL_SIZE,
        start == 0 || start == 2,
    ensures
        match load_pick(mem@, start as int, STATE_RECORD_LEN as int, 0) {
            None => r == Err::<(VendingStateData, u8), NvramError>(NvramError::CrcMismatch),
            Some(sec) => {
                let st = state_at(sector_data(mem@, sec, STATE_RECORD_LEN as int));
                if st.version > STATE_VERSION {
                    r == Err::<(VendingStateData, u8), NvramError>(NvramError::CrcMismatch)
                } else {
                    r == Ok::<(VendingStateData, u8), NvramError>((st, sec as u8))
                }
            },
        },
{
    match find_loaded_sector(mem, start, STATE_RECORD_LEN) {
        None => Err(NvramError::CrcMismatch),
        Some(sec) => {
            let base = sector_base_addr(sec) as usize + 4;
            let data = vstd::slice::slice_subrange(mem, base, base + STATE_RECORD_LEN);
            match decode_state(data) {
                Some(st) => match check_state_version(st) {
                    Ok(st) => Ok((st, sec)),
                    Err(e) => Err(e),
                },
                None => {
                    assert(false);
                    Err(NvramError::CrcMismatch)
                },
            }
        },
    }
}

/// CRC-16 of the working state's record without its last two bytes (the
/// CRC field itself).
pub fn calc_state_crc(state: &VendingStateData) -> (r: u16)
    ensures
        r == crc16_spec(state_bytes(*state).take(STATE_RECORD_LEN - 2)),
{
    let record = encode_state(state);
    let body = vstd::slice::slice_subrange(record.as_slice(), 0, STATE_RECORD_LEN - 2);
    assert(body@ =~= state_bytes(*state).take(STATE_RECORD_LEN - 2));
    crc16(body)
}

/// The working state is read back: after a save of state `s`, when no slot
/// but the old one carried the marker before, a load from either slot finds
/// the new slot and reads exactly `s` from it.
pub proof fn lemma_state_save_load(mem: Seq<u8>, old_sector: u8, s: VendingStateData, start: int)
    requires
        mem.len() == EEPROM_TOTAL_SIZE,
        old_sector < NVRAM_SECTORS,
        start == 0 || start == 2,
        forall|x: int| (x == 0 || x == 2) && x != old_sector ==> !#[trigger] has_marker(mem, x),
    ensures
        ({
            let m2 = apply_writes(mem, save_writes(old_sector, state_bytes(s)));
            let ns = next_slot_spec(old_sector as int);
            &&& load_pick(m2, start, STATE_RECORD_LEN as int, 0) == Some(ns)
            &&& state_at(sector_data(m2, ns, STATE_RECORD_LEN as int)) == s
        }),
{
    lemma_record_round_trip(s);
    lemma_load_after_save(mem, old_sector, state_bytes(s), start);
}

/// Whatever the EEPROM held before, after a save of state `s` a load that
/// starts its scan at the new slot takes that slot and reads exactly `s`
/// (a load from the other slot takes the other slot first when it still
/// holds an accepted record; see `lemma_state_save_load` for when it does
/// not).
pub proof fn lemma_state_load_from_new_slot(mem: Seq<u8>, old_sector: u8, s: VendingStateData)
    requires
        mem.len() == EEPROM_TOTAL_SIZE,
        old_sector < NVRAM_SECTORS,
    ensures
        ({
            let m2 = apply_writes(mem, save_writes(old_sector, state_bytes(s)));
            let ns = next_slot_spec(old_sector as int);
            &&& load_pick(m2, ns, STATE_RECORD_LEN as int, 0) == Some(ns)
            &&& state_at(sector_data(m2, ns, STATE_RECORD_LEN as int)) == s
        }),
{
    lemma_record_round_trip(s);
    lemma_save_round_trip(mem, old_sector, state_bytes(s));
    let ns = next_slot_spec(old_sector as int);
    assert((ns + 2 * 0) % 4 == ns);
}

/// A save is read back. Whatever the EEPROM held before, after the writes
/// of a save of `record` the new slot (the one after the slot at
/// `old_sector`) is accepted by a load and holds exactly `record`; the old
/// sector's marker is cleared; no byte outside the new slot's header and
/// record and the old sector's marker changes. When no slot but the old
/// one carried the marker before, only the new slot carries it after, and
/// only the new slot is accepted.
pub proof fn lemma_save_round_trip(mem: Seq<u8>, old_sector: u8, record: Seq<u8>)
    requires
        mem.len() == EEPROM_TOTAL_SIZE,
        old_sector < NVRAM_SECTORS,
        record.len() <= STATE_RECORD_MAX,
    ensures
        ({
            let m2 = apply_writes(mem, save_writes(old_sector, record));
            let ns = next_slot_spec(old_sector as int);
            let nb = ns * 256;
            let ob = old_sector * 256;
            &&& m2.len() == mem.len()
            &&& sector_accepted(m2, ns, record.len() as int)
            &&& sector_data(m2, ns, record.len() as int) == record
            &&& !has_marker(m2, old_sector as int)
            &&& forall|i: int|
                0 <= i < mem.len() && !(nb <= i < nb + 4 + record.len()) && i != ob && i != ob
                    + 1 ==> #[trigger] m2[i] == mem[i]
            &&& (forall|s: int| (s == 0 || s == 2) && s != old_sector ==> !#[trigger] has_marker(mem, s))
                ==> (forall|s: int| (s == 0 || s == 2) ==> (#[trigger] has_marker(m2, s) <==> s == ns))
            &&& (forall|s: int| (s == 0 || s == 2) && s != old_sector ==> !#[trigger] has_marker(mem, s))
                ==> (forall|s: int|
                (s == 0 || s == 2) ==> (#[trigger] sector_accepted(m2, s, record.len() as int) <==> s
                    == ns))
        }),
{
    let ns = next_slot_spec(old_sector as int);
    let nb = ns * 256;
    let ob = old_sector * 256;
    let crc = crc16_spec(record);
    let lo = (crc & 0xFF) as u8;
    let hi = (crc >> 8u16) as u8;
    let w1 = seq![(nb + 2, seq![lo]), (nb + 3, seq![hi])];
    let w2 = record_writes(nb + 4, record);
    let w3 = seq![(nb, seq![0xBEu8]), (nb + 1, seq![0xBAu8]), (ob, seq![0u8]), (ob + 1, seq![0u8])];
    assert(save_writes(old_sector, record) =~= w1 + w2 + w3);
    lemma_apply_concat(mem, w1 + w2, w3);
    lemma_apply_concat(mem, w1, w2);
    let m1 = apply_writes(mem, w1);
    assert(m1 == apply_write(apply_write(mem, w1[0]), w1[1])) by {
        reveal_with_fuel(apply_writes, 3);
        assert(w1.drop_first().drop_first() =~= Seq::<(int, Seq<u8>)>::empty());
    }
    lemma_record_writes_effect(m1, nb + 4, record);
    let mm = overlay(m1, nb + 4, record);
    let m2 = apply_writes(mm, w3);
    assert(m2 == apply_write(apply_write(apply_write(apply_write(mm, w3[0]), w3[1]), w3[2]), w3[3]))
        by {
        reveal_with_fuel(apply_writes, 5);
        assert(w3.drop_first().drop_first().drop_first().drop_first() =~= Seq::<
            (int, Seq<u8>),
        >::empty());
    }
    assert(sector_data(m2, ns, record.len() as int) =~= record);
    assert(le16(0xBEu8, 0xBAu8) == NVRAM_SECTOR_MAGIC) by (bit_vector);
    assert(le16(0u8, 0u8) != NVRAM_SECTOR_MAGIC) by (bit_vector);
    assert(le16(lo, hi) == crc) by (bit_vector)
        requires
            lo == (crc & 0xFF) as u8,
            hi == (crc >> 8u16) as u8,
    ;
    let h = m2.subrange(nb, nb + 4);
    assert(h[0] == m2[nb] && h[1] == m2[nb + 1] && h[2] == m2[nb + 2] && h[3] == m2[nb + 3]);
    assert(m2[nb + 2] == lo && m2[nb + 3] == hi);
    assert(sector_accepted(m2, ns, record.len() as int));
    if forall|s: int| (s == 0 || s == 2) && s != old_sector ==> !#[trigger] has_marker(mem, s) {
        assert forall|s: int| (s == 0 || s == 2) implies (#[trigger] has_marker(m2, s) <==> s == ns) by {
            if s != ns && s != old_sector {
                assert(!has_marker(mem, s));
                assert(m2[s * 256] == mem[s * 256]);
                assert(m2[s * 256 + 1] == mem[s * 256 + 1]);
            }
        }
        assert forall|s: int| (s == 0 || s == 2) implies (#[trigger] sector_accepted(
            m2,
            s,
            record.len() as int,
        ) <==> s == ns) by {
            if s != ns {
                let hs = m2.subrange(s * 256, s * 256 + 4);
                assert(hs[0] == m2[s * 256] && hs[1] == m2[s * 256 + 1]);
                assert(!has_marker(m2, s));
            }
        }
    }
}

// ── Persisting ────────────────────────────────────────────────────────────

/// What the persist task does after a signal.
#[derive(Debug, Clone, Copy, PartialEq, Eq, Structural)]
pub struct PersistStep {
    /// The state is still to be saved.
    pub dirty: bool,
    /// Save the settings now.
    pub save_settings: bool,
    /// Save the working state now (and restart the debounce timer).
    pub save_state: bool,
}

/// The persist task after signal `reason`, with the state `dirty` before
/// and `elapsed_s` seconds since the last state save: a state change marks
/// the state dirty, a settings change saves the settings; a dirty state is
/// saved once the debounce time has passed since the last save.
pub fn persist_step(dirty: bool, reason: PersistReason, elapsed_s: u64) -> (r: PersistStep)
    ensures
        r.save_settings == (reason == PersistReason::SettingsChanged),
        r.save_state == ((dirty || reason == PersistReason::StateChanged) && elapsed_s
            >= STATE_PERSIST_DEBOUNCE_S),
        r.dirty == ((dirty || reason == PersistReason::StateChanged) && !r.save_state),
        (r.save_state, r.dirty) == persist_step_spec(dirty, reason, elapsed_s),
{
    let mut d = dirty;
    let mut settings = false;
    match reason {
        PersistReason::StateChanged => {
            d = true;
        },
        PersistReason::SettingsChanged => {
            settings = true;
        },
    }
    let save = d && elapsed_s >= STATE_PERSIST_DEBOUNCE_S;
    if save {
        d = false;
    }
    PersistStep { dirty: d, save_settings: settings, save_state: save }
}

/// How long the persist task waits for the next signal: with a dirty
/// state, until the debounce time since the last save has passed (`Some`,
/// in seconds, 0 when it has already passed); with a clean state, for as
/// long as it takes (`None`).
pub open spec fn debounce_wait(dirty: bool, elapsed_s: u64) -> Option<int> {
    if !dirty {
        None
    } else if elapsed_s >= STATE_PERSIST_DEBOUNCE_S {
        Some(0)
    } else {
        Some(STATE_PERSIST_DEBOUNCE_S - elapsed_s)
    }
}

/// The time the persist task waits for a signal (see `debounce_wait`).
pub fn persist_wait(dirty: bool, elapsed_s: u64) -> (r: Option<u64>)
    ensures
        match r {
            None => debounce_wait(dirty, elapsed_s) is None,
            Some(w) => debounce_wait(dirty, elapsed_s) == Some(w as int),
        },
{
    if !dirty {
        None
    } else if elapsed_s >= STATE_PERSIST_DEBOUNCE_S {
        Some(0)
    } else {
        Some(STATE_PERSIST_DEBOUNCE_S - elapsed_s)
    }
}

/// A wait that ends with no signal, `elapsed_s` seconds after the last
/// state save, saves the state: it is dirty and the debounce time has
/// passed.
pub open spec fn timeout_saves(dirty: bool, elapsed_s: u64) -> bool {
    dirty && elapsed_s >= STATE_PERSIST_DEBOUNCE_S
}

/// The persist task when its wait ends with no signal, `elapsed_s` seconds
/// after the last state save: a dirty state is saved once the debounce time
/// has passed (`timeout_saves`); the settings are not touched.
pub fn persist_timeout(dirty: bool, elapsed_s: u64) -> (r: PersistStep)
    ensures
        !r.save_settings,
        r.save_state == timeout_saves(dirty, elapsed_s),
        r.dirty == (dirty && !r.save_state),
{
    let save = dirty && elapsed_s >= STATE_PERSIST_DEBOUNCE_S;
    PersistStep { dirty: dirty && !save, save_settings: false, save_state: save }
}

/// Debouncing delays a state change but never drops it: once the state is
/// dirty the persist task waits at most the debounce time, and when that
/// wait ends without a signal (at any time `later_s` no earlier than the
/// wait's end) the state is saved; a signal that ends the wait earlier
/// keeps the state dirty unless it saves it.
pub proof fn lemma_debounced_save_not_dropped(
    elapsed_s: u64,
    later_s: u64,
    reason: PersistReason,
    signal_s: u64,
)
    requires
        debounce_wait(true, elapsed_s) is Some,
        later_s >= elapsed_s + debounce_wait(true, elapsed_s)->0,
    ensures
        debounce_wait(true, elapsed_s)->0 <= STATE_PERSIST_DEBOUNCE_S,
        timeout_saves(true, later_s),
        ({
            let st = persist_step_spec(true, reason, signal_s);
            st.0 || st.1
        }),
{
}

/// The state saved and still-dirty flags after `persist_step`.
pub open spec fn persist_step_spec(dirty: bool, reason: PersistReason, elapsed_s: u64) -> (bool, bool) {
    let d = dirty || reason == PersistReason::StateChanged;
    let save = d && elapsed_s >= STATE_PERSIST_DEBOUNCE_S;
    (save, d && !save)
}

} // verus!
