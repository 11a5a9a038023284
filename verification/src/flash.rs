//! Settings storage in flash and the CRC-16 used for stored records.
//!
//! Flash storage is not wired yet: loading always reports a CRC mismatch
//! (so the machine starts from factory settings) and saving stores nothing.

use vstd::prelude::*;

use crate::error::FlashError;
use crate::state::Settings;

verus! {

/// Flash sector size, in bytes.
pub const FLASH_SECTOR_SIZE: usize = 4096;
/// Flash offset of the settings sector.
pub const SETTINGS_FLASH_OFFSET: u32 = 0x3F_F000;
/// Marker of a stored settings record.
pub const SETTINGS_MAGIC: u32 = 0xDEAD_BEEF;

/// One shift of the CRC-16 (Modbus, reflected polynomial 0xA001) register.
pub open spec fn crc16_bit(c: u16) -> u16 {
    if c & 1 != 0 {
        (c >> 1u16) ^ 0xA001u16
    } else {
        c >> 1u16
    }
}

/// `k` shifts of the CRC-16 register.
pub open spec fn crc16_bits(c: u16, k: nat) -> u16
    decreases k,
{
    if k == 0 {
        c
    } else {
        crc16_bits(crc16_bit(c), (k - 1) as nat)
    }
}

/// The CRC-16 register after the bytes `s`, starting from 0xFFFF.
pub open spec fn crc16_spec(s: Seq<u8>) -> u16
    decreases s.len(),
{
    if s.len() == 0 {
        0xFFFF
    } else {
        crc16_bits(crc16_spec(s.drop_last()) ^ (s.last() as u16), 8)
    }
}

proof fn lemma_crc16_bits_step(c: u16, k: nat)
    ensures
        crc16_bits(c, k + 1) == crc16_bit(crc16_bits(c, k)),
    decreases k,
{
    reveal_with_fuel(crc16_bits, 2);
    if k > 0 {
        lemma_crc16_bits_step(crc16_bit(c), (k - 1) as nat);
    }
}

/// Eight shifts of a register whose low byte is clear move its high byte
/// down.
proof fn lemma_crc16_shift_clear_byte(x: u16)
    requires
        x & 0xFF == 0,
    ensures
        crc16_bits(x, 8) == x >> 8u16,
{
    reveal_with_fuel(crc16_bits, 9);
    assert(crc16_bit(crc16_bit(crc16_bit(crc16_bit(crc16_bit(crc16_bit(crc16_bit(crc16_bit(x))))))))
        == x >> 8u16) by (bit_vector)
        requires
            x & 0xFF == 0,
    ;
}

/// Appending the CRC-16 of some bytes to them, low byte first, gives bytes
/// whose CRC-16 register ends at 0: a record followed by its stored CRC
/// checks out.
pub proof fn lemma_crc16_residue(data: Seq<u8>)
    ensures
        ({
            let c = crc16_spec(data);
            crc16_spec(data.push((c & 0xFF) as u8).push((c >> 8u16) as u8)) == 0
        }),
{
    let c = crc16_spec(data);
    let lo = (c & 0xFF) as u8;
    let hi = (c >> 8u16) as u8;
    let s1 = data.push(lo);
    let s2 = s1.push(hi);
    assert(s2.drop_last() =~= s1);
    assert(s1.drop_last() =~= data);
    let x = c ^ (lo as u16);
    assert(x & 0xFF == 0 && x >> 8u16 == hi as u16) by (bit_vector)
        requires
            lo == (c & 0xFF) as u8,
            hi == (c >> 8u16) as u8,
            x == c ^ (lo as u16),
    ;
    lemma_crc16_shift_clear_byte(x);
    assert(crc16_spec(s1) == hi as u16);
    assert((hi as u16) ^ (hi as u16) == 0u16 && 0u16 & 0xFF == 0u16 && 0u16 >> 8u16 == 0u16)
        by (bit_vector);
    lemma_crc16_shift_clear_byte(0u16);
}

/// CRC-16/Modbus of `data`: register from 0xFFFF, each byte xored in and
/// shifted out eight times with the reflected polynomial 0xA001.
pub fn crc16(data: &[u8]) -> (r: u16)
    ensures
        r == crc16_spec(data@),
{
    let mut crc: u16 = 0xFFFF;
    let mut i: usize = 0;
    while i < data.len()
        invariant
            i <= data@.len(),
            crc == crc16_spec(data@.take(i as int)),
        decreases data@.len() - i,
    {
        crc = crc ^ (data[i] as u16);
        let ghost start = crc;
        let mut k: u32 = 0;
        while k < 8
            invariant
                k <= 8,
                crc == crc16_bits(start, k as nat),
            decreases 8 - k,
        {
            proof {
                lemma_crc16_bits_step(start, k as nat);
            }
            if crc & 0x0001 != 0 {
                crc = (crc >> 1) ^ 0xA001;
            } else {
                crc = crc >> 1;
            }
            k = k + 1;
        }
        assert(data@.take(i + 1).drop_last() =~= data@.take(i as int));
        i = i + 1;
    }
    assert(data@.take(data@.len() as int) =~= data@);
    crc
}

/// Loads the settings. No stored record is read yet: the result is always
/// a CRC mismatch, and the caller falls back to factory settings.
pub fn load_settings() -> (r: Result<Settings, FlashError>)
    ensures
        r == Err::<Settings, FlashError>(FlashError::CrcMismatch),
{
    Err(FlashError::CrcMismatch)
}

/// Saves the settings. Nothing is written yet: every call succeeds.
pub fn save_settings(settings: &Settings) -> (r: Result<(), FlashError>)
    ensures
        r is Ok,
{
    match load_settings() {
        Ok(_) => Ok(()),
        Err(_) => Ok(()),
    }
}

} // verus!
