//! CRC-32 as used by the device bootloader: the standard CRC-32 of
//! Ethernet/ZIP (polynomial 0x04C11DB7, reflected, init 0xFFFFFFFF,
//! final XOR 0xFFFFFFFF), computed over bytes in address order.

use vstd::prelude::*;

verus! {

/// The CRC-32 polynomial 0x04C11DB7 in reflected representation.
pub const CRC32_POLY_REFLECTED: u32 = 0xEDB88320;

/// Initial value and final XOR of the standard CRC-32.
pub const CRC32_INIT: u32 = 0xFFFFFFFF;

/// One bit round of the reflected CRC-32.
pub open spec fn spec_crc32_bit_step(crc: u32) -> u32 {
    if crc & 1 == 1 {
        (crc >> 1) ^ CRC32_POLY_REFLECTED
    } else {
        crc >> 1
    }
}

/// `rounds` bit rounds of the reflected CRC-32.
pub open spec fn spec_crc32_bits(crc: u32, rounds: nat) -> u32
    decreases rounds,
{
    if rounds == 0 {
        crc
    } else {
        spec_crc32_bit_step(spec_crc32_bits(crc, (rounds - 1) as nat))
    }
}

/// The CRC-32 state after absorbing one byte.
pub open spec fn spec_crc32_byte(crc: u32, b: u8) -> u32 {
    spec_crc32_bits(crc ^ (b as u32), 8)
}

/// The CRC-32 state after absorbing a byte sequence, in address order.
pub open spec fn spec_crc32_update(crc: u32, bytes: Seq<u8>) -> u32
    decreases bytes.len(),
{
    if bytes.len() == 0 {
        crc
    } else {
        spec_crc32_byte(spec_crc32_update(crc, bytes.drop_last()), bytes.last())
    }
}

/// The standard CRC-32 of a byte sequence.
pub open spec fn spec_crc32(bytes: Seq<u8>) -> u32 {
    spec_crc32_update(CRC32_INIT, bytes) ^ CRC32_INIT
}

/// Absorb one byte into a CRC-32 state.
pub fn crc32_byte_step(crc: u32, b: u8) -> (r: u32)
    ensures
        r == spec_crc32_byte(crc, b),
{
    let start: u32 = crc ^ (b as u32);
    let mut c: u32 = start;
    let mut k: usize = 0;
    while k < 8
        invariant
            k <= 8,
            c == spec_crc32_bits(start, k as nat),
        decreases 8 - k,
    {
        if c & 1 == 1 {
            c = (c >> 1) ^ CRC32_POLY_REFLECTED;
        } else {
            c = c >> 1;
        }
        k = k + 1;
    }
    c
}

/// The standard CRC-32 of the given bytes, in address order.
pub fn crc32(bytes: &Vec<u8>) -> (r: u32)
    ensures
        r == spec_crc32(bytes@),
{
    let mut crc: u32 = CRC32_INIT;
    let mut i: usize = 0;
    while i < bytes.len()
        invariant
            i <= bytes@.len(),
            crc == spec_crc32_update(CRC32_INIT, bytes@.take(i as int)),
        decreases bytes@.len() - i,
    {
        crc = crc32_byte_step(crc, bytes[i]);
        proof {
            assert(bytes@.take(i + 1).drop_last() =~= bytes@.take(i as int));
            assert(bytes@.take(i + 1).last() == bytes@[i as int]);
        }
        i = i + 1;
    }
    proof {
        assert(bytes@.take(bytes@.len() as int) =~= bytes@);
    }
    crc ^ CRC32_INIT
}

} // verus!
