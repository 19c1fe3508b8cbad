//! The frame checksum: a 16-bit rolling computation over the bytes of a
//! frame, used both when building requests and when validating responses.
//! Wire compatibility requires this exact polynomial (`0xA001`, reflected),
//! so the specification spells the algorithm out round by round.

use vstd::prelude::*;

verus! {

/// One round of the rolling computation: shift right once and, when the
/// bit shifted out was set, fold the polynomial back in.
pub open spec fn crc16_step(crc: u16) -> u16 {
    if crc & 1 == 1 {
        (crc >> 1) ^ 0xA001
    } else {
        crc >> 1
    }
}

/// `n` rounds of [`crc16_step`] applied to `crc`.
pub open spec fn crc16_rounds(crc: u16, n: nat) -> u16
    decreases n,
{
    if n == 0 {
        crc
    } else {
        crc16_step(crc16_rounds(crc, (n - 1) as nat))
    }
}

/// Checksum state after absorbing the first `n` bytes of `data`:
/// the accumulator starts at `0xFFFF`, and each byte is folded into its
/// low half and followed by eight rounds.
pub open spec fn crc16_prefix(data: Seq<u8>, n: nat) -> u16
    decreases n,
{
    if n == 0 {
        0xFFFF
    } else {
        crc16_rounds(crc16_prefix(data, (n - 1) as nat) ^ (data[n - 1] as u16), 8)
    }
}

/// The checksum of a whole byte sequence.
pub open spec fn crc16(data: Seq<u8>) -> u16 {
    crc16_prefix(data, data.len())
}

/// Computes the frame checksum of `data`.
pub fn crc16_modbus(data: &[u8]) -> (r: u16)
    ensures
        r == crc16(data@),
{
    let mut crc: u16 = 0xFFFF;
    let mut i: usize = 0;
    while i < data.len()
        invariant
            i <= data@.len(),
            crc == crc16_prefix(data@, i as nat),
        decreases data@.len() - i,
    {
        crc = crc ^ (data[i] as u16);
        let ghost absorbed = crc;
        let mut k: usize = 0;
        while k < 8
            invariant
                k <= 8,
                crc == crc16_rounds(absorbed, k as nat),
            decreases 8 - k,
        {
            if crc & 1 == 1 {
                crc = (crc >> 1) ^ 0xA001;
            } else {
                crc = crc >> 1;
            }
            k = k + 1;
        }
        i = i + 1;
    }
    crc
}

} // verus!
