//! Request-frame construction and response-checksum validation.
//!
//! Every transaction on the bus starts with the same eight-byte request:
//! device address, the read-registers function code, a big-endian register
//! address, a big-endian register count, and the checksum of those six
//! bytes, low byte first. The register addresses of the three telemetry
//! quantities are fixed by the peripheral's register map.

use vstd::prelude::*;

use crate::checksum::{crc16, crc16_modbus};

verus! {

/// Function code for reading holding registers.
pub const FUNCTION_READ: u8 = 0x03;

/// Register address of the raw angle (1 register).
pub const REG_ANGLE: u16 = 0x0041;

/// Register address of the signed speed (2 registers).
pub const REG_SPEED: u16 = 0x0042;

/// Register address of the signed revolution counter (1 register).
pub const REG_TURN_COUNT: u16 = 0x0044;

/// The six header bytes of a request: address, function code, register
/// address and register count, both big-endian.
pub open spec fn request_header(address: u8, register_start: u16, register_count: u16) -> Seq<u8> {
    seq![
        address,
        FUNCTION_READ,
        (register_start >> 8) as u8,
        (register_start & 0xFF) as u8,
        (register_count >> 8) as u8,
        (register_count & 0xFF) as u8,
    ]
}

/// A full eight-byte request frame: the header followed by its checksum,
/// low byte first.
pub open spec fn request_frame(address: u8, register_start: u16, register_count: u16) -> Seq<u8> {
    let header = request_header(address, register_start, register_count);
    let crc = crc16(header);
    header + seq![(crc & 0xFF) as u8, (crc >> 8) as u8]
}

/// Builds the eight-byte request frame for reading `register_count`
/// registers starting at `register_start` from device `address`.
pub fn build_request(address: u8, register_start: u16, register_count: u16) -> (r: Vec<u8>)
    ensures
        r@ == request_frame(address, register_start, register_count),
        r@.len() == 8,
{
    let hi_start = (register_start >> 8) as u8;
    let lo_start = (register_start & 0xFF) as u8;
    let hi_count = (register_count >> 8) as u8;
    let lo_count = (register_count & 0xFF) as u8;
    proof {
        assert(register_start >> 8 <= 0xFF && register_start & 0xFF <= 0xFF
            && register_count >> 8 <= 0xFF && register_count & 0xFF <= 0xFF) by (bit_vector);
    }
    let mut r: Vec<u8> = Vec::new();
    r.push(address);
    r.push(FUNCTION_READ);
    r.push(hi_start);
    r.push(lo_start);
    r.push(hi_count);
    r.push(lo_count);
    assert(r@ =~= request_header(address, register_start, register_count));
    let crc = crc16_modbus(r.as_slice());
    let crc_lo = (crc & 0xFF) as u8;
    let crc_hi = (crc >> 8) as u8;
    proof {
        assert(crc & 0xFF <= 0xFF && crc >> 8 <= 0xFF) by (bit_vector);
    }
    r.push(crc_lo);
    r.push(crc_hi);
    assert(r@ =~= request_frame(address, register_start, register_count));
    r
}

/// The request that reads the two speed registers of `address`.
pub fn speed_request(address: u8) -> (r: Vec<u8>)
    ensures
        r@ == request_frame(address, REG_SPEED, 2),
{
    build_request(address, REG_SPEED, 2)
}

/// The request that reads the revolution-counter register of `address`.
pub fn turn_count_request(address: u8) -> (r: Vec<u8>)
    ensures
        r@ == request_frame(address, REG_TURN_COUNT, 1),
{
    build_request(address, REG_TURN_COUNT, 1)
}

/// The request that reads the angle register of `address`; discovery uses
/// the same frame as a liveness probe.
pub fn angle_request(address: u8) -> (r: Vec<u8>)
    ensures
        r@ == request_frame(address, REG_ANGLE, 1),
{
    build_request(address, REG_ANGLE, 1)
}

/// The 16-bit checksum carried in the last two bytes of a frame,
/// low byte first.
pub open spec fn trailing_checksum(frame: Seq<u8>) -> u16
    recommends
        frame.len() >= 2,
{
    ((frame[frame.len() - 2] as u16) + 256 * (frame[frame.len() - 1] as u16)) as u16
}

/// Reads the checksum field out of a received frame of `len` bytes.
pub fn response_checksum(frame: &[u8], len: usize) -> (r: u16)
    requires
        2 <= len <= frame@.len(),
    ensures
        r == trailing_checksum(frame@.take(len as int)),
{
    let lo = frame[len - 2];
    let hi = frame[len - 1];
    let r: u16 = (lo as u16) + 256 * (hi as u16);
    assert(frame@.take(len as int)[len - 2] == frame@[len - 2]);
    assert(frame@.take(len as int)[len - 1] == frame@[len - 1]);
    r
}

/// A frame of `len` bytes carries a valid checksum when the checksum of
/// everything before the checksum field equals the checksum field.
pub open spec fn frame_checksum_valid(frame: Seq<u8>) -> bool
    recommends
        frame.len() >= 2,
{
    crc16(frame.take(frame.len() - 2)) == trailing_checksum(frame)
}

/// Checks the trailing checksum of a received frame of `len` bytes.
/// The transaction itself does not reject a bad frame; this check is
/// offered to callers that want to validate before decoding.
pub fn response_checksum_ok(frame: &[u8], len: usize) -> (r: bool)
    requires
        2 <= len <= frame@.len(),
    ensures
        r == frame_checksum_valid(frame@.take(len as int)),
{
    let expected = crc16_modbus(vstd::slice::slice_subrange(frame, 0, len - 2));
    let carried = response_checksum(frame, len);
    assert(frame@.take(len as int).take(len - 2) =~= frame@.subrange(0, len - 2));
    expected == carried
}

} // verus!
