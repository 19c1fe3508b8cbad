//! The telemetry record and its two byte-level codecs: decoding the fields
//! out of the peripheral's response frames, and the eight-byte wire record
//! that the publisher emits.
//!
//! A response frame echoes address, function code and byte count before the
//! payload, so the payload of interest starts at offset 3. The angle is a
//! big-endian 16-bit register, the revolution counter a single signed byte
//! (the low byte of its register), and the speed a big-endian signed 32-bit
//! value scaled by one hundred.

use vstd::prelude::*;

verus! {

/// Last-known telemetry of one device. Replaced wholesale by the poller;
/// never updated in place.
#[derive(Clone, Copy, PartialEq, Eq, Structural, Debug)]
pub struct TelemetryRecord {
    /// Bus address of the device this record describes.
    pub address: u8,
    /// Raw angle register; the full scale 0..4095 maps to 0..360 degrees.
    pub angle_raw: u16,
    /// Signed revolution counter; wraps at the ends of its range.
    pub turn_count: i8,
    /// Signed speed, scaled by one hundred revolutions per minute.
    pub speed_raw: i32,
}

impl TelemetryRecord {
    /// The record a device starts with before its first poll: the address
    /// is known, every measured field is zero.
    pub open spec fn initial_spec(address: u8) -> TelemetryRecord {
        TelemetryRecord { address, angle_raw: 0, turn_count: 0, speed_raw: 0 }
    }

    /// Builds the freshly zeroed record of a newly discovered device.
    pub fn initial(address: u8) -> (r: TelemetryRecord)
        ensures
            r == TelemetryRecord::initial_spec(address),
    {
        TelemetryRecord { address, angle_raw: 0, turn_count: 0, speed_raw: 0 }
    }
}

/// A big-endian 16-bit value from two bytes.
pub open spec fn be_u16(hi: u8, lo: u8) -> u16 {
    (hi * 256 + lo) as u16
}

/// A big-endian 32-bit value from four bytes.
pub open spec fn be_u32(b0: u8, b1: u8, b2: u8, b3: u8) -> u32 {
    (b0 * 0x1000000 + b1 * 0x10000 + b2 * 0x100 + b3) as u32
}

/// The signed reading of a byte, two's complement.
pub open spec fn i8_of_byte(b: u8) -> i8 {
    if b < 128 {
        b as i8
    } else {
        (b - 256) as i8
    }
}

/// The byte that carries a signed value, two's complement.
pub open spec fn byte_of_i8(x: i8) -> u8 {
    if x >= 0 {
        x as u8
    } else {
        (x + 256) as u8
    }
}

/// The signed reading of a 32-bit word, two's complement.
pub open spec fn i32_of_u32(w: u32) -> i32 {
    if w < 0x8000_0000 {
        w as i32
    } else {
        (w - 0x1_0000_0000) as i32
    }
}

/// The 32-bit word that carries a signed value, two's complement.
pub open spec fn u32_of_i32(x: i32) -> u32 {
    if x >= 0 {
        x as u32
    } else {
        (x + 0x1_0000_0000) as u32
    }
}

/// The high byte of a 16-bit value.
pub open spec fn u16_hi(x: u16) -> u8 {
    (x / 256) as u8
}

/// The low byte of a 16-bit value.
pub open spec fn u16_lo(x: u16) -> u8 {
    (x % 256) as u8
}

/// Byte `k` of a 32-bit word, counting from the least significant.
pub open spec fn u32_byte(w: u32, k: nat) -> u8
    recommends
        k < 4,
{
    if k == 0 {
        (w % 256) as u8
    } else if k == 1 {
        ((w / 0x100) % 256) as u8
    } else if k == 2 {
        ((w / 0x10000) % 256) as u8
    } else {
        ((w / 0x1000000) % 256) as u8
    }
}

/// The raw angle carried by an angle-register response.
pub open spec fn angle_of_response(buf: Seq<u8>) -> u16
    recommends
        buf.len() >= 5,
{
    be_u16(buf[3], buf[4])
}

/// The revolution counter carried by a turn-count response: the low byte
/// of the register, read as signed.
pub open spec fn turn_count_of_response(buf: Seq<u8>) -> i8
    recommends
        buf.len() >= 5,
{
    i8_of_byte(buf[4])
}

/// The signed speed carried by a speed response.
pub open spec fn speed_of_response(buf: Seq<u8>) -> i32
    recommends
        buf.len() >= 7,
{
    i32_of_u32(be_u32(buf[3], buf[4], buf[5], buf[6]))
}

/// Decodes the raw angle out of a response window.
pub fn decode_angle(buf: &[u8]) -> (r: u16)
    requires
        buf@.len() >= 5,
    ensures
        r == angle_of_response(buf@),
{
    let hi = buf[3];
    let lo = buf[4];
    let r: u16 = (hi as u16) * 256 + (lo as u16);
    r
}

/// Decodes the revolution counter out of a response window.
pub fn decode_turn_count(buf: &[u8]) -> (r: i8)
    requires
        buf@.len() >= 5,
    ensures
        r == turn_count_of_response(buf@),
{
    let b = buf[4];
    let r = #[verifier::truncate] (b as i8);
    proof {
        assert(b < 128 ==> b as i8 == b) by (bit_vector);
        assert(b >= 128 ==> b as i8 == b - 256) by (bit_vector);
    }
    r
}

/// Decodes the signed speed out of a response window.
pub fn decode_speed(buf: &[u8]) -> (r: i32)
    requires
        buf@.len() >= 7,
    ensures
        r == speed_of_response(buf@),
{
    let b0 = buf[3];
    let b1 = buf[4];
    let b2 = buf[5];
    let b3 = buf[6];
    let w: u32 = (b0 as u32) << 24 | (b1 as u32) << 16 | (b2 as u32) << 8 | (b3 as u32);
    proof {
        assert((b0 as u32) << 24 | (b1 as u32) << 16 | (b2 as u32) << 8 | (b3 as u32)
            == (b0 * 0x1000000 + b1 * 0x10000 + b2 * 0x100 + b3) as u32) by (bit_vector);
    }
    word_as_i32(w)
}

/// Reads a 32-bit word as a signed value, two's complement.
pub fn word_as_i32(w: u32) -> (r: i32)
    ensures
        r == i32_of_u32(w),
{
    let r = #[verifier::truncate] (w as i32);
    proof {
        assert(w < 0x8000_0000 ==> w as i32 == w) by (bit_vector);
        assert(w >= 0x8000_0000 ==> w as i32 == w - 0x1_0000_0000) by (bit_vector);
    }
    r
}

/// The eight-byte wire form of a record, as the publisher emits it:
/// address, big-endian angle, turn count, big-endian speed.
pub open spec fn wire_record(rec: TelemetryRecord) -> Seq<u8> {
    let speed = u32_of_i32(rec.speed_raw);
    seq![
        rec.address,
        u16_hi(rec.angle_raw),
        u16_lo(rec.angle_raw),
        byte_of_i8(rec.turn_count),
        u32_byte(speed, 3),
        u32_byte(speed, 2),
        u32_byte(speed, 1),
        u32_byte(speed, 0),
    ]
}

/// The record carried by the first eight bytes of a wire record.
pub open spec fn record_of_wire(bytes: Seq<u8>) -> TelemetryRecord
    recommends
        bytes.len() >= 8,
{
    TelemetryRecord {
        address: bytes[0],
        angle_raw: be_u16(bytes[1], bytes[2]),
        turn_count: i8_of_byte(bytes[3]),
        speed_raw: i32_of_u32(be_u32(bytes[4], bytes[5], bytes[6], bytes[7])),
    }
}

/// Serializes a record into its eight-byte wire form.
pub fn serialize_record(rec: &TelemetryRecord) -> (r: Vec<u8>)
    ensures
        r@ == wire_record(*rec),
        r@.len() == 8,
{
    let angle = rec.angle_raw;
    let angle_hi = (angle >> 8) as u8;
    let angle_lo = (angle & 0xFF) as u8;
    proof {
        assert(angle >> 8 == angle / 256 && angle / 256 < 256) by (bit_vector);
        assert(angle & 0xFF == angle % 256 && angle % 256 < 256) by (bit_vector);
    }
    let t = rec.turn_count;
    let turn_byte = #[verifier::truncate] (t as u8);
    proof {
        assert(t >= 0 ==> t as u8 == t) by (bit_vector);
        assert(t < 0 ==> t as u8 == t + 256) by (bit_vector);
    }
    let x = rec.speed_raw;
    let w = #[verifier::truncate] (x as u32);
    proof {
        assert(x >= 0 ==> x as u32 == x) by (bit_vector);
        assert(x < 0 ==> x as u32 == x + 0x1_0000_0000) by (bit_vector);
    }
    let b3 = (w >> 24) as u8;
    let b2 = ((w >> 16) & 0xFF) as u8;
    let b1 = ((w >> 8) & 0xFF) as u8;
    let b0 = (w & 0xFF) as u8;
    proof {
        assert(w >> 24 == (w / 0x1000000) % 256 && w >> 24 < 256) by (bit_vector);
        assert((w >> 16) & 0xFF == (w / 0x10000) % 256 && (w >> 16) & 0xFF < 256) by (bit_vector);
        assert((w >> 8) & 0xFF == (w / 0x100) % 256 && (w >> 8) & 0xFF < 256) by (bit_vector);
        assert(w & 0xFF == w % 256 && w & 0xFF < 256) by (bit_vector);
    }
    let mut r: Vec<u8> = Vec::new();
    r.push(rec.address);
    r.push(angle_hi);
    r.push(angle_lo);
    r.push(turn_byte);
    r.push(b3);
    r.push(b2);
    r.push(b1);
    r.push(b0);
    assert(r@ =~= wire_record(*rec));
    r
}

/// Decodes a received wire record back into a telemetry record.
pub fn decode_record(bytes: &[u8]) -> (r: TelemetryRecord)
    requires
        bytes@.len() >= 8,
    ensures
        r == record_of_wire(bytes@),
{
    let angle: u16 = (bytes[1] as u16) * 256 + (bytes[2] as u16);
    let b = bytes[3];
    let turn = #[verifier::truncate] (b as i8);
    proof {
        assert(b < 128 ==> b as i8 == b) by (bit_vector);
        assert(b >= 128 ==> b as i8 == b - 256) by (bit_vector);
    }
    let b3 = bytes[4];
    let b2 = bytes[5];
    let b1 = bytes[6];
    let b0 = bytes[7];
    let w: u32 = (b3 as u32) << 24 | (b2 as u32) << 16 | (b1 as u32) << 8 | (b0 as u32);
    proof {
        assert((b3 as u32) << 24 | (b2 as u32) << 16 | (b1 as u32) << 8 | (b0 as u32)
            == (b3 * 0x1000000 + b2 * 0x10000 + b1 * 0x100 + b0) as u32) by (bit_vector);
    }
    let speed = word_as_i32(w);
    TelemetryRecord { address: bytes[0], angle_raw: angle, turn_count: turn, speed_raw: speed }
}

/// Law: the wire form loses nothing. Decoding the eight bytes the
/// publisher emits for a record gives back that record, whatever it held.
pub proof fn lemma_wire_round_trip(rec: TelemetryRecord)
    ensures
        record_of_wire(wire_record(rec)) == rec,
{
    let w = u32_of_i32(rec.speed_raw);
    assert(be_u16(u16_hi(rec.angle_raw), u16_lo(rec.angle_raw)) == rec.angle_raw) by {
        vstd::arithmetic::div_mod::lemma_fundamental_div_mod(rec.angle_raw as int, 256);
    };
    assert(be_u32(u32_byte(w, 3), u32_byte(w, 2), u32_byte(w, 1), u32_byte(w, 0)) == w) by {
        let x = w;
        assert(((x / 0x1000000) % 256) * 0x1000000 + ((x / 0x10000) % 256) * 0x10000
            + ((x / 0x100) % 256) * 0x100 + x % 256 == x) by (bit_vector);
    };
    assert(i8_of_byte(byte_of_i8(rec.turn_count)) == rec.turn_count);
    assert(i32_of_u32(u32_of_i32(rec.speed_raw)) == rec.speed_raw);
    assert(record_of_wire(wire_record(rec)) == rec);
}

} // verus!
