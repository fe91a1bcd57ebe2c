//! Little-endian readers over raw shared-memory snapshots, and the gear glyph
//! that every source reports its gear as.

use vstd::prelude::*;

verus! {

/// The unsigned 16-bit little-endian value stored at `o`.
pub open spec fn le_u16_at(b: Seq<u8>, o: int) -> int {
    b[o] + 256 * b[o + 1]
}

/// The unsigned 32-bit little-endian value stored at `o`.
pub open spec fn le_u32_at(b: Seq<u8>, o: int) -> int {
    b[o] + 256 * b[o + 1] + 65536 * b[o + 2] + 16777216 * b[o + 3]
}

/// The signed (two's complement) 32-bit little-endian value stored at `o`.
pub open spec fn le_i32_at(b: Seq<u8>, o: int) -> i32 {
    let u = le_u32_at(b, o);
    if u < 0x8000_0000 {
        u as i32
    } else {
        (u - 0x1_0000_0000) as i32
    }
}

/// Reads the unsigned 16-bit little-endian value at `o`.
pub fn le_u16(b: &[u8], o: usize) -> (v: u16)
    requires
        o + 2 <= b.len(),
    ensures
        v == le_u16_at(b@, o as int),
{
    let lo = b[o] as u16;
    let hi = b[o + 1] as u16;
    lo + 256 * hi
}

/// Reads the signed 32-bit little-endian value at `o`.
pub fn le_i32(b: &[u8], o: usize) -> (v: i32)
    requires
        o + 4 <= b.len(),
    ensures
        v == le_i32_at(b@, o as int),
{
    let u: u32 = b[o] as u32 + 256 * (b[o + 1] as u32) + 65536 * (b[o + 2] as u32) + 16777216 * (
    b[o + 3] as u32);
    if u < 0x8000_0000 {
        u as i32
    } else {
        let low = (u - 0x8000_0000) as i32;
        low - 0x7fff_ffff - 1
    }
}

/// The glyph shown for a numeric gear: `R` below zero, `N` at zero, the digit
/// for 1 to 9, and `9` above that.
pub open spec fn gear_glyph(n: int) -> u8 {
    if n < 0 {
        82u8
    } else if n == 0 {
        78u8
    } else if n <= 9 {
        (48 + n) as u8
    } else {
        57u8
    }
}

/// The gear glyph for a numeric gear (`-1` reverse, `0` neutral, `1..` forward).
pub fn gear_byte(n: i32) -> (g: u8)
    ensures
        g == gear_glyph(n as int),
{
    if n < 0 {
        82u8
    } else if n == 0 {
        78u8
    } else if n <= 9 {
        48u8 + (n as u8)
    } else {
        57u8
    }
}

/// `v` clamped below at zero.
pub open spec fn nonneg(v: i32) -> i32 {
    if v < 0 {
        0
    } else {
        v
    }
}

/// `v` clamped to the range `lo..=hi`.
pub open spec fn clamp_to(v: int, lo: int, hi: int) -> int {
    if v < lo {
        lo
    } else if v > hi {
        hi
    } else {
        v
    }
}


/// Law (little-endian two's complement): the `i32` stored at `o` is negative
/// exactly when the high bit of its last byte is set, and it is the four bytes
/// taken least significant first, less 2^32 when negative.
pub proof fn lemma_le_i32_bytes(b: Seq<u8>, o: int)
    ensures
        (le_i32_at(b, o) < 0) == (b[o + 3] >= 128),
        le_i32_at(b, o) as int + (if b[o + 3] >= 128 { 0x1_0000_0000int } else { 0int }) == b[o] as int + 256
            * b[o + 1] + 65536 * b[o + 2] + 16777216 * b[o + 3],
{
}

/// Law (little-endian u16): the value at `o` is the two bytes, least
/// significant first.
pub proof fn lemma_le_u16_bytes(b: Seq<u8>, o: int)
    ensures
        le_u16_at(b, o) == b[o] as int + 256 * b[o + 1],
        0 <= le_u16_at(b, o) < 65536,
{
}
} // verus!
