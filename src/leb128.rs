use vstd::prelude::*;

verus! {

use crate::reader::{leb_chunk, u32_leb, u32_leb_from, leb_sign_extend, i32_leb, i32_leb_from};

/// Number of bytes in the canonical unsigned LEB128 encoding of `v`.
pub open spec fn u32_leb_len(v: u32) -> nat {
    if v < 0x80 {
        1
    } else if v < 0x4000 {
        2
    } else if v < 0x20_0000 {
        3
    } else if v < 0x1000_0000 {
        4
    } else {
        5
    }
}

/// Canonical unsigned LEB128 encoding of `v`: seven bits per byte, low bits
/// first, the high bit set on every byte but the last.
pub open spec fn encode_u32_leb(v: u32) -> Seq<u8> {
    Seq::new(
        u32_leb_len(v),
        |i: int|
            {
                let low = ((v >> ((7 * i) as u32)) & 0x7f) as u8;
                if i + 1 < u32_leb_len(v) {
                    low | 0x80
                } else {
                    low
                }
            },
    )
}

/// Number of bytes in the canonical signed LEB128 encoding of `v`.
pub open spec fn i32_leb_len(v: i32) -> nat {
    if -0x40 <= v < 0x40 {
        1
    } else if -0x2000 <= v < 0x2000 {
        2
    } else if -0x10_0000 <= v < 0x10_0000 {
        3
    } else if -0x800_0000 <= v < 0x800_0000 {
        4
    } else {
        5
    }
}

/// Canonical signed LEB128 encoding of `v`: seven bits per byte of its two's
/// complement form, low bits first, until the rest is all sign.
pub open spec fn encode_i32_leb(v: i32) -> Seq<u8> {
    Seq::new(
        i32_leb_len(v),
        |i: int|
            {
                let low = ((v >> ((7 * i) as u32)) & 0x7f) as u8;
                if i + 1 < i32_leb_len(v) {
                    low | 0x80
                } else {
                    low
                }
            },
    )
}

/// Decoding the canonical unsigned LEB128 encoding of any `u32`, whatever
/// follows it, gives back the value and consumes exactly the encoding.
pub proof fn lemma_u32_leb_round_trip(v: u32, tail: Seq<u8>)
    ensures
        u32_leb(encode_u32_leb(v) + tail) == Ok::<(u32, nat), crate::error::KedgeError>(
            (v, u32_leb_len(v)),
        ),
{
    let e = encode_u32_leb(v);
    let s = e + tail;
    let n = u32_leb_len(v);
    assert forall|i: int| 0 <= i < n implies s[i] == e[i] by {}
    reveal_with_fuel(u32_leb_from, 6);
    let b0 = s[0];
    let b1 = s[1];
    let b2 = s[2];
    let b3 = s[3];
    let b4 = s[4];
    let c0 = leb_chunk(b0, 0);
    let c1 = leb_chunk(b1, 1);
    let c2 = leb_chunk(b2, 2);
    let c3 = leb_chunk(b3, 3);
    let c4 = leb_chunk(b4, 4);
    if n == 1 {
        assert(b0 & 0x80 == 0 && (0u32 | c0) == v) by (bit_vector)
            requires
                v < 0x80,
                b0 == ((v >> 0u32) & 0x7f) as u8,
                c0 == ((b0 & 0x7f) as u32) << 0u32,
        ;
    } else if n == 2 {
        assert(b0 & 0x80 != 0 && b1 & 0x80 == 0 && ((0u32 | c0) | c1) == v) by (bit_vector)
            requires
                0x80 <= v < 0x4000,
                b0 == ((v >> 0u32) & 0x7f) as u8 | 0x80,
                b1 == ((v >> 7u32) & 0x7f) as u8,
                c0 == ((b0 & 0x7f) as u32) << 0u32,
                c1 == ((b1 & 0x7f) as u32) << 7u32,
        ;
    } else if n == 3 {
        assert(b0 & 0x80 != 0 && b1 & 0x80 != 0 && b2 & 0x80 == 0 && (((0u32 | c0) | c1) | c2)
            == v) by (bit_vector)
            requires
                0x4000 <= v < 0x20_0000,
                b0 == ((v >> 0u32) & 0x7f) as u8 | 0x80,
                b1 == ((v >> 7u32) & 0x7f) as u8 | 0x80,
                b2 == ((v >> 14u32) & 0x7f) as u8,
                c0 == ((b0 & 0x7f) as u32) << 0u32,
                c1 == ((b1 & 0x7f) as u32) << 7u32,
                c2 == ((b2 & 0x7f) as u32) << 14u32,
        ;
    } else if n == 4 {
        assert(b0 & 0x80 != 0 && b1 & 0x80 != 0 && b2 & 0x80 != 0 && b3 & 0x80 == 0 && ((((0u32
            | c0) | c1) | c2) | c3) == v) by (bit_vector)
            requires
                0x20_0000 <= v < 0x1000_0000,
                b0 == ((v >> 0u32) & 0x7f) as u8 | 0x80,
                b1 == ((v >> 7u32) & 0x7f) as u8 | 0x80,
                b2 == ((v >> 14u32) & 0x7f) as u8 | 0x80,
                b3 == ((v >> 21u32) & 0x7f) as u8,
                c0 == ((b0 & 0x7f) as u32) << 0u32,
                c1 == ((b1 & 0x7f) as u32) << 7u32,
                c2 == ((b2 & 0x7f) as u32) << 14u32,
                c3 == ((b3 & 0x7f) as u32) << 21u32,
        ;
    } else {
        assert(b0 & 0x80 != 0 && b1 & 0x80 != 0 && b2 & 0x80 != 0 && b3 & 0x80 != 0 && b4 & 0x80
            == 0 && (((((0u32 | c0) | c1) | c2) | c3) | c4) == v) by (bit_vector)
            requires
                0x1000_0000 <= v,
                b0 == ((v >> 0u32) & 0x7f) as u8 | 0x80,
                b1 == ((v >> 7u32) & 0x7f) as u8 | 0x80,
                b2 == ((v >> 14u32) & 0x7f) as u8 | 0x80,
                b3 == ((v >> 21u32) & 0x7f) as u8 | 0x80,
                b4 == ((v >> 28u32) & 0x7f) as u8,
                c0 == ((b0 & 0x7f) as u32) << 0u32,
                c1 == ((b1 & 0x7f) as u32) << 7u32,
                c2 == ((b2 & 0x7f) as u32) << 14u32,
                c3 == ((b3 & 0x7f) as u32) << 21u32,
                c4 == ((b4 & 0x7f) as u32) << 28u32,
        ;
    }
}

/// Decoding the canonical signed LEB128 encoding of any `i32`, whatever
/// follows it, gives back the value (negative ones through sign extension)
/// and consumes exactly the encoding.
pub proof fn lemma_i32_leb_round_trip(v: i32, tail: Seq<u8>)
    ensures
        i32_leb(encode_i32_leb(v) + tail) == Ok::<(i32, nat), crate::error::KedgeError>(
            (v, i32_leb_len(v)),
        ),
{
    let e = encode_i32_leb(v);
    let s = e + tail;
    let n = i32_leb_len(v);
    assert forall|i: int| 0 <= i < n implies s[i] == e[i] by {}
    reveal_with_fuel(i32_leb_from, 6);
    let b0 = s[0];
    let b1 = s[1];
    let b2 = s[2];
    let b3 = s[3];
    let b4 = s[4];
    let c0 = leb_chunk(b0, 0);
    let c1 = leb_chunk(b1, 1);
    let c2 = leb_chunk(b2, 2);
    let c3 = leb_chunk(b3, 3);
    let c4 = leb_chunk(b4, 4);
    if n == 1 {
        assert(b0 & 0x80 == 0 && (if b0 & 0x40 != 0 { (0u32 | c0) | (0xffff_ffffu32 << 7u32) } else { (0u32 | c0) }) as i32 == v) by (bit_vector)
            requires
                -0x40 <= v < 0x40,
                b0 == ((v >> 0u32) & 0x7f) as u8,
                c0 == ((b0 & 0x7f) as u32) << 0u32,
        ;
    } else if n == 2 {
        assert(b0 & 0x80 != 0 && b1 & 0x80 == 0 && (if b1 & 0x40 != 0 { ((0u32 | c0) | c1) | (0xffff_ffffu32 << 14u32) } else { ((0u32 | c0) | c1) }) as i32 == v) by (bit_vector)
            requires
                (-0x2000 <= v < -0x40 || 0x40 <= v < 0x2000),
                b0 == ((v >> 0u32) & 0x7f) as u8 | 0x80,
                b1 == ((v >> 7u32) & 0x7f) as u8,
                c0 == ((b0 & 0x7f) as u32) << 0u32,
                c1 == ((b1 & 0x7f) as u32) << 7u32,
        ;
    } else if n == 3 {
        assert(b0 & 0x80 != 0 && b1 & 0x80 != 0 && b2 & 0x80 == 0 && (if b2 & 0x40 != 0 { (((0u32 | c0) | c1) | c2) | (0xffff_ffffu32 << 21u32) } else { (((0u32 | c0) | c1) | c2) }) as i32 == v) by (bit_vector)
            requires
                (-0x10_0000 <= v < -0x2000 || 0x2000 <= v < 0x10_0000),
                b0 == ((v >> 0u32) & 0x7f) as u8 | 0x80,
                b1 == ((v >> 7u32) & 0x7f) as u8 | 0x80,
                b2 == ((v >> 14u32) & 0x7f) as u8,
                c0 == ((b0 & 0x7f) as u32) << 0u32,
                c1 == ((b1 & 0x7f) as u32) << 7u32,
                c2 == ((b2 & 0x7f) as u32) << 14u32,
        ;
    } else if n == 4 {
        assert(b0 & 0x80 != 0 && b1 & 0x80 != 0 && b2 & 0x80 != 0 && b3 & 0x80 == 0 && (if b3 & 0x40 != 0 { ((((0u32 | c0) | c1) | c2) | c3) | (0xffff_ffffu32 << 28u32) } else { ((((0u32 | c0) | c1) | c2) | c3) }) as i32 == v) by (bit_vector)
            requires
                (-0x800_0000 <= v < -0x10_0000 || 0x10_0000 <= v < 0x800_0000),
                b0 == ((v >> 0u32) & 0x7f) as u8 | 0x80,
                b1 == ((v >> 7u32) & 0x7f) as u8 | 0x80,
                b2 == ((v >> 14u32) & 0x7f) as u8 | 0x80,
                b3 == ((v >> 21u32) & 0x7f) as u8,
                c0 == ((b0 & 0x7f) as u32) << 0u32,
                c1 == ((b1 & 0x7f) as u32) << 7u32,
                c2 == ((b2 & 0x7f) as u32) << 14u32,
                c3 == ((b3 & 0x7f) as u32) << 21u32,
        ;
    } else {
        assert(b0 & 0x80 != 0 && b1 & 0x80 != 0 && b2 & 0x80 != 0 && b3 & 0x80 != 0 && b4 & 0x80 == 0 && (((((0u32 | c0) | c1) | c2) | c3) | c4) as i32 == v) by (bit_vector)
            requires
                (v < -0x800_0000 || 0x800_0000 <= v),
                b0 == ((v >> 0u32) & 0x7f) as u8 | 0x80,
                b1 == ((v >> 7u32) & 0x7f) as u8 | 0x80,
                b2 == ((v >> 14u32) & 0x7f) as u8 | 0x80,
                b3 == ((v >> 21u32) & 0x7f) as u8 | 0x80,
                b4 == ((v >> 28u32) & 0x7f) as u8,
                c0 == ((b0 & 0x7f) as u32) << 0u32,
                c1 == ((b1 & 0x7f) as u32) << 7u32,
                c2 == ((b2 & 0x7f) as u32) << 14u32,
                c3 == ((b3 & 0x7f) as u32) << 21u32,
                c4 == ((b4 & 0x7f) as u32) << 28u32,
        ;
    }
}

} // verus!
