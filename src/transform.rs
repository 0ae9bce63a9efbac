//! The zigzag transform at each supported width.
use vstd::arithmetic::power2::{lemma2_to64, lemma2_to64_rest, lemma_pow2_adds};
use vstd::prelude::*;

use crate::model::{
    lemma_unzigzag_zigzag, lemma_zigzag_bijective, signed_fits, unsigned_fits, unzigzag, zigzag,
};

verus! {

/// Maps a signed integer to the unsigned integer of the same width so that
/// values of small magnitude, of either sign, become small unsigned values.
///
/// Each signed type is paired with exactly one unsigned type, `UInt`, so a
/// value can only be transformed at its own width.
pub trait ZigZag: Sized {
    /// The unsigned type of the same width.
    type UInt;

    /// The width in bits, shared by `Self` and `UInt`.
    spec fn bits() -> nat;

    /// The mathematical value of a signed value.
    spec fn signed_value(x: Self) -> int;

    /// The mathematical value of an unsigned value.
    spec fn unsigned_value(u: Self::UInt) -> int;

    /// The signed values are the two's-complement integers of the width, each
    /// held by exactly one value; the unsigned values are the unsigned
    /// integers of the width, each held by exactly one value.
    proof fn lemma_values()
        ensures
            Self::bits() >= 1,
            forall|x: Self| #[trigger] signed_fits(Self::bits(), Self::signed_value(x)),
            forall|x: Self, y: Self|
                #[trigger] Self::signed_value(x) == #[trigger] Self::signed_value(y) ==> x == y,
            forall|i: int|
                #[trigger] signed_fits(Self::bits(), i) ==> exists|x: Self|
                    #[trigger] Self::signed_value(x) == i,
            forall|u: Self::UInt| #[trigger] unsigned_fits(Self::bits(), Self::unsigned_value(u)),
            forall|u: Self::UInt, v: Self::UInt|
                #[trigger] Self::unsigned_value(u) == #[trigger] Self::unsigned_value(v) ==> u == v,
            forall|i: int|
                #[trigger] unsigned_fits(Self::bits(), i) ==> exists|u: Self::UInt|
                    #[trigger] Self::unsigned_value(u) == i,
    ;

    /// Non-negative `x` becomes `2x`, negative `x` becomes `-2x - 1`.
    fn encode(value: Self) -> (r: Self::UInt)
        ensures
            Self::unsigned_value(r) == zigzag(Self::signed_value(value)),
    ;

    /// The inverse of `encode`: even `u` becomes `u / 2`, odd `u` becomes
    /// `-(u + 1) / 2`.
    fn decode(value: Self::UInt) -> (r: Self)
        ensures
            Self::signed_value(r) == unzigzag(Self::unsigned_value(value)),
    ;
}

/// Decoding what `encode` returns for `x` gives `x` back: if `u` is the
/// encoding of `x` and `y` the decoding of `u`, then `y` is `x`.
pub proof fn lemma_round_trip<T: ZigZag>(x: T, u: T::UInt, y: T)
    requires
        T::unsigned_value(u) == zigzag(T::signed_value(x)),
        T::signed_value(y) == unzigzag(T::unsigned_value(u)),
    ensures
        y == x,
{
    T::lemma_values();
    lemma_unzigzag_zigzag(T::signed_value(x));
}

/// No two signed values of a width have the same encoding.
pub proof fn lemma_encode_injective<T: ZigZag>(x: T, y: T, u: T::UInt)
    requires
        T::unsigned_value(u) == zigzag(T::signed_value(x)),
        T::unsigned_value(u) == zigzag(T::signed_value(y)),
    ensures
        x == y,
{
    T::lemma_values();
    lemma_unzigzag_zigzag(T::signed_value(x));
    lemma_unzigzag_zigzag(T::signed_value(y));
}

/// Every unsigned value of a width is the encoding of some signed value of
/// that width.
pub proof fn lemma_encode_onto<T: ZigZag>(u: T::UInt)
    ensures
        exists|x: T| T::unsigned_value(u) == zigzag(#[trigger] T::signed_value(x)),
{
    T::lemma_values();
    lemma_zigzag_bijective(T::bits());
    let i = unzigzag(T::unsigned_value(u));
    assert(signed_fits(T::bits(), i));
    let x = choose|x: T| #[trigger] T::signed_value(x) == i;
    assert(T::unsigned_value(u) == zigzag(T::signed_value(x)));
}

/// At 8 bits, shifting left, xoring with the sign mask and reading the
/// bits as unsigned gives the zigzag image.
proof fn lemma_encode_i8(v: i8)
    by (bit_vector)
    ensures
        v >= 0 ==> ((v << 1u32) ^ (v >> 7u32)) as u8 == 2 * v,
        v < 0 ==> ((v << 1u32) ^ (v >> 7u32)) as u8 == -2 * v - 1,
{
}

/// At 8 bits, shifting right and xoring with the negated low bit gives
/// the zigzag preimage.
proof fn lemma_decode_u8(u: u8)
    by (bit_vector)
    ensures
        u & 1u8 <= 1u8,
        u % 2 == 0 ==> ((u >> 1u32) ^ (-((u & 1u8) as i8)) as u8) as i8 == u / 2,
        u % 2 == 1 ==> ((u >> 1u32) ^ (-((u & 1u8) as i8)) as u8) as i8 == -1i8 - (u / 2) as i8,
{
}

impl ZigZag for i8 {
    type UInt = u8;

    open spec fn bits() -> nat {
        8
    }

    open spec fn signed_value(x: i8) -> int {
        x as int
    }

    open spec fn unsigned_value(u: u8) -> int {
        u as int
    }

    proof fn lemma_values() {
        lemma2_to64();
        assert forall|i: int| #[trigger] signed_fits(8, i) implies exists|x: i8|
            #[trigger] Self::signed_value(x) == i by {
            assert(Self::signed_value(i as i8) == i);
        }
        assert forall|i: int| #[trigger] unsigned_fits(8, i) implies exists|u: u8|
            #[trigger] Self::unsigned_value(u) == i by {
            assert(Self::unsigned_value(i as u8) == i);
        }
    }

    fn encode(value: i8) -> (r: u8)
        ensures
            r == zigzag(value as int),
    {
        proof {
            lemma_encode_i8(value);
        }
        let sign: i8 = value >> 7u32;
        let s: i8 = (value << 1u32) ^ sign;
        #[verifier::truncate]
        (s as u8)
    }

    fn decode(value: u8) -> (r: i8)
        ensures
            r == unzigzag(value as int),
    {
        proof {
            lemma_decode_u8(value);
        }
        let shr1: u8 = value >> 1u32;
        let low: i8 = (value & 1u8) as i8;
        let mask: u8 = #[verifier::truncate] ((-low) as u8);
        #[verifier::truncate]
        ((shr1 ^ mask) as i8)
    }
}

/// At 16 bits, shifting left, xoring with the sign mask and reading the
/// bits as unsigned gives the zigzag image.
proof fn lemma_encode_i16(v: i16)
    by (bit_vector)
    ensures
        v >= 0 ==> ((v << 1u32) ^ (v >> 15u32)) as u16 == 2 * v,
        v < 0 ==> ((v << 1u32) ^ (v >> 15u32)) as u16 == -2 * v - 1,
{
}

/// At 16 bits, shifting right and xoring with the negated low bit gives
/// the zigzag preimage.
proof fn lemma_decode_u16(u: u16)
    by (bit_vector)
    ensures
        u & 1u16 <= 1u16,
        u % 2 == 0 ==> ((u >> 1u32) ^ (-((u & 1u16) as i16)) as u16) as i16 == u / 2,
        u % 2 == 1 ==> ((u >> 1u32) ^ (-((u & 1u16) as i16)) as u16) as i16 == -1i16 - (u / 2) as i16,
{
}

impl ZigZag for i16 {
    type UInt = u16;

    open spec fn bits() -> nat {
        16
    }

    open spec fn signed_value(x: i16) -> int {
        x as int
    }

    open spec fn unsigned_value(u: u16) -> int {
        u as int
    }

    proof fn lemma_values() {
        lemma2_to64();
        assert forall|i: int| #[trigger] signed_fits(16, i) implies exists|x: i16|
            #[trigger] Self::signed_value(x) == i by {
            assert(Self::signed_value(i as i16) == i);
        }
        assert forall|i: int| #[trigger] unsigned_fits(16, i) implies exists|u: u16|
            #[trigger] Self::unsigned_value(u) == i by {
            assert(Self::unsigned_value(i as u16) == i);
        }
    }

    fn encode(value: i16) -> (r: u16)
        ensures
            r == zigzag(value as int),
    {
        proof {
            lemma_encode_i16(value);
        }
        let sign: i16 = value >> 15u32;
        let s: i16 = (value << 1u32) ^ sign;
        #[verifier::truncate]
        (s as u16)
    }

    fn decode(value: u16) -> (r: i16)
        ensures
            r == unzigzag(value as int),
    {
        proof {
            lemma_decode_u16(value);
        }
        let shr1: u16 = value >> 1u32;
        let low: i16 = (value & 1u16) as i16;
        let mask: u16 = #[verifier::truncate] ((-low) as u16);
        #[verifier::truncate]
        ((shr1 ^ mask) as i16)
    }
}

/// At 32 bits, shifting left, xoring with the sign mask and reading the
/// bits as unsigned gives the zigzag image.
proof fn lemma_encode_i32(v: i32)
    by (bit_vector)
    ensures
        v >= 0 ==> ((v << 1u32) ^ (v >> 31u32)) as u32 == 2 * v,
        v < 0 ==> ((v << 1u32) ^ (v >> 31u32)) as u32 == -2 * v - 1,
{
}

/// At 32 bits, shifting right and xoring with the negated low bit gives
/// the zigzag preimage.
proof fn lemma_decode_u32(u: u32)
    by (bit_vector)
    ensures
        u & 1u32 <= 1u32,
        u % 2 == 0 ==> ((u >> 1u32) ^ (-((u & 1u32) as i32)) as u32) as i32 == u / 2,
        u % 2 == 1 ==> ((u >> 1u32) ^ (-((u & 1u32) as i32)) as u32) as i32 == -1i32 - (u / 2) as i32,
{
}

impl ZigZag for i32 {
    type UInt = u32;

    open spec fn bits() -> nat {
        32
    }

    open spec fn signed_value(x: i32) -> int {
        x as int
    }

    open spec fn unsigned_value(u: u32) -> int {
        u as int
    }

    proof fn lemma_values() {
        lemma2_to64();
        assert forall|i: int| #[trigger] signed_fits(32, i) implies exists|x: i32|
            #[trigger] Self::signed_value(x) == i by {
            assert(Self::signed_value(i as i32) == i);
        }
        assert forall|i: int| #[trigger] unsigned_fits(32, i) implies exists|u: u32|
            #[trigger] Self::unsigned_value(u) == i by {
            assert(Self::unsigned_value(i as u32) == i);
        }
    }

    fn encode(value: i32) -> (r: u32)
        ensures
            r == zigzag(value as int),
    {
        proof {
            lemma_encode_i32(value);
        }
        let sign: i32 = value >> 31u32;
        let s: i32 = (value << 1u32) ^ sign;
        #[verifier::truncate]
        (s as u32)
    }

    fn decode(value: u32) -> (r: i32)
        ensures
            r == unzigzag(value as int),
    {
        proof {
            lemma_decode_u32(value);
        }
        let shr1: u32 = value >> 1u32;
        let low: i32 = (value & 1u32) as i32;
        let mask: u32 = #[verifier::truncate] ((-low) as u32);
        #[verifier::truncate]
        ((shr1 ^ mask) as i32)
    }
}

/// At 64 bits, shifting left, xoring with the sign mask and reading the
/// bits as unsigned gives the zigzag image.
proof fn lemma_encode_i64(v: i64)
    by (bit_vector)
    ensures
        v >= 0 ==> ((v << 1u32) ^ (v >> 63u32)) as u64 == 2 * v,
        v < 0 ==> ((v << 1u32) ^ (v >> 63u32)) as u64 == -2 * v - 1,
{
}

/// At 64 bits, shifting right and xoring with the negated low bit gives
/// the zigzag preimage.
proof fn lemma_decode_u64(u: u64)
    by (bit_vector)
    ensures
        u & 1u64 <= 1u64,
        u % 2 == 0 ==> ((u >> 1u32) ^ (-((u & 1u64) as i64)) as u64) as i64 == u / 2,
        u % 2 == 1 ==> ((u >> 1u32) ^ (-((u & 1u64) as i64)) as u64) as i64 == -1i64 - (u / 2) as i64,
{
}

impl ZigZag for i64 {
    type UInt = u64;

    open spec fn bits() -> nat {
        64
    }

    open spec fn signed_value(x: i64) -> int {
        x as int
    }

    open spec fn unsigned_value(u: u64) -> int {
        u as int
    }

    proof fn lemma_values() {
        lemma2_to64();
        lemma2_to64_rest();
        assert forall|i: int| #[trigger] signed_fits(64, i) implies exists|x: i64|
            #[trigger] Self::signed_value(x) == i by {
            assert(Self::signed_value(i as i64) == i);
        }
        assert forall|i: int| #[trigger] unsigned_fits(64, i) implies exists|u: u64|
            #[trigger] Self::unsigned_value(u) == i by {
            assert(Self::unsigned_value(i as u64) == i);
        }
    }

    fn encode(value: i64) -> (r: u64)
        ensures
            r == zigzag(value as int),
    {
        proof {
            lemma_encode_i64(value);
        }
        let sign: i64 = value >> 63u32;
        let s: i64 = (value << 1u32) ^ sign;
        #[verifier::truncate]
        (s as u64)
    }

    fn decode(value: u64) -> (r: i64)
        ensures
            r == unzigzag(value as int),
    {
        proof {
            lemma_decode_u64(value);
        }
        let shr1: u64 = value >> 1u32;
        let low: i64 = (value & 1u64) as i64;
        let mask: u64 = #[verifier::truncate] ((-low) as u64);
        #[verifier::truncate]
        ((shr1 ^ mask) as i64)
    }
}

/// At 128 bits, shifting left, xoring with the sign mask and reading the
/// bits as unsigned gives the zigzag image.
proof fn lemma_encode_i128(v: i128)
    by (bit_vector)
    ensures
        v >= 0 ==> ((v << 1u32) ^ (v >> 127u32)) as u128 == 2 * v,
        v < 0 ==> ((v << 1u32) ^ (v >> 127u32)) as u128 == -2 * v - 1,
{
}

/// At 128 bits, shifting right and xoring with the negated low bit gives
/// the zigzag preimage.
proof fn lemma_decode_u128(u: u128)
    by (bit_vector)
    ensures
        u & 1u128 <= 1u128,
        u % 2 == 0 ==> ((u >> 1u32) ^ (-((u & 1u128) as i128)) as u128) as i128 == u / 2,
        u % 2 == 1 ==> ((u >> 1u32) ^ (-((u & 1u128) as i128)) as u128) as i128 == -1i128 - (u / 2) as i128,
{
}

impl ZigZag for i128 {
    type UInt = u128;

    open spec fn bits() -> nat {
        128
    }

    open spec fn signed_value(x: i128) -> int {
        x as int
    }

    open spec fn unsigned_value(u: u128) -> int {
        u as int
    }

    proof fn lemma_values() {
        lemma2_to64();
        lemma2_to64_rest();
        lemma_pow2_adds(63, 64);
        lemma_pow2_adds(64, 64);
        assert forall|i: int| #[trigger] signed_fits(128, i) implies exists|x: i128|
            #[trigger] Self::signed_value(x) == i by {
            assert(Self::signed_value(i as i128) == i);
        }
        assert forall|i: int| #[trigger] unsigned_fits(128, i) implies exists|u: u128|
            #[trigger] Self::unsigned_value(u) == i by {
            assert(Self::unsigned_value(i as u128) == i);
        }
    }

    fn encode(value: i128) -> (r: u128)
        ensures
            r == zigzag(value as int),
    {
        proof {
            lemma_encode_i128(value);
        }
        let sign: i128 = value >> 127u32;
        let s: i128 = (value << 1u32) ^ sign;
        #[verifier::truncate]
        (s as u128)
    }

    fn decode(value: u128) -> (r: i128)
        ensures
            r == unzigzag(value as int),
    {
        proof {
            lemma_decode_u128(value);
        }
        let shr1: u128 = value >> 1u32;
        let low: i128 = (value & 1u128) as i128;
        let mask: u128 = #[verifier::truncate] ((-low) as u128);
        #[verifier::truncate]
        ((shr1 ^ mask) as i128)
    }
}

} // verus!
