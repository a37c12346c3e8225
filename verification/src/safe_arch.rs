//! Trusted wrappers around the `wide` crate's four- and eight-lane vector
//! types.
//!
//! These are the only trusted items of the crate. Each wrapper calls one
//! operation of `wide::u32x4` or `wide::u32x8` and states its lanewise
//! meaning over [`lanes`] or [`lanes8`], the names for the values a vector
//! holds. The `wide` crate documents these types as SIMD vectors of four or
//! eight `u32` elements; their integer arithmetic is wrapping, their shifts
//! mask the count to the lane width, and `new`/`to_array` convert to and
//! from plain arrays in lane order.
use vstd::prelude::*;

verus! {

#[verifier::external_type_specification]
#[verifier::external_body]
pub struct ExU32x4(wide::u32x4);

/// The four lanes a vector holds, in array order.
pub uninterp spec fn lanes(v: wide::u32x4) -> Seq<u32>;

/// Relies on `wide::u32x4::new`: lane `i` of the vector is element `i` of the
/// array.
#[verifier::external_body]
pub(crate) fn from_elems(e: [u32; 4]) -> (r: wide::u32x4)
    ensures
        lanes(r) == e@,
{
    wide::u32x4::new(e)
}

/// Relies on `wide::u32x4::splat`: every lane holds `x`.
#[verifier::external_body]
pub(crate) fn splat(x: u32) -> (r: wide::u32x4)
    ensures
        lanes(r) == Seq::new(4, |i: int| x),
{
    wide::u32x4::splat(x)
}

/// Relies on `wide`'s `Add` for `u32x4`: lanewise wrapping addition.
#[verifier::external_body]
pub(crate) fn add_u32(a: wide::u32x4, b: wide::u32x4) -> (r: wide::u32x4)
    ensures
        lanes(r) == Seq::new(4, |i: int| lanes(a)[i].wrapping_add(lanes(b)[i])),
{
    a + b
}

/// Relies on `wide`'s `BitXor` for `u32x4`: lanewise exclusive or.
#[verifier::external_body]
pub(crate) fn xor(a: wide::u32x4, b: wide::u32x4) -> (r: wide::u32x4)
    ensures
        lanes(r) == Seq::new(4, |i: int| lanes(a)[i] ^ lanes(b)[i]),
{
    a ^ b
}

/// Relies on `wide`'s `BitOr` for `u32x4`: lanewise inclusive or.
#[verifier::external_body]
pub(crate) fn or(a: wide::u32x4, b: wide::u32x4) -> (r: wide::u32x4)
    ensures
        lanes(r) == Seq::new(4, |i: int| lanes(a)[i] | lanes(b)[i]),
{
    a | b
}

/// Relies on `wide`'s `Shl<u32>` for `u32x4`: lanewise left shift. The crate
/// masks the count to the lane width, so for `n < 32` it is a plain shift.
#[verifier::external_body]
pub(crate) fn shift_left_u32(v: wide::u32x4, n: u32) -> (r: wide::u32x4)
    requires
        n < 32,
    ensures
        lanes(r) == Seq::new(4, |i: int| lanes(v)[i] << n),
{
    v << n
}

/// Relies on `wide`'s `Shr<u32>` for `u32x4`: lanewise logical right shift,
/// with the count masked as for the left shift.
#[verifier::external_body]
pub(crate) fn shift_right_u32(v: wide::u32x4, n: u32) -> (r: wide::u32x4)
    requires
        n < 32,
    ensures
        lanes(r) == Seq::new(4, |i: int| lanes(v)[i] >> n),
{
    v >> n
}

/// Relies on `wide::u32x4::to_array`: the array holds the lanes in order.
#[verifier::external_body]
pub(crate) fn to_elems(v: wide::u32x4) -> (r: [u32; 4])
    ensures
        r@ == lanes(v),
{
    v.to_array()
}

#[verifier::external_type_specification]
#[verifier::external_body]
pub struct ExU32x8(wide::u32x8);

/// The eight lanes a wide vector holds, in array order.
pub uninterp spec fn lanes8(v: wide::u32x8) -> Seq<u32>;

/// Relies on `wide::u32x8::new`: lane `i` of the vector is element `i` of the
/// array.
#[verifier::external_body]
pub(crate) fn from_elems8(e: [u32; 8]) -> (r: wide::u32x8)
    ensures
        lanes8(r) == e@,
{
    wide::u32x8::new(e)
}

/// Relies on `wide::u32x8::splat`: every lane holds `x`.
#[verifier::external_body]
pub(crate) fn splat8(x: u32) -> (r: wide::u32x8)
    ensures
        lanes8(r) == Seq::new(8, |i: int| x),
{
    wide::u32x8::splat(x)
}

/// Relies on `wide`'s `Add` for `u32x8`: lanewise wrapping addition.
#[verifier::external_body]
pub(crate) fn add8_u32(a: wide::u32x8, b: wide::u32x8) -> (r: wide::u32x8)
    ensures
        lanes8(r) == Seq::new(8, |i: int| lanes8(a)[i].wrapping_add(lanes8(b)[i])),
{
    a + b
}

/// Relies on `wide`'s `BitXor` for `u32x8`: lanewise exclusive or.
#[verifier::external_body]
pub(crate) fn xor8(a: wide::u32x8, b: wide::u32x8) -> (r: wide::u32x8)
    ensures
        lanes8(r) == Seq::new(8, |i: int| lanes8(a)[i] ^ lanes8(b)[i]),
{
    a ^ b
}

/// Relies on `wide`'s `BitOr` for `u32x8`: lanewise inclusive or.
#[verifier::external_body]
pub(crate) fn or8(a: wide::u32x8, b: wide::u32x8) -> (r: wide::u32x8)
    ensures
        lanes8(r) == Seq::new(8, |i: int| lanes8(a)[i] | lanes8(b)[i]),
{
    a | b
}

/// Relies on `wide`'s `Shl<u32>` for `u32x8`: lanewise left shift, with the
/// count masked to the lane width, so for `n < 32` a plain shift.
#[verifier::external_body]
pub(crate) fn shift_left8_u32(v: wide::u32x8, n: u32) -> (r: wide::u32x8)
    requires
        n < 32,
    ensures
        lanes8(r) == Seq::new(8, |i: int| lanes8(v)[i] << n),
{
    v << n
}

/// Relies on `wide`'s `Shr<u32>` for `u32x8`: lanewise logical right shift,
/// with the count masked as for the left shift.
#[verifier::external_body]
pub(crate) fn shift_right8_u32(v: wide::u32x8, n: u32) -> (r: wide::u32x8)
    requires
        n < 32,
    ensures
        lanes8(r) == Seq::new(8, |i: int| lanes8(v)[i] >> n),
{
    v >> n
}

/// Relies on `wide::u32x8::to_array`: the array holds the lanes in order.
#[verifier::external_body]
pub(crate) fn to_elems8(v: wide::u32x8) -> (r: [u32; 8])
    ensures
        r@ == lanes8(v),
{
    v.to_array()
}

} // verus!
