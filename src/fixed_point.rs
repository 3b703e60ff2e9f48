//! Signed fixed-point numbers with 80 integer and 48 fraction bits, held as
//! their raw `i128` bits. The arithmetic is that of `fixed::types::I80F48`.
use vstd::prelude::*;

verus! {

/// Raw bits of the fixed-point value one.
pub const ONE_BITS: i128 = 0x1_0000_0000_0000;

/// The value one in raw bits.
pub open spec fn one() -> int {
    0x1_0000_0000_0000
}

pub open spec fn in_i128(x: int) -> bool {
    i128::MIN <= x <= i128::MAX
}

/// The product of two values given by their bits: the wide product shifted
/// right by the fraction bits, that is rounded toward negative infinity.
pub open spec fn mul_bits(a: int, b: int) -> int {
    (a * b) / one()
}

/// `n / d` rounded toward zero.
pub open spec fn trunc_div(n: int, d: int) -> int
    recommends
        d != 0,
{
    let q = (if n < 0 { -n } else { n }) / (if d < 0 { -d } else { d });
    if (n < 0) != (d < 0) {
        -q
    } else {
        q
    }
}

/// The quotient of two values given by their bits, rounded toward zero.
pub open spec fn div_bits(a: int, b: int) -> int
    recommends
        b != 0,
{
    trunc_div(a * one(), b)
}

/// Relies on `fixed::types::I80F48::checked_mul`: the product of the bits
/// shifted right by 48, `None` when it does not fit in 128 bits.
#[verifier::external_body]
pub(crate) fn fx_mul(a: i128, b: i128) -> (r: Option<i128>)
    ensures
        r.is_some() == in_i128(mul_bits(a as int, b as int)),
        r.is_some() ==> r.unwrap() as int == mul_bits(a as int, b as int),
{
    let x = ::fixed::types::I80F48::from_bits(a);
    let y = ::fixed::types::I80F48::from_bits(b);
    match x.checked_mul(y) {
        Some(p) => Some(p.to_bits()),
        None => None,
    }
}

/// Relies on `fixed::types::I80F48::checked_div`: the dividend's bits widened
/// by 48 fraction bits divided by the divisor's bits, rounded toward zero;
/// `None` on a zero divisor or when the quotient does not fit.
#[verifier::external_body]
pub(crate) fn fx_div(a: i128, b: i128) -> (r: Option<i128>)
    ensures
        r.is_some() == (b != 0 && in_i128(div_bits(a as int, b as int))),
        r.is_some() ==> r.unwrap() as int == div_bits(a as int, b as int),
{
    let x = ::fixed::types::I80F48::from_bits(a);
    let y = ::fixed::types::I80F48::from_bits(b);
    match x.checked_div(y) {
        Some(q) => Some(q.to_bits()),
        None => None,
    }
}

/// Relies on `fixed::types::I80F48::from_num` on an `i64`: exact, the
/// integer shifted left by 48 bits.
#[verifier::external_body]
pub(crate) fn fx_from_i64(v: i64) -> (r: i128)
    ensures
        r as int == v as int * one(),
{
    ::fixed::types::I80F48::from_num(v).to_bits()
}

/// Checked addition of two fixed-point values.
pub fn fx_add(a: i128, b: i128) -> (r: Option<i128>)
    ensures
        r.is_some() == in_i128(a + b),
        r.is_some() ==> r.unwrap() == a + b,
{
    a.checked_add(b)
}

/// Checked subtraction of two fixed-point values.
pub fn fx_sub(a: i128, b: i128) -> (r: Option<i128>)
    ensures
        r.is_some() == in_i128(a - b),
        r.is_some() ==> r.unwrap() == a - b,
{
    a.checked_sub(b)
}

/// The fixed-point value of an unsigned native amount.
pub fn fx_from_u64(v: u64) -> (r: i128)
    ensures
        r as int == v as int * one(),
{
    proof {
        assert(v as int * one() <= 0xffff_ffff_ffff_ffff * 0x1_0000_0000_0000) by (nonlinear_arith)
            requires v <= 0xffff_ffff_ffff_ffffu64;
    }
    (v as i128) * ONE_BITS
}

} // verus!
