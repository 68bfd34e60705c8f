//! Subtraction and addition of decimal amounts (`mantissa / 10^scale`), exact
//! on the amounts whose result the decimal type holds exactly: scales up to 28
//! and mantissas, at the larger scale, below 2^96 in size.

use vstd::prelude::*;

use crate::booth_form::{lemma_pow10_monotone, lemma_pow10_positive, pow10, DecimalValue};

verus! {

/// The largest scale of a decimal.
pub const MAX_SCALE: u32 = 28;

/// Whether a mantissa fits the 96 bits of a decimal.
pub open spec fn fits(m: int) -> bool {
    -0x1_0000_0000_0000_0000_0000_0000 < m < 0x1_0000_0000_0000_0000_0000_0000
}

/// The mantissa of `d` written at a larger `scale`.
pub open spec fn aligned(d: DecimalValue, scale: nat) -> int {
    d.mantissa * pow10((scale - d.scale) as nat)
}

pub open spec fn larger_scale(a: DecimalValue, b: DecimalValue) -> u32 {
    if a.scale >= b.scale {
        a.scale
    } else {
        b.scale
    }
}

/// Whether `a - b` is exact: valid scales, and both amounts and their
/// difference fit at the larger scale.
pub open spec fn sub_exact(a: DecimalValue, b: DecimalValue) -> bool {
    let s = larger_scale(a, b) as nat;
    &&& a.scale <= MAX_SCALE
    &&& b.scale <= MAX_SCALE
    &&& fits(aligned(a, s))
    &&& fits(aligned(b, s))
    &&& fits(aligned(a, s) - aligned(b, s))
}

/// `a - b` at the larger of the two scales.
pub open spec fn sub_spec(a: DecimalValue, b: DecimalValue) -> DecimalValue {
    let s = larger_scale(a, b) as nat;
    DecimalValue { mantissa: (aligned(a, s) - aligned(b, s)) as i128, scale: larger_scale(a, b) }
}

proof fn lemma_pow10_step(k: nat)
    ensures
        pow10(k + 1) == 10 * pow10(k),
{
}

proof fn lemma_pow10_bound(k: nat)
    requires
        k <= 28,
    ensures
        1 <= pow10(k) <= 10_000_000_000_000_000_000_000_000_000,
{
    lemma_pow10_positive(k);
    assert(pow10(28) == 10_000_000_000_000_000_000_000_000_000) by {
        reveal_with_fuel(pow10, 29);
    }
    if k < 28 {
        lemma_pow10_monotone(k, 28);
    }
}

fn power_of_ten(k: u32) -> (r: i128)
    requires
        k <= 28,
    ensures
        r == pow10(k as nat),
{
    let mut r: i128 = 1;
    let mut i: u32 = 0;
    while i < k
        invariant
            i <= k <= 28,
            r == pow10(i as nat),
        decreases k - i,
    {
        proof {
            lemma_pow10_step(i as nat);
            lemma_pow10_bound((i + 1) as nat);
        }
        r = r * 10;
        i = i + 1;
    }
    r
}

fn align(d: DecimalValue, scale: u32) -> (r: i128)
    requires
        d.scale <= scale <= 28,
        fits(aligned(d, scale as nat)),
    ensures
        r == aligned(d, scale as nat),
{
    let f = power_of_ten(scale - d.scale);
    proof {
        lemma_pow10_bound((scale - d.scale) as nat);
    }
    assert(d.mantissa * f == aligned(d, scale as nat));
    d.mantissa * f
}

/// The difference of two decimal amounts, at the larger scale.
pub fn decimal_sub(a: DecimalValue, b: DecimalValue) -> (r: DecimalValue)
    requires
        sub_exact(a, b),
    ensures
        r == sub_spec(a, b),
{
    let s = if a.scale >= b.scale {
        a.scale
    } else {
        b.scale
    };
    let x = align(a, s);
    let y = align(b, s);
    DecimalValue { mantissa: x - y, scale: s }
}

/// Whether `a + b` is exact: valid scales, and both amounts and their sum fit
/// at the larger scale.
pub open spec fn add_exact(a: DecimalValue, b: DecimalValue) -> bool {
    let s = larger_scale(a, b) as nat;
    &&& a.scale <= MAX_SCALE
    &&& b.scale <= MAX_SCALE
    &&& fits(aligned(a, s))
    &&& fits(aligned(b, s))
    &&& fits(aligned(a, s) + aligned(b, s))
}

/// `a + b` at the larger of the two scales.
pub open spec fn add_spec(a: DecimalValue, b: DecimalValue) -> DecimalValue {
    let s = larger_scale(a, b) as nat;
    DecimalValue { mantissa: (aligned(a, s) + aligned(b, s)) as i128, scale: larger_scale(a, b) }
}

/// The mantissa of `d` at `scale`, where it fits 96 bits.
fn checked_align(d: DecimalValue, scale: u32) -> (r: Option<i128>)
    requires
        d.scale <= scale <= 28,
    ensures
        r == (if fits(aligned(d, scale as nat)) {
            Some(aligned(d, scale as nat) as i128)
        } else {
            None
        }),
{
    let f = power_of_ten(scale - d.scale);
    proof {
        lemma_pow10_bound((scale - d.scale) as nat);
    }
    match d.mantissa.checked_mul(f) {
        Some(x) => {
            if -0x1_0000_0000_0000_0000_0000_0000 < x && x < 0x1_0000_0000_0000_0000_0000_0000 {
                Some(x)
            } else {
                None
            }
        },
        None => None,
    }
}

/// The sum of two decimal amounts at the larger scale, where it is exact.
pub fn decimal_checked_add(a: DecimalValue, b: DecimalValue) -> (r: Option<DecimalValue>)
    ensures
        r == (if add_exact(a, b) {
            Some(add_spec(a, b))
        } else {
            None
        }),
{
    if a.scale > MAX_SCALE || b.scale > MAX_SCALE {
        return None;
    }
    let s = if a.scale >= b.scale {
        a.scale
    } else {
        b.scale
    };
    let x = match checked_align(a, s) {
        Some(x) => x,
        None => return None,
    };
    let y = match checked_align(b, s) {
        Some(y) => y,
        None => return None,
    };
    let z = x + y;
    if -0x1_0000_0000_0000_0000_0000_0000 < z && z < 0x1_0000_0000_0000_0000_0000_0000 {
        Some(DecimalValue { mantissa: z, scale: s })
    } else {
        None
    }
}

} // verus!
