use vstd::prelude::*;
use vstd::arithmetic::power2::{
    pow2, lemma_pow2_pos, lemma_pow2_unfold, lemma_pow2_strictly_increases, lemma2_to64, lemma2_to64_rest,
};
use vstd::bits::lemma_u64_pow2_no_overflow;
use vstd::arithmetic::mul::lemma_mul_inequality;
use vstd::arithmetic::div_mod::lemma_basic_div;
use crate::error::ConstructionError;

verus! {

/// Millionths in one unit (micrometres when the unit is the millimetre).
pub const MICROS_PER_UNIT: i64 = 1_000_000;

/// The largest angle, in degrees, that a rotation accepts, held in millionths.
pub const MAX_ANGLE_MICROS: i64 = 360_000_000;

/// A finite number held in fixed point, as a count of millionths of a unit.
#[derive(Clone, Copy, Debug, PartialEq, Eq, Structural)]
pub struct Real {
    pub micros: i64,
}

// ---- IEEE-754 single precision, read from its bit pattern ----

/// The biased exponent field (bits 23..30).
pub open spec fn f32_exponent_field(bits: u32) -> int {
    (bits as int / 0x80_0000) % 256
}

/// The fraction field (bits 0..22).
pub open spec fn f32_fraction_field(bits: u32) -> int {
    bits as int % 0x80_0000
}

pub open spec fn f32_is_negative(bits: u32) -> bool {
    bits >= 0x8000_0000
}

/// NaN and the infinities are the patterns whose exponent field is all ones.
pub open spec fn f32_is_finite(bits: u32) -> bool {
    f32_exponent_field(bits) != 255
}

/// The integer significand: with the hidden bit for normal numbers.
pub open spec fn f32_significand(bits: u32) -> int {
    if f32_exponent_field(bits) == 0 {
        f32_fraction_field(bits)
    } else {
        f32_fraction_field(bits) + 0x80_0000
    }
}

/// For a finite pattern, |value| * 10^6 rounded to the nearest integer
/// (halves up). The value is `significand * 2^(e - 150)`, or
/// `significand * 2^-149` when the exponent field `e` is zero.
pub open spec fn f32_micros_magnitude(bits: u32) -> int {
    let x = f32_significand(bits) * 1_000_000;
    let e = f32_exponent_field(bits);
    if e >= 150 {
        x * (pow2((e - 150) as nat) as int)
    } else {
        let k: nat = if e == 0 { 149 } else { (150 - e) as nat };
        (2 * x + pow2(k)) / (pow2(k + 1) as int)
    }
}

/// The value of a finite pattern in millionths, rounded as above.
pub open spec fn f32_micros(bits: u32) -> int {
    if f32_is_negative(bits) {
        -f32_micros_magnitude(bits)
    } else {
        f32_micros_magnitude(bits)
    }
}

/// What reading a single-precision pattern as a `Real` gives.
pub open spec fn real_from_bits(bits: u32) -> Result<Real, ConstructionError> {
    if !f32_is_finite(bits) {
        Err(ConstructionError::NonFinite)
    } else if f32_micros_magnitude(bits) > i64::MAX {
        Err(ConstructionError::OutOfRange)
    } else {
        Ok(Real { micros: f32_micros(bits) as i64 })
    }
}

// ---- decimal text ----

pub open spec fn digit_text(d: int) -> Seq<char> {
    if d == 0 {
        "0"@
    } else if d == 1 {
        "1"@
    } else if d == 2 {
        "2"@
    } else if d == 3 {
        "3"@
    } else if d == 4 {
        "4"@
    } else if d == 5 {
        "5"@
    } else if d == 6 {
        "6"@
    } else if d == 7 {
        "7"@
    } else if d == 8 {
        "8"@
    } else {
        "9"@
    }
}

/// Decimal digits of `n`, without leading zeros.
pub open spec fn nat_text(n: nat) -> Seq<char>
    decreases n,
{
    if n < 10 {
        digit_text(n as int)
    } else {
        nat_text(n / 10) + digit_text((n % 10) as int)
    }
}

/// The last `w` decimal digits of `f`, with leading zeros.
pub open spec fn padded_text(f: nat, w: nat) -> Seq<char>
    decreases w,
{
    if w == 0 {
        Seq::empty()
    } else {
        padded_text(f / 10, (w - 1) as nat) + digit_text((f % 10) as int)
    }
}

/// `padded_text(f, w)` with its trailing zeros dropped.
pub open spec fn fraction_text(f: nat, w: nat) -> Seq<char>
    decreases w,
{
    if w > 0 && f % 10 == 0 {
        fraction_text(f / 10, (w - 1) as nat)
    } else {
        padded_text(f, w)
    }
}

/// A magnitude in millionths as decimal text: the whole units, then a point
/// and the fraction without trailing zeros when the fraction is not zero.
pub open spec fn magnitude_text(a: nat) -> Seq<char> {
    let frac = a % 1_000_000;
    if frac == 0 {
        nat_text(a / 1_000_000)
    } else {
        nat_text(a / 1_000_000) + "."@ + fraction_text(frac, 6)
    }
}

/// A number in millionths as decimal text (`-2.5`, `3`, `0.000001`).
pub open spec fn real_text(m: int) -> Seq<char> {
    if m < 0 {
        "-"@ + magnitude_text((-m) as nat)
    } else {
        magnitude_text(m as nat)
    }
}

fn digit_str(d: u64) -> (s: &'static str)
    requires
        d < 10,
    ensures
        s@ == digit_text(d as int),
{
    if d == 0 {
        "0"
    } else if d == 1 {
        "1"
    } else if d == 2 {
        "2"
    } else if d == 3 {
        "3"
    } else if d == 4 {
        "4"
    } else if d == 5 {
        "5"
    } else if d == 6 {
        "6"
    } else if d == 7 {
        "7"
    } else if d == 8 {
        "8"
    } else {
        "9"
    }
}

pub(crate) fn write_nat(n: u64, out: &mut String)
    ensures
        final(out)@ == old(out)@ + nat_text(n as nat),
    decreases n,
{
    if n >= 10 {
        write_nat(n / 10, out);
    }
    out.append(digit_str(n % 10));
}

fn write_padded(f: u64, w: u64, out: &mut String)
    ensures
        final(out)@ == old(out)@ + padded_text(f as nat, w as nat),
    decreases w,
{
    if w > 0 {
        write_padded(f / 10, w - 1, out);
        out.append(digit_str(f % 10));
    }
}

fn write_fraction(f: u64, w: u64, out: &mut String)
    ensures
        final(out)@ == old(out)@ + fraction_text(f as nat, w as nat),
    decreases w,
{
    if w > 0 && f % 10 == 0 {
        write_fraction(f / 10, w - 1, out);
    } else {
        write_padded(f, w, out);
    }
}

/// 2^k, for exponents whose power fits in a `u64`.
fn pow2_u64(k: u32) -> (p: u64)
    requires
        k <= 62,
    ensures
        p == pow2(k as nat),
{
    let mut p: u64 = 1;
    let mut i: u32 = 0;
    proof {
        lemma2_to64();
    }
    while i < k
        invariant
            i <= k <= 62,
            p == pow2(i as nat),
        decreases k - i,
    {
        proof {
            lemma_pow2_unfold((i + 1) as nat);
            lemma_u64_pow2_no_overflow((i + 1) as nat);
        }
        p = p * 2;
        i = i + 1;
    }
    p
}

impl Real {
    pub fn from_micros(micros: i64) -> (r: Real)
        ensures
            r.micros == micros,
    {
        Real { micros }
    }

    /// A whole number of units.
    pub fn from_units(units: i32) -> (r: Real)
        ensures
            r.micros == units * 1_000_000,
    {
        Real { micros: units as i64 * MICROS_PER_UNIT }
    }

    /// Reads an IEEE-754 single-precision bit pattern (`f32::to_bits`),
    /// rounding to the nearest millionth. NaN and the infinities are refused.
    pub fn from_f32_bits(bits: u32) -> (r: Result<Real, ConstructionError>)
        ensures
            r == real_from_bits(bits),
    {
        let e: u32 = (bits / 0x80_0000) % 256;
        let f: u32 = bits % 0x80_0000;
        if e == 255 {
            return Err(ConstructionError::NonFinite);
        }
        let sig: u64 = if e == 0 { f as u64 } else { f as u64 + 0x80_0000 };
        let x: u64 = sig * 1_000_000;
        assert(e == f32_exponent_field(bits));
        assert(sig == f32_significand(bits));
        assert(x < 0x1000_0000_0000);
        let mag: u64;
        if e >= 150 {
            let k: u32 = e - 150;
            let mut v: u64 = x;
            let mut i: u32 = 0;
            proof {
                lemma2_to64();
            }
            while i < k
                invariant
                    i <= k,
                    k == e - 150,
                    e < 255,
                    e == f32_exponent_field(bits),
                    x == f32_significand(bits) * 1_000_000,
                    x < 0x1000_0000_0000,
                    v == x * pow2(i as nat),
                decreases k - i,
            {
                if v > i64::MAX as u64 {
                    proof {
                        lemma_pow2_strictly_increases(i as nat, k as nat);
                        lemma_mul_inequality(pow2(i as nat) as int, pow2(k as nat) as int, x as int);
                        assert(x * pow2(i as nat) <= x * pow2(k as nat)) by (nonlinear_arith)
                            requires
                                pow2(i as nat) * x <= pow2(k as nat) * x,
                        ;
                        assert(f32_micros_magnitude(bits) == x * pow2(k as nat));
                        assert(f32_micros_magnitude(bits) > i64::MAX);
                    }
                    return Err(ConstructionError::OutOfRange);
                }
                proof {
                    lemma_pow2_unfold((i + 1) as nat);
                    assert(x * pow2((i + 1) as nat) == 2 * (x * pow2(i as nat))) by (nonlinear_arith)
                        requires
                            pow2((i + 1) as nat) == 2 * pow2(i as nat),
                    ;
                }
                v = v * 2;
                i = i + 1;
            }
            if v > i64::MAX as u64 {
                return Err(ConstructionError::OutOfRange);
            }
            mag = v;
            assert(mag == f32_micros_magnitude(bits));
        } else {
            let k: u32 = if e == 0 { 149 } else { 150 - e };
            if k >= 46 {
                proof {
                    lemma2_to64_rest();
                    if k > 46 {
                        lemma_pow2_strictly_increases(46, k as nat);
                    }
                    assert(pow2(k as nat) >= 0x4000_0000_0000);
                    lemma_pow2_unfold((k + 1) as nat);
                    assert(pow2((k + 1) as nat) == 2 * pow2(k as nat));
                    lemma_basic_div(2 * x + pow2(k as nat), pow2((k + 1) as nat) as int);
                }
                mag = 0;
            } else {
                let p: u64 = pow2_u64(k);
                proof {
                    lemma2_to64_rest();
                    lemma_pow2_unfold((k + 1) as nat);
                    if k < 45 {
                        lemma_pow2_strictly_increases(k as nat, 45);
                    }
                    lemma_pow2_pos(k as nat);
                    assert(p <= 0x2000_0000_0000);
                }
                mag = (2 * x + p) / (2 * p);
                assert(mag <= 2 * x + p) by (nonlinear_arith)
                    requires
                        mag == (2 * x + p) / (2 * p),
                        p > 0,
                ;
            }
        }
        let m: i64 = if bits >= 0x8000_0000 { -(mag as i64) } else { mag as i64 };
        Ok(Real { micros: m })
    }

    /// Appends this number as decimal text.
    pub fn write_code(&self, out: &mut String)
        ensures
            final(out)@ == old(out)@ + real_text(self.micros as int),
    {
        let a: u64;
        if self.micros < 0 {
            out.append("-");
            a = (-(self.micros as i128)) as u64;
        } else {
            a = self.micros as u64;
        }
        let frac: u64 = a % 1_000_000;
        write_nat(a / 1_000_000, out);
        if frac != 0 {
            out.append(".");
            write_fraction(frac, 6, out);
        }
    }

    /// This number as decimal text.
    pub fn to_code(&self) -> (s: String)
        ensures
            s@ == real_text(self.micros as int),
    {
        let mut s = String::new();
        self.write_code(&mut s);
        s
    }
}

} // verus!

verus! {

/// A point or direction in three dimensions.
#[derive(Clone, Copy, Debug, PartialEq, Eq, Structural)]
pub struct Vec3 {
    pub x: Real,
    pub y: Real,
    pub z: Real,
}

impl Vec3 {
    pub fn new(x: Real, y: Real, z: Real) -> (r: Vec3)
        ensures
            r == (Vec3 { x, y, z }),
    {
        Vec3 { x, y, z }
    }

    /// A vector of whole units.
    pub fn from_units(x: i32, y: i32, z: i32) -> (r: Vec3)
        ensures
            r.x.micros == x * 1_000_000,
            r.y.micros == y * 1_000_000,
            r.z.micros == z * 1_000_000,
    {
        Vec3 { x: Real::from_units(x), y: Real::from_units(y), z: Real::from_units(z) }
    }
}

} // verus!
