//! 16.16 fixed-point numbers and the arithmetic the play code performs on them.

use vstd::prelude::*;

verus! {

/// Number of fractional bits in a [`Fixed`] value.
pub const FRACBITS: i32 = 16;

/// The fixed-point value 1.0.
pub const FRACUNIT: i32 = 65536;

/// A 16.16 fixed-point number stored in an `i32`.
#[derive(Clone, Copy, Debug, PartialEq, Eq, Structural, Default)]
pub struct Fixed(pub i32);

impl Fixed {
    /// Wraps a raw 16.16 value.
    pub fn new(raw: i32) -> (r: Fixed)
        ensures
            r.0 == raw,
    {
        Fixed(raw)
    }
}

/// `FixedMul`: the product of two 16.16 numbers, computed in 64 bits and
/// shifted back down by 16 bits (truncated to 32 bits as in the C engine).
pub open spec fn fixed_mul_spec(a: i32, b: i32) -> i32 {
    ((((a as i64) * (b as i64)) as i64) >> 16u64) as i32
}

/// Mathematical absolute value.
pub open spec fn abs_int(a: int) -> int {
    if a < 0 {
        -a
    } else {
        a
    }
}

/// `FixedDiv`: the quotient of two 16.16 numbers. When the quotient would
/// not fit (the guard `abs(a) >> 14 >= abs(b)` of the C engine) the result
/// saturates to `i32::MIN` or `i32::MAX` according to the signs; otherwise
/// it is `(a << 16) / b`, truncated toward zero.
pub open spec fn fixed_div_spec(a: i32, b: i32) -> i32 {
    if abs_int(a as int) / 16384 >= abs_int(b as int) {
        if (a < 0) != (b < 0) {
            i32::MIN
        } else {
            i32::MAX
        }
    } else {
        let q = (abs_int(a as int) * 65536) / abs_int(b as int);
        if (a < 0) != (b < 0) {
            (-q) as i32
        } else {
            q as i32
        }
    }
}

impl Fixed {
    /// `FixedMul`.
    pub fn fixed_mul(self, other: Fixed) -> (r: Fixed)
        ensures
            r.0 == fixed_mul_spec(self.0, other.0),
    {
        let a = self.0 as i64;
        let b = other.0 as i64;
        proof {
            assert(-0x8000_0000 <= a <= 0x7fff_ffff);
            assert(-0x8000_0000 <= b <= 0x7fff_ffff);
            assert(-0x4000_0000_0000_0000 <= a * b <= 0x4000_0000_0000_0000) by (nonlinear_arith)
                requires
                    -0x8000_0000 <= a <= 0x7fff_ffff,
                    -0x8000_0000 <= b <= 0x7fff_ffff,
            ;
        }
        let p = a * b;
        Fixed((p >> 16u64) as i32)
    }

    /// `FixedDiv`.
    pub fn fixed_div(self, other: Fixed) -> (r: Fixed)
        ensures
            r.0 == fixed_div_spec(self.0, other.0),
    {
        let a = self.0;
        let b = other.0;
        let ua: u64 = if a < 0 { (0i64 - a as i64) as u64 } else { a as u64 };
        let ub: u64 = if b < 0 { (0i64 - b as i64) as u64 } else { b as u64 };
        assert(ua >> 14u64 == ua / 16384) by (bit_vector);
        if (ua >> 14u64) >= ub {
            if (a < 0) != (b < 0) {
                Fixed(i32::MIN)
            } else {
                Fixed(i32::MAX)
            }
        } else {
            let wa = ua;
            let wb = ub;
            assert(wa * 65536 < 16384 * wb * 65536) by (nonlinear_arith)
                requires
                    wa / 16384 < wb,
            ;
            let n: u64 = wa * 65536;
            let q: u64 = n / wb;
            assert(q < 0x4000_0000u64) by (nonlinear_arith)
                requires
                    q == n / wb,
                    wb > 0,
                    n < 16384 * wb * 65536,
            ;
            let qi = q as i32;
            if (a < 0) != (b < 0) {
                Fixed(-qi)
            } else {
                Fixed(qi)
            }
        }
    }
}

/// Law: multiplying by 1.0 ([`FRACUNIT`]), on either side, gives the
/// other factor back.
pub proof fn law_fixed_mul_one(a: i32)
    ensures
        fixed_mul_spec(a, FRACUNIT) == a,
        fixed_mul_spec(FRACUNIT, a) == a,
{
    assert((((a as i64) * 65536i64) as i64 >> 16u64) as i32 == a) by (bit_vector);
    assert((((65536i64) * (a as i64)) as i64 >> 16u64) as i32 == a) by (bit_vector);
}

} // verus!
