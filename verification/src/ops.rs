//! Integer arithmetic with WebAssembly semantics: wrapping `+ - *`, bit
//! counts, signed and unsigned division, shifts, rotations and comparisons
//! that answer `1` or `0`.
use vstd::prelude::*;
use vstd::std_specs::bits::{u32_leading_zeros, u32_trailing_zeros, u64_leading_zeros, u64_trailing_zeros};
use crate::error::Error;

verus! {

/// Rust's truncating division `x / d` (rounding toward zero), for `d != 0`.
pub open spec fn trunc_div(x: int, d: int) -> int {
    if x == 0 {
        0
    } else if x > 0 && d > 0 {
        x / d
    } else if x < 0 && d < 0 {
        (x * -1) / (d * -1)
    } else if x < 0 {
        ((x * -1) / d) * -1
    } else {
        (x / (d * -1)) * -1
    }
}

/// Dividing by `1` keeps a number; dividing by anything of magnitude two or
/// more at least halves its distance from zero.
pub proof fn lemma_trunc_div_shrinks(x: int, d: int)
    requires
        d != 0,
        d != -1,
    ensures
        d == 1 ==> trunc_div(x, d) == x,
        d != 1 ==> -x <= 2 * trunc_div(x, d) <= x || x <= 2 * trunc_div(x, d) <= -x,
{
    if x > 0 && d > 0 {
        assert(d == 1 ==> x / d == x);
        assert(d != 1 ==> 0 <= 2 * (x / d) <= x) by (nonlinear_arith)
            requires x > 0, d > 0;
    } else if x < 0 && d < 0 {
        assert(0 <= 2 * ((x * -1) / (d * -1)) <= x * -1) by (nonlinear_arith)
            requires x < 0, d < -1;
    } else if x < 0 {
        assert(d == 1 ==> (x * -1) / d == x * -1);
        assert(d != 1 ==> 0 <= 2 * ((x * -1) / d) <= x * -1) by (nonlinear_arith)
            requires x < 0, d > 0;
    } else if x > 0 {
        assert(0 <= 2 * (x / (d * -1)) <= x) by (nonlinear_arith)
            requires x > 0, d < -1;
    }
}

/// Rust's remainder `x % d`: it has the sign of `x`, for `d != 0`.
pub open spec fn trunc_rem(x: int, d: int) -> int {
    if x == 0 {
        0
    } else if x > 0 && d > 0 {
        x % d
    } else if x < 0 && d < 0 {
        ((x * -1) % (d * -1)) * -1
    } else if x < 0 {
        ((x * -1) % d) * -1
    } else {
        x % (d * -1)
    }
}

/// `1` when `b` holds, `0` otherwise.
pub open spec fn flag_i32(b: bool) -> i32 {
    if b { 1 } else { 0 }
}

/// `1` when `b` holds, `0` otherwise.
pub open spec fn flag_i64(b: bool) -> i64 {
    if b { 1 } else { 0 }
}

/// The number of one bits among the lowest `n` bits of `x`.
pub open spec fn ones_below_u32(x: u32, n: nat) -> nat
    decreases n,
{
    if n == 0 {
        0
    } else {
        ones_below_u32(x, (n - 1) as nat) + ((x >> ((n - 1) as u32)) & 1u32) as nat
    }
}

/// The number of one bits among the lowest `n` bits of `x`.
pub open spec fn ones_below_u64(x: u64, n: nat) -> nat
    decreases n,
{
    if n == 0 {
        0
    } else {
        ones_below_u64(x, (n - 1) as nat) + ((x >> ((n - 1) as u64)) & 1u64) as nat
    }
}

/// The number of one bits of the 32-bit pattern of `x`.
pub open spec fn popcnt_i32(x: i32) -> int {
    ones_below_u32(x as u32, 32) as int
}

/// The number of one bits of the 64-bit pattern of `x`.
pub open spec fn popcnt_i64(x: i64) -> int {
    ones_below_u64(x as u64, 64) as int
}

/// The bit pattern of `x` rotated left by `k mod 32` places.
pub open spec fn rotl_i32(x: i32, k: i32) -> i32 {
    let u = x as u32;
    let s = (k as u32) % 32;
    if s == 0 { x } else { ((u << s) | (u >> (32 - s) as u32)) as i32 }
}

/// The bit pattern of `x` rotated right by `k mod 32` places.
pub open spec fn rotr_i32(x: i32, k: i32) -> i32 {
    let u = x as u32;
    let s = (k as u32) % 32;
    if s == 0 { x } else { ((u >> s) | (u << (32 - s) as u32)) as i32 }
}

/// The bit pattern of `x` rotated left by `k mod 64` places.
pub open spec fn rotl_i64(x: i64, k: i64) -> i64 {
    let u = x as u64;
    let s = (k as u64) % 64;
    if s == 0 { x } else { ((u << s) | (u >> (64 - s) as u64)) as i64 }
}

/// The bit pattern of `x` rotated right by `k mod 64` places.
pub open spec fn rotr_i64(x: i64, k: i64) -> i64 {
    let u = x as u64;
    let s = (k as u64) % 64;
    if s == 0 { x } else { ((u >> s) | (u << (64 - s) as u64)) as i64 }
}

/// The one-operand float operations.
#[derive(Debug, Clone, Copy, PartialEq, Eq, Structural)]
pub enum FloatUnOp {
    Abs,
    Neg,
    Ceil,
    Floor,
    Trunc,
    Nearest,
    Sqrt,
}

/// The two-operand float operations that give a float.
#[derive(Debug, Clone, Copy, PartialEq, Eq, Structural)]
pub enum FloatBinOp {
    Add,
    Sub,
    Mul,
    Div,
    Min,
    Max,
    Copysign,
}

/// The float comparisons.
#[derive(Debug, Clone, Copy, PartialEq, Eq, Structural)]
pub enum FloatRelOp {
    Eq,
    Ne,
    Lt,
    Gt,
    Le,
    Ge,
}

/// How two floats compare under IEEE-754: the first below the second, the
/// two equal, the first above, or unordered (one of them is a NaN).
pub ghost enum FloatOrder {
    Below,
    Same,
    Above,
    Unordered,
}

/// Whether the comparison `op` holds of two floats that compare as `o`: as in
/// IEEE-754, every comparison but `Ne` fails on unordered operands.
pub open spec fn relation_holds(op: FloatRelOp, o: FloatOrder) -> bool {
    match op {
        FloatRelOp::Eq => o is Same,
        FloatRelOp::Ne => !(o is Same),
        FloatRelOp::Lt => o is Below,
        FloatRelOp::Gt => o is Above,
        FloatRelOp::Le => o is Below || o is Same,
        FloatRelOp::Ge => o is Above || o is Same,
    }
}

/// The float arithmetic of the machine the engine runs on. Operands and
/// results are IEEE-754 bit patterns; the engine only moves them around, so
/// nothing is assumed of what an implementation returns.
pub trait FloatOps {
    fn f32_unary(&self, op: FloatUnOp, a: u32) -> u32;

    fn f32_binary(&self, op: FloatBinOp, a: u32, b: u32) -> u32;

    fn f32_relation(&self, op: FloatRelOp, a: u32, b: u32) -> bool;

    fn f32_text(&self, a: u32) -> String;

    fn f64_unary(&self, op: FloatUnOp, a: u64) -> u64;

    fn f64_binary(&self, op: FloatBinOp, a: u64, b: u64) -> u64;

    fn f64_relation(&self, op: FloatRelOp, a: u64, b: u64) -> bool;

    fn f64_text(&self, a: u64) -> String;
}

/// Addition, subtraction and multiplication of numbers.
pub trait NumOps {
    fn add(self, rhs: Self) -> Self where Self: Sized;

    fn sub(self, rhs: Self) -> Self where Self: Sized;

    fn mul(self, rhs: Self) -> Self where Self: Sized;
}

impl NumOps for i32 {
    /// Two's-complement addition that wraps around on overflow.
    fn add(self, rhs: i32) -> (r: i32)
        ensures
            r == vstd::wrapping::i32_specs::wrapping_add(self, rhs),
    {
        self.wrapping_add(rhs)
    }

    /// Two's-complement subtraction that wraps around on overflow.
    fn sub(self, rhs: i32) -> (r: i32)
        ensures
            r == vstd::wrapping::i32_specs::wrapping_sub(self, rhs),
    {
        self.wrapping_sub(rhs)
    }

    /// Two's-complement multiplication that wraps around on overflow.
    fn mul(self, rhs: i32) -> (r: i32)
        ensures
            r == vstd::wrapping::i32_specs::wrapping_mul(self, rhs),
    {
        self.wrapping_mul(rhs)
    }
}

impl NumOps for i64 {
    /// Two's-complement addition that wraps around on overflow.
    fn add(self, rhs: i64) -> (r: i64)
        ensures
            r == vstd::wrapping::i64_specs::wrapping_add(self, rhs),
    {
        self.wrapping_add(rhs)
    }

    /// Two's-complement subtraction that wraps around on overflow.
    fn sub(self, rhs: i64) -> (r: i64)
        ensures
            r == vstd::wrapping::i64_specs::wrapping_sub(self, rhs),
    {
        self.wrapping_sub(rhs)
    }

    /// Two's-complement multiplication that wraps around on overflow.
    fn mul(self, rhs: i64) -> (r: i64)
        ensures
            r == vstd::wrapping::i64_specs::wrapping_mul(self, rhs),
    {
        self.wrapping_mul(rhs)
    }
}


/// The integer-only operations of WebAssembly.
pub trait IntOps: NumOps {
    fn clz(self) -> Self where Self: Sized;

    fn ctz(self) -> Self where Self: Sized;

    fn popcnt(self) -> Self where Self: Sized;

    fn div_s(self, rhs: Self) -> Result<Self, Error> where Self: Sized;

    fn div_u(self, rhs: Self) -> Result<Self, Error> where Self: Sized;

    fn rem_s(self, rhs: Self) -> Result<Self, Error> where Self: Sized;

    fn rem_u(self, rhs: Self) -> Result<Self, Error> where Self: Sized;

    fn shr_s(self, rhs: Self) -> Self where Self: Sized;

    fn shr_u(self, rhs: Self) -> Self where Self: Sized;

    fn rotl(self, rhs: Self) -> Self where Self: Sized;

    fn rotr(self, rhs: Self) -> Self where Self: Sized;

    fn eqz(self) -> Self where Self: Sized;

    fn eq(self, rhs: Self) -> Self where Self: Sized;

    fn ne(self, rhs: Self) -> Self where Self: Sized;

    fn lt_s(self, rhs: Self) -> Self where Self: Sized;

    fn lt_u(self, rhs: Self) -> Self where Self: Sized;

    fn gt_s(self, rhs: Self) -> Self where Self: Sized;

    fn gt_u(self, rhs: Self) -> Self where Self: Sized;

    fn le_s(self, rhs: Self) -> Self where Self: Sized;

    fn le_u(self, rhs: Self) -> Self where Self: Sized;

    fn ge_s(self, rhs: Self) -> Self where Self: Sized;

    fn ge_u(self, rhs: Self) -> Self where Self: Sized;
}

impl IntOps for i32 {
    /// The number of leading zero bits of the 32-bit pattern.
    fn clz(self) -> (r: i32)
        ensures
            r == u32_leading_zeros(self as u32) as i32,
    {
        let n = (self as u32).leading_zeros();
        proof { vstd::std_specs::bits::axiom_u32_leading_zeros(self as u32); }
        n as i32
    }

    /// The number of trailing zero bits of the 32-bit pattern.
    fn ctz(self) -> (r: i32)
        ensures
            r == u32_trailing_zeros(self as u32) as i32,
    {
        let n = (self as u32).trailing_zeros();
        proof { vstd::std_specs::bits::axiom_u32_trailing_zeros(self as u32); }
        n as i32
    }

    /// The number of one bits of the 32-bit pattern.
    fn popcnt(self) -> (r: i32)
        ensures
            r == popcnt_i32(self),
    {
        let u = self as u32;
        let mut count: u32 = 0;
        let mut i: u32 = 0;
        while i < 32
            invariant
                i <= 32,
                u == self as u32,
                count as nat == ones_below_u32(u, i as nat),
                count <= i,
            decreases 32 - i,
        {
            let bit = (u >> i) & 1;
            assert(bit <= 1) by (bit_vector)
                requires bit == (u >> i) & 1;
            count = count + bit;
            i = i + 1;
        }
        count as i32
    }

    /// Signed division rounding toward zero; fails on a zero divisor and on
    /// the one quotient that does not fit (`MIN / -1`).
    fn div_s(self, rhs: i32) -> (r: Result<i32, Error>)
        ensures
            rhs == 0 ==> r == Err::<i32, Error>(Error::DivideByZero),
            rhs != 0 && self == i32::MIN && rhs == -1 ==> r == Err::<i32, Error>(Error::IntegerOverflow),
            rhs != 0 && !(self == i32::MIN && rhs == -1) ==> r == Ok::<i32, Error>(trunc_div(self as int, rhs as int) as i32),
    {
        if rhs == 0 {
            Err(Error::DivideByZero)
        } else if rhs == -1 {
            if self == i32::MIN {
                Err(Error::IntegerOverflow)
            } else {
                Ok(-self)
            }
        } else {
            proof {
                lemma_trunc_div_shrinks(self as int, rhs as int);
            }
            match self.checked_div(rhs) {
                Some(q) => Ok(q),
                None => Err(Error::IntegerOverflow),
            }
        }
    }

    /// Unsigned division of the two bit patterns; fails on a zero divisor.
    fn div_u(self, rhs: i32) -> (r: Result<i32, Error>)
        ensures
            rhs == 0 ==> r == Err::<i32, Error>(Error::DivideByZero),
            rhs != 0 ==> r == Ok::<i32, Error>(((self as u32) / (rhs as u32)) as i32),
    {
        let a = self as u32;
        let b = rhs as u32;
        assert(rhs != 0 ==> b != 0) by (bit_vector)
            requires b == rhs as u32;
        if b == 0 {
            Err(Error::DivideByZero)
        } else {
            Ok((a / b) as i32)
        }
    }

    /// Signed remainder with the sign of the dividend (`MIN % -1` is `0`);
    /// fails on a zero divisor.
    fn rem_s(self, rhs: i32) -> (r: Result<i32, Error>)
        ensures
            rhs == 0 ==> r == Err::<i32, Error>(Error::DivideByZero),
            rhs == -1 ==> r == Ok::<i32, Error>(0),
            rhs != 0 && rhs != -1 ==> r == Ok::<i32, Error>(trunc_rem(self as int, rhs as int) as i32),
    {
        if rhs == 0 {
            Err(Error::DivideByZero)
        } else if rhs == -1 {
            Ok(0)
        } else {
            match self.checked_rem(rhs) {
                Some(m) => Ok(m),
                None => Ok(0),
            }
        }
    }

    /// Unsigned remainder of the two bit patterns; fails on a zero divisor.
    fn rem_u(self, rhs: i32) -> (r: Result<i32, Error>)
        ensures
            rhs == 0 ==> r == Err::<i32, Error>(Error::DivideByZero),
            rhs != 0 ==> r == Ok::<i32, Error>(((self as u32) % (rhs as u32)) as i32),
    {
        let a = self as u32;
        let b = rhs as u32;
        assert(rhs != 0 ==> b != 0) by (bit_vector)
            requires b == rhs as u32;
        if b == 0 {
            Err(Error::DivideByZero)
        } else {
            Ok((a % b) as i32)
        }
    }

    /// Arithmetic right shift by `rhs mod 32` places.
    fn shr_s(self, rhs: i32) -> (r: i32)
        ensures
            r == vstd::wrapping::i32_specs::wrapping_shr(self, rhs as u32),
    {
        self.wrapping_shr(rhs as u32)
    }

    /// Logical right shift of the bit pattern by `rhs mod 32` places.
    fn shr_u(self, rhs: i32) -> (r: i32)
        ensures
            r == vstd::wrapping::u32_specs::wrapping_shr(self as u32, rhs as u32) as i32,
    {
        let n = self as u32;
        n.wrapping_shr(rhs as u32) as i32
    }

    /// Left rotation of the bit pattern by `rhs mod 32` places.
    fn rotl(self, rhs: i32) -> (r: i32)
        ensures
            r == rotl_i32(self, rhs),
    {
        let u = self as u32;
        let s = (rhs as u32) % 32;
        if s == 0 {
            self
        } else {
            ((u << s) | (u >> (32 - s))) as i32
        }
    }

    /// Right rotation of the bit pattern by `rhs mod 32` places.
    fn rotr(self, rhs: i32) -> (r: i32)
        ensures
            r == rotr_i32(self, rhs),
    {
        let u = self as u32;
        let s = (rhs as u32) % 32;
        if s == 0 {
            self
        } else {
            ((u >> s) | (u << (32 - s))) as i32
        }
    }

    /// `1` when the value is zero, `0` otherwise.
    fn eqz(self) -> (r: i32)
        ensures
            r == flag_i32(self == 0),
    {
        if self == 0 { 1 } else { 0 }
    }

    /// `1` when the two values are equal, `0` otherwise.
    fn eq(self, rhs: i32) -> (r: i32)
        ensures
            r == flag_i32(self == rhs),
    {
        if self == rhs { 1 } else { 0 }
    }

    /// `1` when the two values differ, `0` otherwise.
    fn ne(self, rhs: i32) -> (r: i32)
        ensures
            r == flag_i32(self != rhs),
    {
        if self == rhs { 0 } else { 1 }
    }

    /// Signed `<`, as `1` or `0`.
    fn lt_s(self, rhs: i32) -> (r: i32)
        ensures
            r == flag_i32(self < rhs),
    {
        if self < rhs { 1 } else { 0 }
    }

    /// Unsigned `<` on the bit patterns, as `1` or `0`.
    fn lt_u(self, rhs: i32) -> (r: i32)
        ensures
            r == flag_i32((self as u32) < (rhs as u32)),
    {
        let a = self as u32;
        let b = rhs as u32;
        if a < b { 1 } else { 0 }
    }

    /// Signed `>`, as `1` or `0`.
    fn gt_s(self, rhs: i32) -> (r: i32)
        ensures
            r == flag_i32(self > rhs),
    {
        if self > rhs { 1 } else { 0 }
    }

    /// Unsigned `>` on the bit patterns, as `1` or `0`.
    fn gt_u(self, rhs: i32) -> (r: i32)
        ensures
            r == flag_i32((self as u32) > (rhs as u32)),
    {
        let a = self as u32;
        let b = rhs as u32;
        if a > b { 1 } else { 0 }
    }

    /// Signed `<=`, as `1` or `0`.
    fn le_s(self, rhs: i32) -> (r: i32)
        ensures
            r == flag_i32(self <= rhs),
    {
        if self <= rhs { 1 } else { 0 }
    }

    /// Unsigned `<=` on the bit patterns, as `1` or `0`.
    fn le_u(self, rhs: i32) -> (r: i32)
        ensures
            r == flag_i32((self as u32) <= (rhs as u32)),
    {
        let a = self as u32;
        let b = rhs as u32;
        if a <= b { 1 } else { 0 }
    }

    /// Signed `>=`, as `1` or `0`.
    fn ge_s(self, rhs: i32) -> (r: i32)
        ensures
            r == flag_i32(self >= rhs),
    {
        if self >= rhs { 1 } else { 0 }
    }

    /// Unsigned `>=` on the bit patterns, as `1` or `0`.
    fn ge_u(self, rhs: i32) -> (r: i32)
        ensures
            r == flag_i32((self as u32) >= (rhs as u32)),
    {
        let a = self as u32;
        let b = rhs as u32;
        if a >= b { 1 } else { 0 }
    }
}

impl IntOps for i64 {
    /// The number of leading zero bits of the 64-bit pattern.
    fn clz(self) -> (r: i64)
        ensures
            r == u64_leading_zeros(self as u64) as i64,
    {
        let n = (self as u64).leading_zeros();
        proof { vstd::std_specs::bits::axiom_u64_leading_zeros(self as u64); }
        n as i64
    }

    /// The number of trailing zero bits of the 64-bit pattern.
    fn ctz(self) -> (r: i64)
        ensures
            r == u64_trailing_zeros(self as u64) as i64,
    {
        let n = (self as u64).trailing_zeros();
        proof { vstd::std_specs::bits::axiom_u64_trailing_zeros(self as u64); }
        n as i64
    }

    /// The number of one bits of the 64-bit pattern.
    fn popcnt(self) -> (r: i64)
        ensures
            r == popcnt_i64(self),
    {
        let u = self as u64;
        let mut count: u64 = 0;
        let mut i: u64 = 0;
        while i < 64
            invariant
                i <= 64,
                u == self as u64,
                count as nat == ones_below_u64(u, i as nat),
                count <= i,
            decreases 64 - i,
        {
            let bit = (u >> i) & 1;
            assert(bit <= 1) by (bit_vector)
                requires bit == (u >> i) & 1;
            count = count + bit;
            i = i + 1;
        }
        count as i64
    }

    /// Signed division rounding toward zero; fails on a zero divisor and on
    /// the one quotient that does not fit (`MIN / -1`).
    fn div_s(self, rhs: i64) -> (r: Result<i64, Error>)
        ensures
            rhs == 0 ==> r == Err::<i64, Error>(Error::DivideByZero),
            rhs != 0 && self == i64::MIN && rhs == -1 ==> r == Err::<i64, Error>(Error::IntegerOverflow),
            rhs != 0 && !(self == i64::MIN && rhs == -1) ==> r == Ok::<i64, Error>(trunc_div(self as int, rhs as int) as i64),
    {
        if rhs == 0 {
            Err(Error::DivideByZero)
        } else if rhs == -1 {
            if self == i64::MIN {
                Err(Error::IntegerOverflow)
            } else {
                Ok(-self)
            }
        } else {
            proof {
                lemma_trunc_div_shrinks(self as int, rhs as int);
            }
            match self.checked_div(rhs) {
                Some(q) => Ok(q),
                None => Err(Error::IntegerOverflow),
            }
        }
    }

    /// Unsigned division of the two bit patterns; fails on a zero divisor.
    fn div_u(self, rhs: i64) -> (r: Result<i64, Error>)
        ensures
            rhs == 0 ==> r == Err::<i64, Error>(Error::DivideByZero),
            rhs != 0 ==> r == Ok::<i64, Error>(((self as u64) / (rhs as u64)) as i64),
    {
        let a = self as u64;
        let b = rhs as u64;
        assert(rhs != 0 ==> b != 0) by (bit_vector)
            requires b == rhs as u64;
        if b == 0 {
            Err(Error::DivideByZero)
        } else {
            Ok((a / b) as i64)
        }
    }

    /// Signed remainder with the sign of the dividend (`MIN % -1` is `0`);
    /// fails on a zero divisor.
    fn rem_s(self, rhs: i64) -> (r: Result<i64, Error>)
        ensures
            rhs == 0 ==> r == Err::<i64, Error>(Error::DivideByZero),
            rhs == -1 ==> r == Ok::<i64, Error>(0),
            rhs != 0 && rhs != -1 ==> r == Ok::<i64, Error>(trunc_rem(self as int, rhs as int) as i64),
    {
        if rhs == 0 {
            Err(Error::DivideByZero)
        } else if rhs == -1 {
            Ok(0)
        } else {
            match self.checked_rem(rhs) {
                Some(m) => Ok(m),
                None => Ok(0),
            }
        }
    }

    /// Unsigned remainder of the two bit patterns; fails on a zero divisor.
    fn rem_u(self, rhs: i64) -> (r: Result<i64, Error>)
        ensures
            rhs == 0 ==> r == Err::<i64, Error>(Error::DivideByZero),
            rhs != 0 ==> r == Ok::<i64, Error>(((self as u64) % (rhs as u64)) as i64),
    {
        let a = self as u64;
        let b = rhs as u64;
        assert(rhs != 0 ==> b != 0) by (bit_vector)
            requires b == rhs as u64;
        if b == 0 {
            Err(Error::DivideByZero)
        } else {
            Ok((a % b) as i64)
        }
    }

    /// Arithmetic right shift by `rhs mod 64` places.
    fn shr_s(self, rhs: i64) -> (r: i64)
        ensures
            r == vstd::wrapping::i64_specs::wrapping_shr(self, rhs as u32),
    {
        self.wrapping_shr(rhs as u32)
    }

    /// Logical right shift of the bit pattern by `rhs mod 64` places.
    fn shr_u(self, rhs: i64) -> (r: i64)
        ensures
            r == vstd::wrapping::u64_specs::wrapping_shr(self as u64, rhs as u32) as i64,
    {
        let n = self as u64;
        n.wrapping_shr(rhs as u32) as i64
    }

    /// Left rotation of the bit pattern by `rhs mod 64` places.
    fn rotl(self, rhs: i64) -> (r: i64)
        ensures
            r == rotl_i64(self, rhs),
    {
        let u = self as u64;
        let s = (rhs as u64) % 64;
        if s == 0 {
            self
        } else {
            ((u << s) | (u >> (64 - s))) as i64
        }
    }

    /// Right rotation of the bit pattern by `rhs mod 64` places.
    fn rotr(self, rhs: i64) -> (r: i64)
        ensures
            r == rotr_i64(self, rhs),
    {
        let u = self as u64;
        let s = (rhs as u64) % 64;
        if s == 0 {
            self
        } else {
            ((u >> s) | (u << (64 - s))) as i64
        }
    }

    /// `1` when the value is zero, `0` otherwise.
    fn eqz(self) -> (r: i64)
        ensures
            r == flag_i64(self == 0),
    {
        if self == 0 { 1 } else { 0 }
    }

    /// `1` when the two values are equal, `0` otherwise.
    fn eq(self, rhs: i64) -> (r: i64)
        ensures
            r == flag_i64(self == rhs),
    {
        if self == rhs { 1 } else { 0 }
    }

    /// `1` when the two values differ, `0` otherwise.
    fn ne(self, rhs: i64) -> (r: i64)
        ensures
            r == flag_i64(self != rhs),
    {
        if self == rhs { 0 } else { 1 }
    }

    /// Signed `<`, as `1` or `0`.
    fn lt_s(self, rhs: i64) -> (r: i64)
        ensures
            r == flag_i64(self < rhs),
    {
        if self < rhs { 1 } else { 0 }
    }

    /// Unsigned `<` on the bit patterns, as `1` or `0`.
    fn lt_u(self, rhs: i64) -> (r: i64)
        ensures
            r == flag_i64((self as u64) < (rhs as u64)),
    {
        let a = self as u64;
        let b = rhs as u64;
        if a < b { 1 } else { 0 }
    }

    /// Signed `>`, as `1` or `0`.
    fn gt_s(self, rhs: i64) -> (r: i64)
        ensures
            r == flag_i64(self > rhs),
    {
        if self > rhs { 1 } else { 0 }
    }

    /// Unsigned `>` on the bit patterns, as `1` or `0`.
    fn gt_u(self, rhs: i64) -> (r: i64)
        ensures
            r == flag_i64((self as u64) > (rhs as u64)),
    {
        let a = self as u64;
        let b = rhs as u64;
        if a > b { 1 } else { 0 }
    }

    /// Signed `<=`, as `1` or `0`.
    fn le_s(self, rhs: i64) -> (r: i64)
        ensures
            r == flag_i64(self <= rhs),
    {
        if self <= rhs { 1 } else { 0 }
    }

    /// Unsigned `<=` on the bit patterns, as `1` or `0`.
    fn le_u(self, rhs: i64) -> (r: i64)
        ensures
            r == flag_i64((self as u64) <= (rhs as u64)),
    {
        let a = self as u64;
        let b = rhs as u64;
        if a <= b { 1 } else { 0 }
    }

    /// Signed `>=`, as `1` or `0`.
    fn ge_s(self, rhs: i64) -> (r: i64)
        ensures
            r == flag_i64(self >= rhs),
    {
        if self >= rhs { 1 } else { 0 }
    }

    /// Unsigned `>=` on the bit patterns, as `1` or `0`.
    fn ge_u(self, rhs: i64) -> (r: i64)
        ensures
            r == flag_i64((self as u64) >= (rhs as u64)),
    {
        let a = self as u64;
        let b = rhs as u64;
        if a >= b { 1 } else { 0 }
    }
}

/// Adding and then subtracting the same number gives the first number back,
/// even when the addition wraps around.
pub proof fn law_add_sub_i32(a: i32, b: i32)
    ensures
        vstd::wrapping::i32_specs::wrapping_sub(vstd::wrapping::i32_specs::wrapping_add(a, b), b) == a,
{
}

/// Adding and then subtracting the same number gives the first number back,
/// even when the addition wraps around.
pub proof fn law_add_sub_i64(a: i64, b: i64)
    ensures
        vstd::wrapping::i64_specs::wrapping_sub(vstd::wrapping::i64_specs::wrapping_add(a, b), b) == a,
{
}

/// The quotient and the remainder of a signed division put the dividend
/// back together: `b == (b / a) * a + b % a`, and the remainder is smaller
/// than the divisor in magnitude.
pub proof fn law_div_rem(b: int, a: int)
    requires
        a != 0,
    ensures
        trunc_div(b, a) * a + trunc_rem(b, a) == b,
        -a < trunc_rem(b, a) < a || a < trunc_rem(b, a) < -a,
{
    if b > 0 && a > 0 {
        let q = b / a;
        vstd::arithmetic::div_mod::lemma_fundamental_div_mod(b, a);
        vstd::arithmetic::div_mod::lemma_mod_pos_bound(b, a);
        assert(q * a == a * q) by (nonlinear_arith);
    } else if b < 0 && a < 0 {
        let nb = b * -1;
        let na = a * -1;
        let q = nb / na;
        vstd::arithmetic::div_mod::lemma_fundamental_div_mod(nb, na);
        vstd::arithmetic::div_mod::lemma_mod_pos_bound(nb, na);
        assert(q * a == (na * q) * -1) by (nonlinear_arith)
            requires na == a * -1;
    } else if b < 0 {
        let nb = b * -1;
        let q = nb / a;
        vstd::arithmetic::div_mod::lemma_fundamental_div_mod(nb, a);
        vstd::arithmetic::div_mod::lemma_mod_pos_bound(nb, a);
        assert((q * -1) * a == (a * q) * -1) by (nonlinear_arith);
    } else if b > 0 {
        let na = a * -1;
        let q = b / na;
        vstd::arithmetic::div_mod::lemma_fundamental_div_mod(b, na);
        vstd::arithmetic::div_mod::lemma_mod_pos_bound(b, na);
        assert((q * -1) * a == na * q) by (nonlinear_arith)
            requires na == a * -1;
    }
}

/// Setting the clear bit `k` adds one to the ones below `n` exactly when
/// `k` is below `n`.
proof fn lemma_ones_set_u32(u: u32, k: u32, n: nat)
    requires
        k < 32,
        (u >> k) & 1u32 == 0u32,
        n <= 32,
    ensures
        ones_below_u32(u | (1u32 << k), n) == ones_below_u32(u, n) + (if n > k { 1nat } else { 0nat }),
    decreases n,
{
    if n > 0 {
        lemma_ones_set_u32(u, k, (n - 1) as nat);
        let i = (n - 1) as u32;
        let y = u | (1u32 << k);
        if i == k {
            assert((y >> i) & 1u32 == 1u32) by (bit_vector)
                requires y == u | (1u32 << k), i == k, k < 32, (u >> k) & 1u32 == 0u32;
        } else {
            assert((y >> i) & 1u32 == (u >> i) & 1u32) by (bit_vector)
                requires y == u | (1u32 << k), i != k, i < 32, k < 32;
        }
    }
}

/// Setting the clear bit `k` adds one to the ones below `n` exactly when
/// `k` is below `n`.
proof fn lemma_ones_set_u64(u: u64, k: u64, n: nat)
    requires
        k < 64,
        (u >> k) & 1u64 == 0u64,
        n <= 64,
    ensures
        ones_below_u64(u | (1u64 << k), n) == ones_below_u64(u, n) + (if n > k { 1nat } else { 0nat }),
    decreases n,
{
    if n > 0 {
        lemma_ones_set_u64(u, k, (n - 1) as nat);
        let i = (n - 1) as u64;
        let y = u | (1u64 << k);
        if i == k {
            assert((y >> i) & 1u64 == 1u64) by (bit_vector)
                requires y == u | (1u64 << k), i == k, k < 64, (u >> k) & 1u64 == 0u64;
        } else {
            assert((y >> i) & 1u64 == (u >> i) & 1u64) by (bit_vector)
                requires y == u | (1u64 << k), i != k, i < 64, k < 64;
        }
    }
}

/// Zero has no ones.
proof fn lemma_ones_zero_u32(n: nat)
    requires
        n <= 32,
    ensures
        ones_below_u32(0u32, n) == 0,
    decreases n,
{
    if n > 0 {
        lemma_ones_zero_u32((n - 1) as nat);
        let i = (n - 1) as u32;
        assert((0u32 >> i) & 1u32 == 0u32) by (bit_vector);
    }
}

/// Zero has no ones.
proof fn lemma_ones_zero_u64(n: nat)
    requires
        n <= 64,
    ensures
        ones_below_u64(0u64, n) == 0,
    decreases n,
{
    if n > 0 {
        lemma_ones_zero_u64((n - 1) as nat);
        let i = (n - 1) as u64;
        assert((0u64 >> i) & 1u64 == 0u64) by (bit_vector);
    }
}

/// `popcnt` counts the ones among all 32 bits: zero has none, and setting
/// any clear bit of a value (any of the 32) adds exactly one.
pub proof fn law_popcnt_i32_counts_every_bit(x: i32, k: u32)
    requires
        k < 32,
        ((x as u32) >> k) & 1u32 == 0u32,
    ensures
        popcnt_i32(0) == 0,
        popcnt_i32(((x as u32) | (1u32 << k)) as i32) == popcnt_i32(x) + 1,
{
    lemma_ones_zero_u32(32);
    lemma_ones_set_u32(x as u32, k, 32);
    let y = (x as u32) | (1u32 << k);
    assert((y as i32) as u32 == y) by (bit_vector);
}

/// `popcnt` counts the ones among all 64 bits: zero has none, and setting
/// any clear bit of a value (any of the 64) adds exactly one.
pub proof fn law_popcnt_i64_counts_every_bit(x: i64, k: u64)
    requires
        k < 64,
        ((x as u64) >> k) & 1u64 == 0u64,
    ensures
        popcnt_i64(0) == 0,
        popcnt_i64(((x as u64) | (1u64 << k)) as i64) == popcnt_i64(x) + 1,
{
    lemma_ones_zero_u64(64);
    lemma_ones_set_u64(x as u64, k, 64);
    let y = (x as u64) | (1u64 << k);
    assert((y as i64) as u64 == y) by (bit_vector);
}

/// Rotating left and then right by the same amount gives the bit pattern
/// back.
pub proof fn law_rotl_rotr_i32(x: i32, k: i32)
    ensures
        rotr_i32(rotl_i32(x, k), k) == x,
{
    let u = x as u32;
    let s = (k as u32) % 32;
    if s != 0 {
        assert(((((((u << s) | (u >> (32 - s) as u32)) as i32) as u32) >> s)
            | (((((u << s) | (u >> (32 - s) as u32)) as i32) as u32) << (32 - s) as u32)) as i32 == x) by (bit_vector)
            requires
                0 < s < 32,
                u == x as u32;
    }
}

/// Rotating left and then right by the same amount gives the bit pattern
/// back.
pub proof fn law_rotl_rotr_i64(x: i64, k: i64)
    ensures
        rotr_i64(rotl_i64(x, k), k) == x,
{
    let u = x as u64;
    let s = (k as u64) % 64;
    if s != 0 {
        assert(((((((u << s) | (u >> (64 - s) as u64)) as i64) as u64) >> s)
            | (((((u << s) | (u >> (64 - s) as u64)) as i64) as u64) << (64 - s) as u64)) as i64 == x) by (bit_vector)
            requires
                0 < s < 64,
                u == x as u64;
    }
}


/// What the engine asks of the float arithmetic: an operation and its
/// operands (bit patterns), or the text of a value.
pub ghost enum FloatRequest {
    F32Unary(FloatUnOp, u32),
    F32Binary(FloatBinOp, u32, u32),
    F32Relation(FloatRelOp, u32, u32),
    F64Unary(FloatUnOp, u64),
    F64Binary(FloatBinOp, u64, u64),
    F64Relation(FloatRelOp, u64, u64),
    F32Text(u32),
    F64Text(u64),
}

/// What the float arithmetic answered.
pub ghost enum FloatAnswer {
    Bits32(u32),
    Bits64(u64),
    Holds(bool),
    Text(Seq<char>),
}

/// One request to the float arithmetic, with its answer.
pub ghost struct FloatCall {
    pub request: FloatRequest,
    pub answer: FloatAnswer,
}

/// Asks the float arithmetic for a one-operand `f32` operation.
pub fn ask_f32_unary<F: FloatOps>(floats: &F, op: FloatUnOp, a: u32) -> (r: (u32, Ghost<FloatCall>))
    ensures
        r.1@ == (FloatCall { request: FloatRequest::F32Unary(op, a), answer: FloatAnswer::Bits32(r.0) }),
{
    let v = floats.f32_unary(op, a);
    (v, Ghost(FloatCall { request: FloatRequest::F32Unary(op, a), answer: FloatAnswer::Bits32(v) }))
}

/// Asks the float arithmetic for a two-operand `f32` operation.
pub fn ask_f32_binary<F: FloatOps>(floats: &F, op: FloatBinOp, a: u32, b: u32) -> (r: (u32, Ghost<FloatCall>))
    ensures
        r.1@ == (FloatCall { request: FloatRequest::F32Binary(op, a, b), answer: FloatAnswer::Bits32(r.0) }),
{
    let v = floats.f32_binary(op, a, b);
    (v, Ghost(FloatCall { request: FloatRequest::F32Binary(op, a, b), answer: FloatAnswer::Bits32(v) }))
}

/// Asks the float arithmetic for an `f32` comparison.
pub fn ask_f32_relation<F: FloatOps>(floats: &F, op: FloatRelOp, a: u32, b: u32) -> (r: (bool, Ghost<FloatCall>))
    ensures
        r.1@ == (FloatCall { request: FloatRequest::F32Relation(op, a, b), answer: FloatAnswer::Holds(r.0) }),
{
    let v = floats.f32_relation(op, a, b);
    (v, Ghost(FloatCall { request: FloatRequest::F32Relation(op, a, b), answer: FloatAnswer::Holds(v) }))
}

/// Asks the float arithmetic for a one-operand `f64` operation.
pub fn ask_f64_unary<F: FloatOps>(floats: &F, op: FloatUnOp, a: u64) -> (r: (u64, Ghost<FloatCall>))
    ensures
        r.1@ == (FloatCall { request: FloatRequest::F64Unary(op, a), answer: FloatAnswer::Bits64(r.0) }),
{
    let v = floats.f64_unary(op, a);
    (v, Ghost(FloatCall { request: FloatRequest::F64Unary(op, a), answer: FloatAnswer::Bits64(v) }))
}

/// Asks the float arithmetic for a two-operand `f64` operation.
pub fn ask_f64_binary<F: FloatOps>(floats: &F, op: FloatBinOp, a: u64, b: u64) -> (r: (u64, Ghost<FloatCall>))
    ensures
        r.1@ == (FloatCall { request: FloatRequest::F64Binary(op, a, b), answer: FloatAnswer::Bits64(r.0) }),
{
    let v = floats.f64_binary(op, a, b);
    (v, Ghost(FloatCall { request: FloatRequest::F64Binary(op, a, b), answer: FloatAnswer::Bits64(v) }))
}

/// Asks the float arithmetic for an `f64` comparison.
pub fn ask_f64_relation<F: FloatOps>(floats: &F, op: FloatRelOp, a: u64, b: u64) -> (r: (bool, Ghost<FloatCall>))
    ensures
        r.1@ == (FloatCall { request: FloatRequest::F64Relation(op, a, b), answer: FloatAnswer::Holds(r.0) }),
{
    let v = floats.f64_relation(op, a, b);
    (v, Ghost(FloatCall { request: FloatRequest::F64Relation(op, a, b), answer: FloatAnswer::Holds(v) }))
}

/// Asks the float arithmetic for the text of an `f32` value.
pub fn ask_f32_text<F: FloatOps>(floats: &F, a: u32) -> (r: (String, Ghost<FloatCall>))
    ensures
        r.1@ == (FloatCall { request: FloatRequest::F32Text(a), answer: FloatAnswer::Text(r.0@) }),
{
    let t = floats.f32_text(a);
    let ghost text = t@;
    (t, Ghost(FloatCall { request: FloatRequest::F32Text(a), answer: FloatAnswer::Text(text) }))
}

/// Asks the float arithmetic for the text of an `f64` value.
pub fn ask_f64_text<F: FloatOps>(floats: &F, a: u64) -> (r: (String, Ghost<FloatCall>))
    ensures
        r.1@ == (FloatCall { request: FloatRequest::F64Text(a), answer: FloatAnswer::Text(r.0@) }),
{
    let t = floats.f64_text(a);
    let ghost text = t@;
    (t, Ghost(FloatCall { request: FloatRequest::F64Text(a), answer: FloatAnswer::Text(text) }))
}

} // verus!
