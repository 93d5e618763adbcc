//! Integers of either WebAssembly width.
use vstd::prelude::*;
use vstd::std_specs::bits::{u32_leading_zeros, u32_trailing_zeros, u64_leading_zeros, u64_trailing_zeros};
use crate::error::Error;
use crate::fmt::{decimal, i64_to_string};
use crate::ops::{trunc_div, IntOps, NumOps};
use crate::op::Op;

verus! {

/// A 32-bit or a 64-bit integer.
#[derive(Debug, Clone, Copy, PartialEq, Eq, Structural)]
pub enum Integer {
    I32(i32),
    I64(i64),
}

impl Integer {
    /// The decimal text of the integer.
    pub fn to_text(&self) -> (s: String)
        ensures
            s@ == decimal(match *self {
                Integer::I32(a) => a as int,
                Integer::I64(a) => a as int,
            }),
    {
        match self {
            Integer::I32(a) => i64_to_string(*a as i64),
            Integer::I64(a) => i64_to_string(*a),
        }
    }

    /// The number of leading zero bits, in the same width.
    pub fn leading_zeros(&self) -> (r: Integer)
        ensures
            r == (match *self {
                Integer::I32(a) => Integer::I32(u32_leading_zeros(a as u32) as i32),
                Integer::I64(a) => Integer::I64(u64_leading_zeros(a as u64) as i64),
            }),
    {
        match self {
            Integer::I32(a) => Integer::I32(a.clz()),
            Integer::I64(a) => Integer::I64(a.clz()),
        }
    }

    /// The number of trailing zero bits, in the same width.
    pub fn trailing_zeros(&self) -> (r: Integer)
        ensures
            r == (match *self {
                Integer::I32(a) => Integer::I32(u32_trailing_zeros(a as u32) as i32),
                Integer::I64(a) => Integer::I64(u64_trailing_zeros(a as u64) as i64),
            }),
    {
        match self {
            Integer::I32(a) => Integer::I32(a.ctz()),
            Integer::I64(a) => Integer::I64(a.ctz()),
        }
    }

    /// Wrapping addition of two integers of the same width.
    pub fn add(&self, other: &Integer) -> (r: Result<Integer, Error>)
        ensures
            r == (match (*self, *other) {
                (Integer::I32(a), Integer::I32(b)) => Ok(Integer::I32(vstd::wrapping::i32_specs::wrapping_add(a, b))),
                (Integer::I64(a), Integer::I64(b)) => Ok(Integer::I64(vstd::wrapping::i64_specs::wrapping_add(a, b))),
                _ => Err::<Integer, Error>(Error::TypeMismatch),
            }),
    {
        match (self, other) {
            (Integer::I32(a), Integer::I32(b)) => Ok(Integer::I32(NumOps::add(*a, *b))),
            (Integer::I64(a), Integer::I64(b)) => Ok(Integer::I64(NumOps::add(*a, *b))),
            _ => Err(Error::TypeMismatch),
        }
    }

    /// Wrapping subtraction of two integers of the same width.
    pub fn sub(&self, other: &Integer) -> (r: Result<Integer, Error>)
        ensures
            r == (match (*self, *other) {
                (Integer::I32(a), Integer::I32(b)) => Ok(Integer::I32(vstd::wrapping::i32_specs::wrapping_sub(a, b))),
                (Integer::I64(a), Integer::I64(b)) => Ok(Integer::I64(vstd::wrapping::i64_specs::wrapping_sub(a, b))),
                _ => Err::<Integer, Error>(Error::TypeMismatch),
            }),
    {
        match (self, other) {
            (Integer::I32(a), Integer::I32(b)) => Ok(Integer::I32(NumOps::sub(*a, *b))),
            (Integer::I64(a), Integer::I64(b)) => Ok(Integer::I64(NumOps::sub(*a, *b))),
            _ => Err(Error::TypeMismatch),
        }
    }

    /// Wrapping multiplication of two integers of the same width.
    pub fn mul(&self, other: &Integer) -> (r: Result<Integer, Error>)
        ensures
            r == (match (*self, *other) {
                (Integer::I32(a), Integer::I32(b)) => Ok(Integer::I32(vstd::wrapping::i32_specs::wrapping_mul(a, b))),
                (Integer::I64(a), Integer::I64(b)) => Ok(Integer::I64(vstd::wrapping::i64_specs::wrapping_mul(a, b))),
                _ => Err::<Integer, Error>(Error::TypeMismatch),
            }),
    {
        match (self, other) {
            (Integer::I32(a), Integer::I32(b)) => Ok(Integer::I32(NumOps::mul(*a, *b))),
            (Integer::I64(a), Integer::I64(b)) => Ok(Integer::I64(NumOps::mul(*a, *b))),
            _ => Err(Error::TypeMismatch),
        }
    }

    /// Wrapping division rounding toward zero of two integers of the same
    /// width; fails on different widths and on a zero divisor.
    pub fn div(&self, other: &Integer) -> (r: Result<Integer, Error>)
        ensures
            r == (match (*self, *other) {
                (Integer::I32(a), Integer::I32(b)) =>
                    if b == 0 { Err(Error::DivideByZero) }
                    else if b == -1 && a == i32::MIN { Ok(Integer::I32(i32::MIN)) }
                    else { Ok(Integer::I32(trunc_div(a as int, b as int) as i32)) },
                (Integer::I64(a), Integer::I64(b)) =>
                    if b == 0 { Err(Error::DivideByZero) }
                    else if b == -1 && a == i64::MIN { Ok(Integer::I64(i64::MIN)) }
                    else { Ok(Integer::I64(trunc_div(a as int, b as int) as i64)) },
                _ => Err::<Integer, Error>(Error::TypeMismatch),
            }),
    {
        match (self, other) {
            (Integer::I32(a), Integer::I32(b)) => match Op::div(*a, *b) {
                Ok(q) => Ok(Integer::I32(q)),
                Err(e) => Err(e),
            },
            (Integer::I64(a), Integer::I64(b)) => match Op::div(*a, *b) {
                Ok(q) => Ok(Integer::I64(q)),
                Err(e) => Err(e),
            },
            _ => Err(Error::TypeMismatch),
        }
    }
}

} // verus!
