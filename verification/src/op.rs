//! The four arithmetic operations as fallible operations: integers wrap
//! around on overflow and refuse a zero divisor.
use vstd::prelude::*;
use crate::error::Error;
use crate::ops::{trunc_div, lemma_trunc_div_shrinks};

verus! {

/// Arithmetic in which each operation may fail.
pub trait Op {
    fn add(self, rhs: Self) -> Result<Self, Error> where Self: Sized;

    fn sub(self, rhs: Self) -> Result<Self, Error> where Self: Sized;

    fn mul(self, rhs: Self) -> Result<Self, Error> where Self: Sized;

    fn div(self, rhs: Self) -> Result<Self, Error> where Self: Sized;
}

impl Op for i32 {
    /// Wrapping addition; never fails.
    fn add(self, rhs: i32) -> (r: Result<i32, Error>)
        ensures
            r == Ok::<i32, Error>(vstd::wrapping::i32_specs::wrapping_add(self, rhs)),
    {
        Ok(self.wrapping_add(rhs))
    }

    /// Wrapping subtraction; never fails.
    fn sub(self, rhs: i32) -> (r: Result<i32, Error>)
        ensures
            r == Ok::<i32, Error>(vstd::wrapping::i32_specs::wrapping_sub(self, rhs)),
    {
        Ok(self.wrapping_sub(rhs))
    }

    /// Wrapping multiplication; never fails.
    fn mul(self, rhs: i32) -> (r: Result<i32, Error>)
        ensures
            r == Ok::<i32, Error>(vstd::wrapping::i32_specs::wrapping_mul(self, rhs)),
    {
        Ok(self.wrapping_mul(rhs))
    }

    /// Wrapping division rounding toward zero (`MIN / -1` is `MIN`); fails
    /// only on a zero divisor.
    fn div(self, rhs: i32) -> (r: Result<i32, Error>)
        ensures
            rhs == 0 ==> r == Err::<i32, Error>(Error::DivideByZero),
            rhs == -1 && self == i32::MIN ==> r == Ok::<i32, Error>(i32::MIN),
            rhs != 0 && !(rhs == -1 && self == i32::MIN) ==> r == Ok::<i32, Error>(trunc_div(self as int, rhs as int) as i32),
    {
        if rhs == 0 {
            Err(Error::DivideByZero)
        } else if rhs == -1 {
            if self == i32::MIN {
                Ok(i32::MIN)
            } else {
                Ok(-self)
            }
        } else {
            proof {
                lemma_trunc_div_shrinks(self as int, rhs as int);
            }
            match self.checked_div(rhs) {
                Some(q) => Ok(q),
                None => Ok(i32::MIN),
            }
        }
    }
}

impl Op for i64 {
    /// Wrapping addition; never fails.
    fn add(self, rhs: i64) -> (r: Result<i64, Error>)
        ensures
            r == Ok::<i64, Error>(vstd::wrapping::i64_specs::wrapping_add(self, rhs)),
    {
        Ok(self.wrapping_add(rhs))
    }

    /// Wrapping subtraction; never fails.
    fn sub(self, rhs: i64) -> (r: Result<i64, Error>)
        ensures
            r == Ok::<i64, Error>(vstd::wrapping::i64_specs::wrapping_sub(self, rhs)),
    {
        Ok(self.wrapping_sub(rhs))
    }

    /// Wrapping multiplication; never fails.
    fn mul(self, rhs: i64) -> (r: Result<i64, Error>)
        ensures
            r == Ok::<i64, Error>(vstd::wrapping::i64_specs::wrapping_mul(self, rhs)),
    {
        Ok(self.wrapping_mul(rhs))
    }

    /// Wrapping division rounding toward zero (`MIN / -1` is `MIN`); fails
    /// only on a zero divisor.
    fn div(self, rhs: i64) -> (r: Result<i64, Error>)
        ensures
            rhs == 0 ==> r == Err::<i64, Error>(Error::DivideByZero),
            rhs == -1 && self == i64::MIN ==> r == Ok::<i64, Error>(i64::MIN),
            rhs != 0 && !(rhs == -1 && self == i64::MIN) ==> r == Ok::<i64, Error>(trunc_div(self as int, rhs as int) as i64),
    {
        if rhs == 0 {
            Err(Error::DivideByZero)
        } else if rhs == -1 {
            if self == i64::MIN {
                Ok(i64::MIN)
            } else {
                Ok(-self)
            }
        } else {
            proof {
                lemma_trunc_div_shrinks(self as int, rhs as int);
            }
            match self.checked_div(rhs) {
                Some(q) => Ok(q),
                None => Ok(i64::MIN),
            }
        }
    }
}

} // verus!
