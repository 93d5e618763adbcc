//! Runtime values. Floats are carried as their IEEE-754 bit patterns; what
//! they mean is up to the `FloatOps` the embedding program supplies.
use vstd::prelude::*;
use vstd::std_specs::convert::{FromSpecImpl, TryFromSpecImpl};
use crate::error::Error;
use crate::fmt::{decimal, i64_to_string};
use crate::model::ValType;
use crate::ops::{ask_f32_text, ask_f64_text, FloatAnswer, FloatCall, FloatOps, FloatRequest};

verus! {

/// A value of one of the four WebAssembly number types.
#[derive(Debug, Clone, Copy, PartialEq, Eq, Structural)]
pub enum Value {
    I32(i32),
    I64(i64),
    /// A 32-bit float, as its bit pattern.
    F32(u32),
    /// A 64-bit float, as its bit pattern.
    F64(u64),
}

/// The type of a value.
pub open spec fn type_of(v: Value) -> ValType {
    match v {
        Value::I32(_) => ValType::I32,
        Value::I64(_) => ValType::I64,
        Value::F32(_) => ValType::F32,
        Value::F64(_) => ValType::F64,
    }
}

/// The zero value of a type.
pub open spec fn zero_of(t: ValType) -> Value {
    match t {
        ValType::I32 => Value::I32(0),
        ValType::I64 => Value::I64(0),
        ValType::F32 => Value::F32(0),
        ValType::F64 => Value::F64(0),
    }
}

/// A check that two things have the same type.
pub trait IsSame {
    fn is_same(&self, other: &Self) -> Result<(), Error>;
}

impl IsSame for Value {
    /// Succeeds exactly when both values have the same type.
    fn is_same(&self, other: &Value) -> (r: Result<(), Error>)
        ensures
            r is Ok <==> type_of(*self) == type_of(*other),
            r is Err ==> r == Err::<(), Error>(Error::TypeMismatch),
    {
        match (self, other) {
            (Value::I32(_), Value::I32(_)) => Ok(()),
            (Value::I64(_), Value::I64(_)) => Ok(()),
            (Value::F32(_), Value::F32(_)) => Ok(()),
            (Value::F64(_), Value::F64(_)) => Ok(()),
            _ => Err(Error::TypeMismatch),
        }
    }
}

impl Value {
    /// The zero of `i32`.
    pub fn default_i32() -> (r: Value)
        ensures
            r == Value::I32(0),
    {
        Value::I32(0)
    }

    /// The zero of `i64`.
    pub fn default_i64() -> (r: Value)
        ensures
            r == Value::I64(0),
    {
        Value::I64(0)
    }

    /// The zero of `f32` (positive zero).
    pub fn default_f32() -> (r: Value)
        ensures
            r == Value::F32(0),
    {
        Value::F32(0)
    }

    /// The zero of `f64` (positive zero).
    pub fn default_f64() -> (r: Value)
        ensures
            r == Value::F64(0),
    {
        Value::F64(0)
    }

    /// The zero value of a type.
    pub fn default_of(t: &ValType) -> (r: Value)
        ensures
            r == zero_of(*t),
    {
        match t {
            ValType::I32 => Value::default_i32(),
            ValType::I64 => Value::default_i64(),
            ValType::F32 => Value::default_f32(),
            ValType::F64 => Value::default_f64(),
        }
    }

    /// The type of this value.
    pub fn val_type(&self) -> (r: ValType)
        ensures
            r == type_of(*self),
    {
        match self {
            Value::I32(_) => ValType::I32,
            Value::I64(_) => ValType::I64,
            Value::F32(_) => ValType::F32,
            Value::F64(_) => ValType::F64,
        }
    }

    /// Succeeds exactly when this value has type `t`.
    pub fn is_same_type(&self, t: &ValType) -> (r: Result<(), Error>)
        ensures
            r is Ok <==> type_of(*self) == *t,
            r is Err ==> r == Err::<(), Error>(Error::TypeMismatch),
    {
        let own = self.val_type();
        if own == *t {
            Ok(())
        } else {
            Err(Error::TypeMismatch)
        }
    }

    /// The text of the value: decimal for integers; for floats, the text the
    /// float arithmetic gives for the value's bit pattern. Also gives that
    /// request, with its answer (see `text_fits`).
    pub fn to_text<F: FloatOps>(&self, floats: &F) -> (r: (String, Ghost<Option<FloatCall>>))
        ensures
            text_fits(*self, r.0@, r.1@),
    {
        match self {
            Value::I32(n) => (i64_to_string(*n as i64), Ghost(None)),
            Value::I64(n) => (i64_to_string(*n), Ghost(None)),
            Value::F32(b) => {
                let (t, Ghost(call)) = ask_f32_text(floats, *b);
                (t, Ghost(Some(call)))
            },
            Value::F64(b) => {
                let (t, Ghost(call)) = ask_f64_text(floats, *b);
                (t, Ghost(Some(call)))
            },
        }
    }

    /// The 32-bit float bit pattern held, or a type mismatch.
    pub fn as_f32_bits(&self) -> (r: Result<u32, Error>)
        ensures
            *self matches Value::F32(b) ==> r == Ok::<u32, Error>(b),
            !(self is F32) ==> r == Err::<u32, Error>(Error::TypeMismatch),
    {
        match self {
            Value::F32(b) => Ok(*b),
            _ => Err(Error::TypeMismatch),
        }
    }

    /// The 64-bit float bit pattern held, or a type mismatch.
    pub fn as_f64_bits(&self) -> (r: Result<u64, Error>)
        ensures
            *self matches Value::F64(b) ==> r == Ok::<u64, Error>(b),
            !(self is F64) ==> r == Err::<u64, Error>(Error::TypeMismatch),
    {
        match self {
            Value::F64(b) => Ok(*b),
            _ => Err(Error::TypeMismatch),
        }
    }
}

impl From<i32> for Value {
    fn from(n: i32) -> (r: Value) {
        Value::I32(n)
    }
}

impl FromSpecImpl<i32> for Value {
    open spec fn obeys_from_spec() -> bool {
        true
    }

    open spec fn from_spec(n: i32) -> Value {
        Value::I32(n)
    }
}

impl From<i64> for Value {
    fn from(n: i64) -> (r: Value) {
        Value::I64(n)
    }
}

impl FromSpecImpl<i64> for Value {
    open spec fn obeys_from_spec() -> bool {
        true
    }

    open spec fn from_spec(n: i64) -> Value {
        Value::I64(n)
    }
}

impl TryFrom<Value> for i32 {
    type Error = Error;

    fn try_from(v: Value) -> (r: Result<i32, Error>) {
        match v {
            Value::I32(n) => Ok(n),
            _ => Err(Error::TypeMismatch),
        }
    }
}

impl TryFromSpecImpl<Value> for i32 {
    open spec fn obeys_try_from_spec() -> bool {
        true
    }

    open spec fn try_from_spec(v: Value) -> Result<i32, Error> {
        match v {
            Value::I32(n) => Ok(n),
            _ => Err(Error::TypeMismatch),
        }
    }
}

impl TryFrom<Value> for i64 {
    type Error = Error;

    fn try_from(v: Value) -> (r: Result<i64, Error>) {
        match v {
            Value::I64(n) => Ok(n),
            _ => Err(Error::TypeMismatch),
        }
    }
}

impl TryFromSpecImpl<Value> for i64 {
    open spec fn obeys_try_from_spec() -> bool {
        true
    }

    open spec fn try_from_spec(v: Value) -> Result<i64, Error> {
        match v {
            Value::I64(n) => Ok(n),
            _ => Err(Error::TypeMismatch),
        }
    }
}


/// `t` is the text of `v`, with `c` the request made for it: the decimal
/// text of an integer, for which nothing is asked; for a float, the answer
/// of the float arithmetic to the request for the text of its bit pattern.
pub open spec fn text_fits(v: Value, t: Seq<char>, c: Option<FloatCall>) -> bool {
    match v {
        Value::I32(n) => t == decimal(n as int) && c is None,
        Value::I64(n) => t == decimal(n as int) && c is None,
        Value::F32(b) => c == Some(FloatCall { request: FloatRequest::F32Text(b), answer: FloatAnswer::Text(t) }),
        Value::F64(b) => c == Some(FloatCall { request: FloatRequest::F64Text(b), answer: FloatAnswer::Text(t) }),
    }
}

} // verus!
