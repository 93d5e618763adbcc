#![allow(dead_code)]
use wasmrepl::error::Error;
use wasmrepl::ops::{FloatBinOp, FloatOps, FloatRelOp, FloatUnOp};
use wasmrepl::value::{IsSame, Value};

struct HostFloats;

impl FloatOps for HostFloats {
    fn f32_unary(&self, op: FloatUnOp, a: u32) -> u32 {
        let x = f32::from_bits(a);
        let r = match op {
            FloatUnOp::Abs => x.abs(),
            FloatUnOp::Neg => x * -1.0,
            FloatUnOp::Ceil => x.ceil(),
            FloatUnOp::Floor => x.floor(),
            FloatUnOp::Trunc => x.trunc(),
            FloatUnOp::Nearest => x.round(),
            FloatUnOp::Sqrt => x.sqrt(),
        };
        r.to_bits()
    }

    fn f32_binary(&self, op: FloatBinOp, a: u32, b: u32) -> u32 {
        let (x, y) = (f32::from_bits(a), f32::from_bits(b));
        let r = match op {
            FloatBinOp::Add => x + y,
            FloatBinOp::Sub => x - y,
            FloatBinOp::Mul => x * y,
            FloatBinOp::Div => x / y,
            FloatBinOp::Min => x.min(y),
            FloatBinOp::Max => x.max(y),
            FloatBinOp::Copysign => x.copysign(y),
        };
        r.to_bits()
    }

    fn f32_relation(&self, op: FloatRelOp, a: u32, b: u32) -> bool {
        let (x, y) = (f32::from_bits(a), f32::from_bits(b));
        match op {
            FloatRelOp::Eq => x == y,
            FloatRelOp::Ne => x != y,
            FloatRelOp::Lt => x < y,
            FloatRelOp::Gt => x > y,
            FloatRelOp::Le => x <= y,
            FloatRelOp::Ge => x >= y,
        }
    }

    fn f32_text(&self, a: u32) -> String {
        format!("{}", f32::from_bits(a))
    }

    fn f64_unary(&self, op: FloatUnOp, a: u64) -> u64 {
        let x = f64::from_bits(a);
        let r = match op {
            FloatUnOp::Abs => x.abs(),
            FloatUnOp::Neg => x * -1.0,
            FloatUnOp::Ceil => x.ceil(),
            FloatUnOp::Floor => x.floor(),
            FloatUnOp::Trunc => x.trunc(),
            FloatUnOp::Nearest => x.round(),
            FloatUnOp::Sqrt => x.sqrt(),
        };
        r.to_bits()
    }

    fn f64_binary(&self, op: FloatBinOp, a: u64, b: u64) -> u64 {
        let (x, y) = (f64::from_bits(a), f64::from_bits(b));
        let r = match op {
            FloatBinOp::Add => x + y,
            FloatBinOp::Sub => x - y,
            FloatBinOp::Mul => x * y,
            FloatBinOp::Div => x / y,
            FloatBinOp::Min => x.min(y),
            FloatBinOp::Max => x.max(y),
            FloatBinOp::Copysign => x.copysign(y),
        };
        r.to_bits()
    }

    fn f64_relation(&self, op: FloatRelOp, a: u64, b: u64) -> bool {
        let (x, y) = (f64::from_bits(a), f64::from_bits(b));
        match op {
            FloatRelOp::Eq => x == y,
            FloatRelOp::Ne => x != y,
            FloatRelOp::Lt => x < y,
            FloatRelOp::Gt => x > y,
            FloatRelOp::Le => x <= y,
            FloatRelOp::Ge => x >= y,
        }
    }

    fn f64_text(&self, a: u64) -> String {
        format!("{}", f64::from_bits(a))
    }
}

fn f32v(x: f32) -> Value {
    Value::F32(x.to_bits())
}

fn f64v(x: f64) -> Value {
    Value::F64(x.to_bits())
}

fn f32b(x: f32) -> u32 {
    x.to_bits()
}

fn f64b(x: f64) -> u64 {
    x.to_bits()
}

fn test_val_i32(n: i32) -> Value {
    n.into()
}

fn test_val_i64(n: i64) -> Value {
    n.into()
}

fn test_val_f32(n: f32) -> Value {
    f32v(n)
}

fn test_val_f64(n: f64) -> Value {
    f64v(n)
}

#[test]
fn test_value_display() {
    assert_eq!(test_val_i32(1).to_text(&HostFloats).0, "1");
    assert_eq!(test_val_i64(2).to_text(&HostFloats).0, "2");
    assert_eq!(test_val_f32(3.14).to_text(&HostFloats).0, "3.14");
    assert_eq!(test_val_f64(3.14f64).to_text(&HostFloats).0, "3.14");
}

#[test]
fn test_from_num() {
    assert_eq!(Value::from(1), test_val_i32(1));
    assert_eq!(Value::from(2i64), test_val_i64(2));
    assert_eq!(f32v(3.14f32), test_val_f32(3.14));
    assert_eq!(f64v(3.14f64), test_val_f64(3.14));
}

#[test]
fn test_to_num() {
    let v: i32 = test_val_i32(1).try_into().unwrap();
    assert_eq!(v, 1);
    let v: i64 = test_val_i64(2).try_into().unwrap();
    assert_eq!(v, 2);
    let v: f32 = f32::from_bits(test_val_f32(3.0).as_f32_bits().unwrap());
    assert_eq!(v, 3.0);
    let v: f64 = f64::from_bits(test_val_f64(4.0).as_f64_bits().unwrap());
    assert_eq!(v, 4.0);
}

#[test]
fn test_to_num_type_error() {
    let v: Result<i64, Error> = test_val_i32(1).try_into();
    assert!(v.is_err());
}

#[test]
fn test_from_num_type() {
    let v: Value = Value::from(1i32);
    assert_eq!(v, test_val_i32(1));
    let v: Value = Value::from(2i64);
    assert_eq!(v, test_val_i64(2));
    let v: Value = f32v(3.14f32);
    assert_eq!(v, test_val_f32(3.14));
    let v: Value = f64v(3.14f64);
    assert_eq!(v, test_val_f64(3.14));
}

#[test]
fn test_into_num_type() {
    let i: Value = test_val_i32(1).try_into().unwrap();
    assert_eq!(i, Value::I32(1));
    let i: Value = test_val_i64(1).try_into().unwrap();
    assert_eq!(i, Value::I64(1));
    let i: Value = test_val_f32(1.0).try_into().unwrap();
    assert_eq!(i, f32v(1.0));
}

#[test]
fn test_is_same() {
    test_val_i32(1).is_same(&test_val_i32(5)).unwrap();
    test_val_i64(3).is_same(&test_val_i64(12)).unwrap();
    test_val_f32(1.1).is_same(&test_val_f32(2.3)).unwrap();
    test_val_f64(1.1).is_same(&test_val_f64(2.3)).unwrap();
}

#[test]
fn test_is_same_error() {
    assert!(test_val_i32(1).is_same(&test_val_i64(2)).is_err());
    assert!(test_val_i32(1).is_same(&test_val_f32(2.0)).is_err());
    assert!(test_val_i64(1).is_same(&test_val_f64(2.0)).is_err());
}
