#![allow(dead_code)]
use wasmrepl::ops::{FloatBinOp, FloatOps, FloatRelOp, FloatUnOp};
use wasmrepl::stack::Stack;
use wasmrepl::value::Value;

fn test_val_i32(n: i32) -> Value {
    n.into()
}

struct HostFloats;

impl FloatOps for HostFloats {
    fn f32_unary(&self, op: FloatUnOp, a: u32) -> u32 {
        let x = f32::from_bits(a);
        let r = match op {
            FloatUnOp::Abs => x.abs(),
            FloatUnOp::Neg => x * -1.0,
            FloatUnOp::Ceil => x.ceil(),
            FloatUnOp::Floor => x.floor(),
            FloatUnOp::Trunc => x.trunc(),
            FloatUnOp::Nearest => x.round(),
            FloatUnOp::Sqrt => x.sqrt(),
        };
        r.to_bits()
    }

    fn f32_binary(&self, op: FloatBinOp, a: u32, b: u32) -> u32 {
        let (x, y) = (f32::from_bits(a), f32::from_bits(b));
        let r = match op {
            FloatBinOp::Add => x + y,
            FloatBinOp::Sub => x - y,
            FloatBinOp::Mul => x * y,
            FloatBinOp::Div => x / y,
            FloatBinOp::Min => x.min(y),
            FloatBinOp::Max => x.max(y),
            FloatBinOp::Copysign => x.copysign(y),
        };
        r.to_bits()
    }

    fn f32_relation(&self, op: FloatRelOp, a: u32, b: u32) -> bool {
        let (x, y) = (f32::from_bits(a), f32::from_bits(b));
        match op {
            FloatRelOp::Eq => x == y,
            FloatRelOp::Ne => x != y,
            FloatRelOp::Lt => x < y,
            FloatRelOp::Gt => x > y,
            FloatRelOp::Le => x <= y,
            FloatRelOp::Ge => x >= y,
        }
    }

    fn f32_text(&self, a: u32) -> String {
        format!("{}", f32::from_bits(a))
    }

    fn f64_unary(&self, op: FloatUnOp, a: u64) -> u64 {
        let x = f64::from_bits(a);
        let r = match op {
            FloatUnOp::Abs => x.abs(),
            FloatUnOp::Neg => x * -1.0,
            FloatUnOp::Ceil => x.ceil(),
            FloatUnOp::Floor => x.floor(),
            FloatUnOp::Trunc => x.trunc(),
            FloatUnOp::Nearest => x.round(),
            FloatUnOp::Sqrt => x.sqrt(),
        };
        r.to_bits()
    }

    fn f64_binary(&self, op: FloatBinOp, a: u64, b: u64) -> u64 {
        let (x, y) = (f64::from_bits(a), f64::from_bits(b));
        let r = match op {
            FloatBinOp::Add => x + y,
            FloatBinOp::Sub => x - y,
            FloatBinOp::Mul => x * y,
            FloatBinOp::Div => x / y,
            FloatBinOp::Min => x.min(y),
            FloatBinOp::Max => x.max(y),
            FloatBinOp::Copysign => x.copysign(y),
        };
        r.to_bits()
    }

    fn f64_relation(&self, op: FloatRelOp, a: u64, b: u64) -> bool {
        let (x, y) = (f64::from_bits(a), f64::from_bits(b));
        match op {
            FloatRelOp::Eq => x == y,
            FloatRelOp::Ne => x != y,
            FloatRelOp::Lt => x < y,
            FloatRelOp::Gt => x > y,
            FloatRelOp::Le => x <= y,
            FloatRelOp::Ge => x >= y,
        }
    }

    fn f64_text(&self, a: u64) -> String {
        format!("{}", f64::from_bits(a))
    }
}

fn f32v(x: f32) -> Value {
    Value::F32(x.to_bits())
}

fn f64v(x: f64) -> Value {
    Value::F64(x.to_bits())
}

fn f32b(x: f32) -> u32 {
    x.to_bits()
}

fn f64b(x: f64) -> u64 {
    x.to_bits()
}

#[test]
fn test_stack() {
    let mut stack = Stack::new();
    stack.push(test_val_i32(1));
    stack.push(test_val_i32(2));
    assert_eq!(stack.peek().unwrap(), test_val_i32(2));
    assert_eq!(stack.pop().unwrap(), test_val_i32(2));
    assert_eq!(stack.pop().unwrap(), test_val_i32(1));
    assert!(stack.pop().is_err());
    assert!(stack.peek().is_err());
}

#[test]
fn test_stack_commit() {
    let mut stack = Stack::new();
    stack.push(test_val_i32(1));
    stack.push(test_val_i32(2));
    stack.commit();
    assert_eq!(stack.peek().unwrap(), test_val_i32(2));
    assert_eq!(stack.pop().unwrap(), test_val_i32(2));
    assert_eq!(stack.pop().unwrap(), test_val_i32(1));
    assert!(stack.pop().is_err());
}

#[test]
fn test_stack_rollback() {
    let mut stack = Stack::new();
    stack.push(test_val_i32(1));
    stack.push(test_val_i32(2));
    stack.rollback();
    assert!(stack.pop().is_err());
}

#[test]
fn test_stack_grow_and_rollback() {
    let mut stack = Stack::new();
    stack.push(test_val_i32(1));
    stack.push(test_val_i32(2));
    stack.push(test_val_i32(3));
    stack.commit();
    stack.push(test_val_i32(4));
    stack.push(test_val_i32(5));
    stack.rollback();
    assert_eq!(stack.pop().unwrap(), test_val_i32(3));
    assert_eq!(stack.pop().unwrap(), test_val_i32(2));
    assert_eq!(stack.pop().unwrap(), test_val_i32(1));
    assert!(stack.pop().is_err());
}

#[test]
fn test_stack_grow_and_commit() {
    let mut stack = Stack::new();
    stack.push(test_val_i32(1));
    stack.push(test_val_i32(2));
    stack.push(test_val_i32(3));
    stack.commit();

    stack.push(test_val_i32(4));
    stack.push(test_val_i32(5));
    stack.commit();
    assert_eq!(stack.pop().unwrap(), test_val_i32(5));
    assert_eq!(stack.pop().unwrap(), test_val_i32(4));
    assert_eq!(stack.pop().unwrap(), test_val_i32(3));
    assert_eq!(stack.pop().unwrap(), test_val_i32(2));
    assert_eq!(stack.pop().unwrap(), test_val_i32(1));
    assert!(stack.pop().is_err());
}

#[test]
fn test_stack_shrink_and_rollback() {
    let mut stack = Stack::new();
    stack.push(test_val_i32(1));
    stack.push(test_val_i32(2));
    stack.push(test_val_i32(3));
    stack.commit();

    stack.pop().unwrap();
    stack.pop().unwrap();
    stack.rollback();

    assert_eq!(stack.pop().unwrap(), test_val_i32(3));
    assert_eq!(stack.pop().unwrap(), test_val_i32(2));
    assert_eq!(stack.pop().unwrap(), test_val_i32(1));
    assert!(stack.pop().is_err());
}

#[test]
fn test_stack_shrink_and_commit() {
    let mut stack = Stack::new();
    stack.push(test_val_i32(1));
    stack.push(test_val_i32(2));
    stack.push(test_val_i32(3));
    stack.commit();

    stack.pop().unwrap();
    stack.pop().unwrap();
    stack.commit();

    assert_eq!(stack.pop().unwrap(), test_val_i32(1));
    assert!(stack.pop().is_err());
}

#[test]
fn test_stack_underflow() {
    let mut stack = Stack::new();
    stack.push(test_val_i32(1));
    stack.push(test_val_i32(2));
    stack.commit();

    stack.pop().unwrap();
    stack.pop().unwrap();
    assert!(stack.pop().is_err());
}

#[test]
fn test_stack_to_string() {
    let mut stack = Stack::new();
    stack.push(test_val_i32(1));
    stack.push(test_val_i32(2));
    stack.commit();
    assert_eq!(stack.to_string(&HostFloats).0, "[1, 2]");
}

#[test]
fn test_stack_uncommited_to_string() {
    let mut stack = Stack::new();
    stack.push(test_val_i32(1));
    stack.push(test_val_i32(2));
    stack.commit();
    stack.push(test_val_i32(3));
    assert_eq!(stack.to_string(&HostFloats).0, "[1, 2]");
    assert_eq!(stack.to_soft_string(&HostFloats).unwrap().0, "[1, 2, 3]");
}

#[test]
fn test_is_empty() {
    let mut stack = Stack::new();
    assert!(stack.is_empty());
    stack.push(test_val_i32(1));
    assert!(!stack.is_empty());
    stack.commit();
    assert!(!stack.is_empty());
    stack.pop().unwrap();
    assert!(stack.is_empty());
}
