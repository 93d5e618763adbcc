//! Runs one instruction on a frame: the value-stack and local-variable
//! instructions take effect at once; the structured and control instructions
//! answer with the control transfer that the executor carries out.
use vstd::prelude::*;
use vstd::std_specs::bits::{u32_leading_zeros, u32_trailing_zeros, u64_leading_zeros, u64_trailing_zeros};
use crate::call_stack::FuncStack;
use crate::elements::{lookup_failure, resolve};
use crate::error::Error;
use crate::model::{BlockType, Expression, Index, Instruction};
use crate::ops::{flag_i32, flag_i64, popcnt_i32, popcnt_i64, rotl_i32, rotl_i64, rotr_i32, rotr_i64, trunc_div, trunc_rem};
use crate::ops::{ask_f32_binary, ask_f32_relation, ask_f32_unary, ask_f64_binary, ask_f64_relation, ask_f64_unary};
use crate::ops::{relation_holds, FloatAnswer, FloatBinOp, FloatOps, FloatOrder, FloatRelOp, FloatRequest, FloatUnOp, IntOps, NumOps};
use crate::response::{Control, Response};
use crate::value::{type_of, Value};

verus! {

/// The bit pattern of the 32-bit float `1.0`.
pub const F32_ONE: u32 = 0x3f80_0000u32;

/// The bit pattern of the 64-bit float `1.0`.
pub const F64_ONE: u64 = 0x3ff0_0000_0000_0000u64;

/// Takes the top value of `top` as an `i32`: the value (or why there is
/// none) and what is left. A value of another type is taken all the same.
pub open spec fn popped_i32(top: Seq<Value>) -> (Result<i32, Error>, Seq<Value>) {
    if top.len() == 0 {
        (Err(Error::StackUnderflow), top)
    } else {
        match top.last() {
            Value::I32(n) => (Ok(n), top.drop_last()),
            _ => (Err(Error::TypeMismatch), top.drop_last()),
        }
    }
}

/// Takes the top value of `top` as an `i64`: the value (or why there is
/// none) and what is left. A value of another type is taken all the same.
pub open spec fn popped_i64(top: Seq<Value>) -> (Result<i64, Error>, Seq<Value>) {
    if top.len() == 0 {
        (Err(Error::StackUnderflow), top)
    } else {
        match top.last() {
            Value::I64(n) => (Ok(n), top.drop_last()),
            _ => (Err(Error::TypeMismatch), top.drop_last()),
        }
    }
}

/// Takes the top value of `top` as a `f32`: the value (or why there is
/// none) and what is left. A value of another type is taken all the same.
pub open spec fn popped_f32(top: Seq<Value>) -> (Result<u32, Error>, Seq<Value>) {
    if top.len() == 0 {
        (Err(Error::StackUnderflow), top)
    } else {
        match top.last() {
            Value::F32(n) => (Ok(n), top.drop_last()),
            _ => (Err(Error::TypeMismatch), top.drop_last()),
        }
    }
}

/// Takes the top value of `top` as a `f64`: the value (or why there is
/// none) and what is left. A value of another type is taken all the same.
pub open spec fn popped_f64(top: Seq<Value>) -> (Result<u64, Error>, Seq<Value>) {
    if top.len() == 0 {
        (Err(Error::StackUnderflow), top)
    } else {
        match top.last() {
            Value::F64(n) => (Ok(n), top.drop_last()),
            _ => (Err(Error::TypeMismatch), top.drop_last()),
        }
    }
}

/// The one-operand `i32` instructions.
pub open spec fn is_i32_unary(instr: Instruction) -> bool {
    match instr {
        Instruction::I32Clz | Instruction::I32Ctz | Instruction::I32Popcnt | Instruction::I32Eqz => true,
        _ => false,
    }
}

/// The two-operand `i32` instructions.
pub open spec fn is_i32_binary(instr: Instruction) -> bool {
    match instr {
        Instruction::I32Add | Instruction::I32Sub | Instruction::I32Mul | Instruction::I32DivS | Instruction::I32DivU | Instruction::I32RemS | Instruction::I32RemU | Instruction::I32And | Instruction::I32Or | Instruction::I32Xor | Instruction::I32Shl | Instruction::I32ShrS | Instruction::I32ShrU | Instruction::I32Rotl | Instruction::I32Rotr | Instruction::I32Eq | Instruction::I32Ne | Instruction::I32LtS | Instruction::I32LtU | Instruction::I32GtS | Instruction::I32GtU | Instruction::I32LeS | Instruction::I32LeU | Instruction::I32GeS | Instruction::I32GeU => true,
        _ => false,
    }
}

/// What a one-operand `i32` instruction computes from its operand.
pub open spec fn i32_unary(instr: Instruction, a: i32) -> i32 {
    match instr {
        Instruction::I32Clz => u32_leading_zeros(a as u32) as i32,
        Instruction::I32Ctz => u32_trailing_zeros(a as u32) as i32,
        Instruction::I32Popcnt => popcnt_i32(a) as i32,
        Instruction::I32Eqz => flag_i32(a == 0),
        _ => 0,
    }
}

/// What a two-operand `i32` instruction computes from `b` (pushed first)
/// and `a` (pushed last), or why it fails.
pub open spec fn i32_binary(instr: Instruction, b: i32, a: i32) -> Result<i32, Error> {
    match instr {
        Instruction::I32Add => Ok(vstd::wrapping::i32_specs::wrapping_add(b, a)),
        Instruction::I32Sub => Ok(vstd::wrapping::i32_specs::wrapping_sub(b, a)),
        Instruction::I32Mul => Ok(vstd::wrapping::i32_specs::wrapping_mul(b, a)),
        Instruction::I32DivS => if a == 0 { Err(Error::DivideByZero) } else if b == i32::MIN && a == -1 { Err(Error::IntegerOverflow) } else { Ok(trunc_div(b as int, a as int) as i32) },
        Instruction::I32DivU => if a == 0 { Err(Error::DivideByZero) } else { Ok(((b as u32) / (a as u32)) as i32) },
        Instruction::I32RemS => if a == 0 { Err(Error::DivideByZero) } else if a == -1 { Ok(0) } else { Ok(trunc_rem(b as int, a as int) as i32) },
        Instruction::I32RemU => if a == 0 { Err(Error::DivideByZero) } else { Ok(((b as u32) % (a as u32)) as i32) },
        Instruction::I32And => Ok(b & a),
        Instruction::I32Or => Ok(b | a),
        Instruction::I32Xor => Ok(b ^ a),
        Instruction::I32Shl => Ok(vstd::wrapping::i32_specs::wrapping_shl(b, a as u32)),
        Instruction::I32ShrS => Ok(vstd::wrapping::i32_specs::wrapping_shr(b, a as u32)),
        Instruction::I32ShrU => Ok(vstd::wrapping::u32_specs::wrapping_shr(b as u32, a as u32) as i32),
        Instruction::I32Rotl => Ok(rotl_i32(b, a)),
        Instruction::I32Rotr => Ok(rotr_i32(b, a)),
        Instruction::I32Eq => Ok(flag_i32(b == a)),
        Instruction::I32Ne => Ok(flag_i32(b != a)),
        Instruction::I32LtS => Ok(flag_i32(b < a)),
        Instruction::I32LtU => Ok(flag_i32((b as u32) < (a as u32))),
        Instruction::I32GtS => Ok(flag_i32(b > a)),
        Instruction::I32GtU => Ok(flag_i32((b as u32) > (a as u32))),
        Instruction::I32LeS => Ok(flag_i32(b <= a)),
        Instruction::I32LeU => Ok(flag_i32((b as u32) <= (a as u32))),
        Instruction::I32GeS => Ok(flag_i32(b >= a)),
        Instruction::I32GeU => Ok(flag_i32((b as u32) >= (a as u32))),
        _ => Err(Error::TypeMismatch),
    }
}

/// A one-operand `i32` instruction on the values `top`: the outcome and the
/// values left.
pub open spec fn i32_unary_effect(instr: Instruction, top: Seq<Value>) -> (Result<(), Error>, Seq<Value>) {
    let p = popped_i32(top);
    match p.0 {
        Ok(a) => (Ok(()), p.1.push(Value::I32(i32_unary(instr, a)))),
        Err(e) => (Err(e), p.1),
    }
}

/// A two-operand `i32` instruction on the values `top`: the outcome and the
/// values left. The operand on top is taken first.
pub open spec fn i32_binary_effect(instr: Instruction, top: Seq<Value>) -> (Result<(), Error>, Seq<Value>) {
    let pa = popped_i32(top);
    match pa.0 {
        Err(e) => (Err(e), pa.1),
        Ok(a) => {
            let pb = popped_i32(pa.1);
            match pb.0 {
                Err(e) => (Err(e), pb.1),
                Ok(b) => match i32_binary(instr, b, a) {
                    Ok(v) => (Ok(()), pb.1.push(Value::I32(v))),
                    Err(e) => (Err(e), pb.1),
                },
            }
        },
    }
}

/// The one-operand `i64` instructions.
pub open spec fn is_i64_unary(instr: Instruction) -> bool {
    match instr {
        Instruction::I64Clz | Instruction::I64Ctz | Instruction::I64Popcnt | Instruction::I64Eqz => true,
        _ => false,
    }
}

/// The two-operand `i64` instructions.
pub open spec fn is_i64_binary(instr: Instruction) -> bool {
    match instr {
        Instruction::I64Add | Instruction::I64Sub | Instruction::I64Mul | Instruction::I64DivS | Instruction::I64DivU | Instruction::I64RemS | Instruction::I64RemU | Instruction::I64And | Instruction::I64Or | Instruction::I64Xor | Instruction::I64Shl | Instruction::I64ShrS | Instruction::I64ShrU | Instruction::I64Rotl | Instruction::I64Rotr | Instruction::I64Eq | Instruction::I64Ne | Instruction::I64LtS | Instruction::I64LtU | Instruction::I64GtS | Instruction::I64GtU | Instruction::I64LeS | Instruction::I64LeU | Instruction::I64GeS | Instruction::I64GeU => true,
        _ => false,
    }
}

/// What a one-operand `i64` instruction computes from its operand.
pub open spec fn i64_unary(instr: Instruction, a: i64) -> i64 {
    match instr {
        Instruction::I64Clz => u64_leading_zeros(a as u64) as i64,
        Instruction::I64Ctz => u64_trailing_zeros(a as u64) as i64,
        Instruction::I64Popcnt => popcnt_i64(a) as i64,
        Instruction::I64Eqz => flag_i64(a == 0),
        _ => 0,
    }
}

/// What a two-operand `i64` instruction computes from `b` (pushed first)
/// and `a` (pushed last), or why it fails.
pub open spec fn i64_binary(instr: Instruction, b: i64, a: i64) -> Result<i64, Error> {
    match instr {
        Instruction::I64Add => Ok(vstd::wrapping::i64_specs::wrapping_add(b, a)),
        Instruction::I64Sub => Ok(vstd::wrapping::i64_specs::wrapping_sub(b, a)),
        Instruction::I64Mul => Ok(vstd::wrapping::i64_specs::wrapping_mul(b, a)),
        Instruction::I64DivS => if a == 0 { Err(Error::DivideByZero) } else if b == i64::MIN && a == -1 { Err(Error::IntegerOverflow) } else { Ok(trunc_div(b as int, a as int) as i64) },
        Instruction::I64DivU => if a == 0 { Err(Error::DivideByZero) } else { Ok(((b as u64) / (a as u64)) as i64) },
        Instruction::I64RemS => if a == 0 { Err(Error::DivideByZero) } else if a == -1 { Ok(0) } else { Ok(trunc_rem(b as int, a as int) as i64) },
        Instruction::I64RemU => if a == 0 { Err(Error::DivideByZero) } else { Ok(((b as u64) % (a as u64)) as i64) },
        Instruction::I64And => Ok(b & a),
        Instruction::I64Or => Ok(b | a),
        Instruction::I64Xor => Ok(b ^ a),
        Instruction::I64Shl => Ok(vstd::wrapping::i64_specs::wrapping_shl(b, a as u32)),
        Instruction::I64ShrS => Ok(vstd::wrapping::i64_specs::wrapping_shr(b, a as u32)),
        Instruction::I64ShrU => Ok(vstd::wrapping::u64_specs::wrapping_shr(b as u64, a as u32) as i64),
        Instruction::I64Rotl => Ok(rotl_i64(b, a)),
        Instruction::I64Rotr => Ok(rotr_i64(b, a)),
        Instruction::I64Eq => Ok(flag_i64(b == a)),
        Instruction::I64Ne => Ok(flag_i64(b != a)),
        Instruction::I64LtS => Ok(flag_i64(b < a)),
        Instruction::I64LtU => Ok(flag_i64((b as u64) < (a as u64))),
        Instruction::I64GtS => Ok(flag_i64(b > a)),
        Instruction::I64GtU => Ok(flag_i64((b as u64) > (a as u64))),
        Instruction::I64LeS => Ok(flag_i64(b <= a)),
        Instruction::I64LeU => Ok(flag_i64((b as u64) <= (a as u64))),
        Instruction::I64GeS => Ok(flag_i64(b >= a)),
        Instruction::I64GeU => Ok(flag_i64((b as u64) >= (a as u64))),
        _ => Err(Error::TypeMismatch),
    }
}

/// A one-operand `i64` instruction on the values `top`: the outcome and the
/// values left.
pub open spec fn i64_unary_effect(instr: Instruction, top: Seq<Value>) -> (Result<(), Error>, Seq<Value>) {
    let p = popped_i64(top);
    match p.0 {
        Ok(a) => (Ok(()), p.1.push(Value::I64(i64_unary(instr, a)))),
        Err(e) => (Err(e), p.1),
    }
}

/// A two-operand `i64` instruction on the values `top`: the outcome and the
/// values left. The operand on top is taken first.
pub open spec fn i64_binary_effect(instr: Instruction, top: Seq<Value>) -> (Result<(), Error>, Seq<Value>) {
    let pa = popped_i64(top);
    match pa.0 {
        Err(e) => (Err(e), pa.1),
        Ok(a) => {
            let pb = popped_i64(pa.1);
            match pb.0 {
                Err(e) => (Err(e), pb.1),
                Ok(b) => match i64_binary(instr, b, a) {
                    Ok(v) => (Ok(()), pb.1.push(Value::I64(v))),
                    Err(e) => (Err(e), pb.1),
                },
            }
        },
    }
}

/// The instructions whose effect on the innermost block is fixed by integer
/// arithmetic alone (constants of every type included).
pub open spec fn is_int_effect(instr: Instruction) -> bool {
    match instr {
        Instruction::Nop | Instruction::Drop | Instruction::I32Const(_) | Instruction::I64Const(_)
            | Instruction::F32Const(_) | Instruction::F64Const(_) => true,
        _ => is_i32_unary(instr) || is_i32_binary(instr) || is_i64_unary(instr) || is_i64_binary(instr),
    }
}

/// The outcome of such an instruction on the values `top`, and the values
/// left.
pub open spec fn int_effect(instr: Instruction, top: Seq<Value>) -> (Result<(), Error>, Seq<Value>) {
    match instr {
        Instruction::Nop => (Ok(()), top),
        Instruction::Drop => if top.len() == 0 {
            (Err(Error::StackUnderflow), top)
        } else {
            (Ok(()), top.drop_last())
        },
        Instruction::I32Const(n) => (Ok(()), top.push(Value::I32(n))),
        Instruction::I64Const(n) => (Ok(()), top.push(Value::I64(n))),
        Instruction::F32Const(n) => (Ok(()), top.push(Value::F32(n))),
        Instruction::F64Const(n) => (Ok(()), top.push(Value::F64(n))),
        _ => if is_i32_unary(instr) {
            i32_unary_effect(instr, top)
        } else if is_i32_binary(instr) {
            i32_binary_effect(instr, top)
        } else if is_i64_unary(instr) {
            i64_unary_effect(instr, top)
        } else {
            i64_binary_effect(instr, top)
        },
    }
}

/// The one-operand `f32` instructions.
pub open spec fn is_f32_unary(instr: Instruction) -> bool {
    match instr {
        Instruction::F32Abs | Instruction::F32Neg | Instruction::F32Ceil | Instruction::F32Floor | Instruction::F32Trunc | Instruction::F32Nearest | Instruction::F32Sqrt => true,
        _ => false,
    }
}

/// The two-operand `f32` instructions that give a float.
pub open spec fn is_f32_binary(instr: Instruction) -> bool {
    match instr {
        Instruction::F32Add | Instruction::F32Sub | Instruction::F32Mul | Instruction::F32Div | Instruction::F32Min | Instruction::F32Max | Instruction::F32Copysign => true,
        _ => false,
    }
}

/// The `f32` comparisons.
pub open spec fn is_f32_relation(instr: Instruction) -> bool {
    match instr {
        Instruction::F32Eq | Instruction::F32Ne | Instruction::F32Lt | Instruction::F32Gt | Instruction::F32Le | Instruction::F32Ge => true,
        _ => false,
    }
}

/// The one-operand `f64` instructions.
pub open spec fn is_f64_unary(instr: Instruction) -> bool {
    match instr {
        Instruction::F64Abs | Instruction::F64Neg | Instruction::F64Ceil | Instruction::F64Floor | Instruction::F64Trunc | Instruction::F64Nearest | Instruction::F64Sqrt => true,
        _ => false,
    }
}

/// The two-operand `f64` instructions that give a float.
pub open spec fn is_f64_binary(instr: Instruction) -> bool {
    match instr {
        Instruction::F64Add | Instruction::F64Sub | Instruction::F64Mul | Instruction::F64Div | Instruction::F64Min | Instruction::F64Max | Instruction::F64Copysign => true,
        _ => false,
    }
}

/// The `f64` comparisons.
pub open spec fn is_f64_relation(instr: Instruction) -> bool {
    match instr {
        Instruction::F64Eq | Instruction::F64Ne | Instruction::F64Lt | Instruction::F64Gt | Instruction::F64Le | Instruction::F64Ge => true,
        _ => false,
    }
}

/// The float instructions, whose results the float arithmetic supplies.
pub open spec fn is_float_op(instr: Instruction) -> bool {
    is_f32_unary(instr) || is_f32_binary(instr) || is_f32_relation(instr)
        || is_f64_unary(instr) || is_f64_binary(instr) || is_f64_relation(instr)
}

/// The one-operand float operation of an instruction.
pub open spec fn un_op(instr: Instruction) -> FloatUnOp {
    match instr {
        Instruction::F32Abs | Instruction::F64Abs => FloatUnOp::Abs,
        Instruction::F32Neg | Instruction::F64Neg => FloatUnOp::Neg,
        Instruction::F32Ceil | Instruction::F64Ceil => FloatUnOp::Ceil,
        Instruction::F32Floor | Instruction::F64Floor => FloatUnOp::Floor,
        Instruction::F32Trunc | Instruction::F64Trunc => FloatUnOp::Trunc,
        Instruction::F32Nearest | Instruction::F64Nearest => FloatUnOp::Nearest,
        _ => FloatUnOp::Sqrt,
    }
}

/// The two-operand float operation of an instruction.
pub open spec fn bin_op(instr: Instruction) -> FloatBinOp {
    match instr {
        Instruction::F32Add | Instruction::F64Add => FloatBinOp::Add,
        Instruction::F32Sub | Instruction::F64Sub => FloatBinOp::Sub,
        Instruction::F32Mul | Instruction::F64Mul => FloatBinOp::Mul,
        Instruction::F32Div | Instruction::F64Div => FloatBinOp::Div,
        Instruction::F32Min | Instruction::F64Min => FloatBinOp::Min,
        Instruction::F32Max | Instruction::F64Max => FloatBinOp::Max,
        _ => FloatBinOp::Copysign,
    }
}

/// The float comparison of an instruction.
pub open spec fn rel_op(instr: Instruction) -> FloatRelOp {
    match instr {
        Instruction::F32Eq | Instruction::F64Eq => FloatRelOp::Eq,
        Instruction::F32Ne | Instruction::F64Ne => FloatRelOp::Ne,
        Instruction::F32Lt | Instruction::F64Lt => FloatRelOp::Lt,
        Instruction::F32Gt | Instruction::F64Gt => FloatRelOp::Gt,
        Instruction::F32Le | Instruction::F64Le => FloatRelOp::Le,
        _ => FloatRelOp::Ge,
    }
}

/// What a float instruction asks of the float arithmetic, once it has taken
/// its operands from `top` (the top value is the second operand, the one
/// below it the first); or why it cannot take them. With the values left.
pub open spec fn float_taken(instr: Instruction, top: Seq<Value>) -> (Result<FloatRequest, Error>, Seq<Value>) {
    if is_f32_unary(instr) {
        let pa = popped_f32(top);
        match pa.0 {
            Err(e) => (Err(e), pa.1),
            Ok(a) => (Ok(FloatRequest::F32Unary(un_op(instr), a)), pa.1),
        }
    } else if is_f32_binary(instr) || is_f32_relation(instr) {
        let pa = popped_f32(top);
        match pa.0 {
            Err(e) => (Err(e), pa.1),
            Ok(a) => {
                let pb = popped_f32(pa.1);
                match pb.0 {
                    Err(e) => (Err(e), pb.1),
                    Ok(b) => (Ok(if is_f32_binary(instr) {
                        FloatRequest::F32Binary(bin_op(instr), b, a)
                    } else {
                        FloatRequest::F32Relation(rel_op(instr), b, a)
                    }), pb.1),
                }
            },
        }
    } else if is_f64_unary(instr) {
        let pa = popped_f64(top);
        match pa.0 {
            Err(e) => (Err(e), pa.1),
            Ok(a) => (Ok(FloatRequest::F64Unary(un_op(instr), a)), pa.1),
        }
    } else {
        let pa = popped_f64(top);
        match pa.0 {
            Err(e) => (Err(e), pa.1),
            Ok(a) => {
                let pb = popped_f64(pa.1);
                match pb.0 {
                    Err(e) => (Err(e), pb.1),
                    Ok(b) => (Ok(if is_f64_binary(instr) {
                        FloatRequest::F64Binary(bin_op(instr), b, a)
                    } else {
                        FloatRequest::F64Relation(rel_op(instr), b, a)
                    }), pb.1),
                }
            },
        }
    }
}

/// The value a float instruction pushes for an answer of the float
/// arithmetic: the bit pattern it answered; for a comparison, `1.0` when it
/// holds and `0.0` when not. `None` for an answer of another kind.
pub open spec fn answer_value(instr: Instruction, ans: FloatAnswer) -> Option<Value> {
    if is_f32_relation(instr) {
        match ans {
            FloatAnswer::Holds(h) => Some(Value::F32(if h { F32_ONE } else { 0 })),
            _ => None,
        }
    } else if is_f64_relation(instr) {
        match ans {
            FloatAnswer::Holds(h) => Some(Value::F64(if h { F64_ONE } else { 0 })),
            _ => None,
        }
    } else if is_f32_unary(instr) || is_f32_binary(instr) {
        match ans {
            FloatAnswer::Bits32(v) => Some(Value::F32(v)),
            _ => None,
        }
    } else {
        match ans {
            FloatAnswer::Bits64(v) => Some(Value::F64(v)),
            _ => None,
        }
    }
}

/// What a float instruction does on the values `top`, leaving `next`: it
/// takes its operands; when it can, it asks the float arithmetic exactly
/// `float_taken`'s request, answers "go on" with that request and its
/// answer recorded, and pushes the value of the answer.
pub open spec fn float_done(instr: Instruction, top: Seq<Value>, r: Result<Response, Error>, next: Seq<Value>) -> bool {
    let t = float_taken(instr, top);
    match t.0 {
        Err(e) => r == Err::<Response, Error>(e) && next == t.1,
        Ok(req) => {
            &&& answers(r, Control::Proceed)
            &&& r->Ok_0.float_call@ matches Some(call)
            &&& call.request == req
            &&& answer_value(instr, call.answer) matches Some(v)
            &&& next == t.1.push(v)
        },
    }
}

/// The local that an assignment of `v` through `index` writes: it exists and
/// holds a value of the type of `v`.
pub open spec fn slot_for(ids: Map<Seq<char>, usize>, locals: Seq<Value>, index: Index, v: Value) -> Option<int> {
    match resolve(ids, index) {
        Some(k) => if 0 <= k < locals.len() && type_of(locals[k]) == type_of(v) { Some(k) } else { None },
        None => None,
    }
}

/// The error of an assignment through `index` that finds no slot: a type
/// mismatch when the local exists, else the missing name or position.
pub open spec fn store_failure(ids: Map<Seq<char>, usize>, locals: Seq<Value>, index: Index, e: Error) -> bool {
    match resolve(ids, index) {
        Some(k) => if 0 <= k < locals.len() { e == Error::TypeMismatch } else { lookup_failure(index, e) },
        None => lookup_failure(index, e),
    }
}

/// `after` is `before` with the innermost block holding `t` and the locals
/// holding `ls`; the names of the locals and the committed state are kept.
pub open spec fn frame_set(before: FuncStack, after: FuncStack, t: Seq<Value>, ls: Seq<Value>) -> bool {
    &&& after.wf()
    &&& after.blocks_view() == before.blocks_view().update(before.blocks_view().len() - 1, t)
    &&& after.locals.current() == ls
    &&& after.locals.current_ids() == before.locals.current_ids()
    &&& after.same_committed(&before)
}

/// The answer "no message, then `c`".
pub open spec fn answers(r: Result<Response, Error>, c: Control) -> bool {
    &&& r matches Ok(resp)
    &&& resp.control == c
    &&& resp.messages() == Seq::<Seq<char>>::empty()
    &&& resp.requires_empty == c.spec_requires_empty()
}

/// The answer for an outcome of an instruction that takes effect at once.
pub open spec fn outcome(r: Result<Response, Error>, res: Result<(), Error>) -> bool {
    match res {
        Ok(_) => answers(r, Control::Proceed),
        Err(e) => r == Err::<Response, Error>(e),
    }
}

/// The instructions the handler takes: structured instructions with their
/// bodies grouped, and no bare `else` or `end`.
pub open spec fn handleable(instr: Instruction) -> bool {
    match instr {
        Instruction::Else | Instruction::End => false,
        Instruction::If(_, t, e) => t is Some && e is Some,
        Instruction::Block(_, b) => b is Some,
        Instruction::Loop(_, b) => b is Some,
        _ => true,
    }
}

/// What handling `instr` does: `before` and `after` are the frame before and
/// after, `r` the answer.
pub open spec fn handled(instr: Instruction, before: FuncStack, after: FuncStack, r: Result<Response, Error>) -> bool {
    let top = before.top();
    let locals = before.locals.current();
    let ids = before.locals.current_ids();
    match instr {
        Instruction::Return => answers(r, Control::Return) && after == before,
        Instruction::Call(index) => answers(r, Control::ExecFunc(index)) && after == before,
        Instruction::Br(index) => answers(r, Control::Branch(index)) && after == before,
        Instruction::Block(bt, Some(body)) => answers(r, Control::ExecBlock(bt, body)) && after == before,
        Instruction::Loop(bt, Some(body)) => answers(r, Control::ExecLoop(bt, body)) && after == before,
        Instruction::If(bt, Some(then_body), Some(else_body)) => {
            let pc = popped_i32(top);
            &&& before.moved_to(after, pc.1)
            &&& match pc.0 {
                Ok(c) => answers(r, Control::ExecBlock(bt, if c > 0 { then_body } else { else_body })),
                Err(e) => r == Err::<Response, Error>(e),
            }
        },
        Instruction::LocalGet(index) => match resolve(ids, index) {
            Some(k) => if 0 <= k < locals.len() {
                answers(r, Control::Proceed) && before.moved_to(after, top.push(locals[k]))
            } else {
                r matches Err(e) && lookup_failure(index, e) && after == before
            },
            None => r matches Err(e) && lookup_failure(index, e) && after == before,
        },
        Instruction::LocalSet(index) => if top.len() == 0 {
            r == Err::<Response, Error>(Error::StackUnderflow) && before.moved_to(after, top)
        } else {
            match slot_for(ids, locals, index, top.last()) {
                Some(k) => answers(r, Control::Proceed) && frame_set(before, after, top.drop_last(), locals.update(k, top.last())),
                None => (r matches Err(e) && store_failure(ids, locals, index, e)) && frame_set(before, after, top.drop_last(), locals),
            }
        },
        Instruction::LocalTee(index) => if top.len() == 0 {
            r == Err::<Response, Error>(Error::StackUnderflow) && after == before
        } else {
            match slot_for(ids, locals, index, top.last()) {
                Some(k) => answers(r, Control::Proceed) && frame_set(before, after, top, locals.update(k, top.last())),
                None => (r matches Err(e) && store_failure(ids, locals, index, e)) && frame_set(before, after, top, locals),
            }
        },
        _ => if is_float_op(instr) {
            &&& float_done(instr, top, r, after.top())
            &&& before.moved_to(after, after.top())
        } else {
            let eff = int_effect(instr, top);
            &&& before.moved_to(after, eff.1)
            &&& outcome(r, eff.0)
        },
    }
}

/// Handling an instruction never touches what a rollback returns to: the
/// frame stays well formed, keeps its committed values and locals, and has as
/// many blocks as before.
pub proof fn law_handle_keeps_committed(instr: Instruction, before: FuncStack, after: FuncStack, r: Result<Response, Error>)
    requires
        before.wf(),
        handleable(instr),
        handled(instr, before, after, r),
    ensures
        after.wf(),
        after.same_committed(&before),
        after.blocks_view().len() == before.blocks_view().len(),
{
    FuncStack::lemma_depth(before);
    FuncStack::lemma_depth(after);
}

/// Takes the top value of the innermost block as an `i32`.
fn pop_i32(stack: &mut FuncStack) -> (r: Result<i32, Error>)
    requires
        old(stack).wf(),
    ensures
        r == popped_i32(old(stack).top()).0,
        old(stack).moved_to(*final(stack), popped_i32(old(stack).top()).1),
        final(stack).top() == popped_i32(old(stack).top()).1,
{
    let ghost s0 = *stack;
    let r = match stack.pop() {
        Ok(v) => match v {
            Value::I32(n) => Ok(n),
            _ => Err(Error::TypeMismatch),
        },
        Err(e) => {
            proof {
                FuncStack::lemma_moved_refl(s0);
            }
            Err(e)
        },
    };
    proof {
        FuncStack::lemma_moved_top(s0, *stack, popped_i32(s0.top()).1);
    }
    r
}

/// Takes the top value of the innermost block as an `i64`.
fn pop_i64(stack: &mut FuncStack) -> (r: Result<i64, Error>)
    requires
        old(stack).wf(),
    ensures
        r == popped_i64(old(stack).top()).0,
        old(stack).moved_to(*final(stack), popped_i64(old(stack).top()).1),
        final(stack).top() == popped_i64(old(stack).top()).1,
{
    let ghost s0 = *stack;
    let r = match stack.pop() {
        Ok(v) => match v {
            Value::I64(n) => Ok(n),
            _ => Err(Error::TypeMismatch),
        },
        Err(e) => {
            proof {
                FuncStack::lemma_moved_refl(s0);
            }
            Err(e)
        },
    };
    proof {
        FuncStack::lemma_moved_top(s0, *stack, popped_i64(s0.top()).1);
    }
    r
}

/// Takes the top value of the innermost block as a `f32`.
fn pop_f32(stack: &mut FuncStack) -> (r: Result<u32, Error>)
    requires
        old(stack).wf(),
    ensures
        r == popped_f32(old(stack).top()).0,
        old(stack).moved_to(*final(stack), popped_f32(old(stack).top()).1),
        final(stack).top() == popped_f32(old(stack).top()).1,
{
    let ghost s0 = *stack;
    let r = match stack.pop() {
        Ok(v) => match v {
            Value::F32(n) => Ok(n),
            _ => Err(Error::TypeMismatch),
        },
        Err(e) => {
            proof {
                FuncStack::lemma_moved_refl(s0);
            }
            Err(e)
        },
    };
    proof {
        FuncStack::lemma_moved_top(s0, *stack, popped_f32(s0.top()).1);
    }
    r
}

/// Takes the top value of the innermost block as a `f64`.
fn pop_f64(stack: &mut FuncStack) -> (r: Result<u64, Error>)
    requires
        old(stack).wf(),
    ensures
        r == popped_f64(old(stack).top()).0,
        old(stack).moved_to(*final(stack), popped_f64(old(stack).top()).1),
        final(stack).top() == popped_f64(old(stack).top()).1,
{
    let ghost s0 = *stack;
    let r = match stack.pop() {
        Ok(v) => match v {
            Value::F64(n) => Ok(n),
            _ => Err(Error::TypeMismatch),
        },
        Err(e) => {
            proof {
                FuncStack::lemma_moved_refl(s0);
            }
            Err(e)
        },
    };
    proof {
        FuncStack::lemma_moved_top(s0, *stack, popped_f64(s0.top()).1);
    }
    r
}

/// Pushes a value on the innermost block.
fn push_value(stack: &mut FuncStack, v: Value)
    requires
        old(stack).wf(),
    ensures
        old(stack).moved_to(*final(stack), old(stack).top().push(v)),
        final(stack).top() == old(stack).top().push(v),
{
    let ghost s0 = *stack;
    let _ = stack.push(v);
    proof {
        FuncStack::lemma_moved_top(s0, *stack, s0.top().push(v));
    }
}

/// What a one-operand `i32` instruction computes.
fn i32_unary_value(instr: &Instruction, a: i32) -> (r: i32)
    requires
        is_i32_unary(*instr),
    ensures
        r == i32_unary(*instr, a),
{
    match instr {
        Instruction::I32Clz => a.clz(),
        Instruction::I32Ctz => a.ctz(),
        Instruction::I32Popcnt => a.popcnt(),
        _ => a.eqz(),
    }
}

/// What a two-operand `i32` instruction computes, or why it fails.
fn i32_binary_value(instr: &Instruction, b: i32, a: i32) -> (r: Result<i32, Error>)
    requires
        is_i32_binary(*instr),
    ensures
        r == i32_binary(*instr, b, a),
{
    match instr {
        Instruction::I32Add => Ok(b.add(a)),
        Instruction::I32Sub => Ok(b.sub(a)),
        Instruction::I32Mul => Ok(b.mul(a)),
        Instruction::I32DivS => b.div_s(a),
        Instruction::I32DivU => b.div_u(a),
        Instruction::I32RemS => b.rem_s(a),
        Instruction::I32RemU => b.rem_u(a),
        Instruction::I32And => Ok(b & a),
        Instruction::I32Or => Ok(b | a),
        Instruction::I32Xor => Ok(b ^ a),
        Instruction::I32Shl => Ok(b.wrapping_shl(a as u32)),
        Instruction::I32ShrS => Ok(b.shr_s(a)),
        Instruction::I32ShrU => Ok(b.shr_u(a)),
        Instruction::I32Rotl => Ok(b.rotl(a)),
        Instruction::I32Rotr => Ok(b.rotr(a)),
        Instruction::I32Eq => Ok(IntOps::eq(b, a)),
        Instruction::I32Ne => Ok(IntOps::ne(b, a)),
        Instruction::I32LtS => Ok(b.lt_s(a)),
        Instruction::I32LtU => Ok(b.lt_u(a)),
        Instruction::I32GtS => Ok(b.gt_s(a)),
        Instruction::I32GtU => Ok(b.gt_u(a)),
        Instruction::I32LeS => Ok(b.le_s(a)),
        Instruction::I32LeU => Ok(b.le_u(a)),
        Instruction::I32GeS => Ok(b.ge_s(a)),
        _ => Ok(b.ge_u(a)),
    }
}

/// Runs a one-operand `i32` instruction.
fn i32_unary_instr(stack: &mut FuncStack, instr: &Instruction) -> (r: Result<Response, Error>)
    requires
        old(stack).wf(),
        is_i32_unary(*instr),
    ensures
        old(stack).moved_to(*final(stack), i32_unary_effect(*instr, old(stack).top()).1),
        outcome(r, i32_unary_effect(*instr, old(stack).top()).0),
{
    let ghost s0 = *stack;
    let a = match pop_i32(stack) {
        Ok(a) => a,
        Err(e) => return Err(e),
    };
    let ghost s1 = *stack;
    let v = i32_unary_value(instr, a);
    push_value(stack, Value::I32(v));
    proof {
        FuncStack::lemma_moved_trans(s0, s1, *stack, popped_i32(s0.top()).1, s1.top().push(Value::I32(v)));
    }
    Ok(Response::new())
}

/// Runs a two-operand `i32` instruction: the operand on top is taken first.
fn i32_binary_instr(stack: &mut FuncStack, instr: &Instruction) -> (r: Result<Response, Error>)
    requires
        old(stack).wf(),
        is_i32_binary(*instr),
    ensures
        old(stack).moved_to(*final(stack), i32_binary_effect(*instr, old(stack).top()).1),
        outcome(r, i32_binary_effect(*instr, old(stack).top()).0),
{
    let ghost s0 = *stack;
    let a = match pop_i32(stack) {
        Ok(a) => a,
        Err(e) => return Err(e),
    };
    let ghost s1 = *stack;
    let b = match pop_i32(stack) {
        Ok(b) => b,
        Err(e) => {
            proof {
                FuncStack::lemma_moved_trans(s0, s1, *stack, popped_i32(s0.top()).1, popped_i32(s1.top()).1);
            }
            return Err(e);
        },
    };
    let ghost s2 = *stack;
    proof {
        FuncStack::lemma_moved_trans(s0, s1, s2, popped_i32(s0.top()).1, popped_i32(s1.top()).1);
    }
    match i32_binary_value(instr, b, a) {
        Ok(v) => {
            push_value(stack, Value::I32(v));
            proof {
                FuncStack::lemma_moved_trans(s0, s2, *stack, popped_i32(s1.top()).1, s2.top().push(Value::I32(v)));
            }
            Ok(Response::new())
        },
        Err(e) => Err(e),
    }
}

/// What a one-operand `i64` instruction computes.
fn i64_unary_value(instr: &Instruction, a: i64) -> (r: i64)
    requires
        is_i64_unary(*instr),
    ensures
        r == i64_unary(*instr, a),
{
    match instr {
        Instruction::I64Clz => a.clz(),
        Instruction::I64Ctz => a.ctz(),
        Instruction::I64Popcnt => a.popcnt(),
        _ => a.eqz(),
    }
}

/// What a two-operand `i64` instruction computes, or why it fails.
fn i64_binary_value(instr: &Instruction, b: i64, a: i64) -> (r: Result<i64, Error>)
    requires
        is_i64_binary(*instr),
    ensures
        r == i64_binary(*instr, b, a),
{
    match instr {
        Instruction::I64Add => Ok(b.add(a)),
        Instruction::I64Sub => Ok(b.sub(a)),
        Instruction::I64Mul => Ok(b.mul(a)),
        Instruction::I64DivS => b.div_s(a),
        Instruction::I64DivU => b.div_u(a),
        Instruction::I64RemS => b.rem_s(a),
        Instruction::I64RemU => b.rem_u(a),
        Instruction::I64And => Ok(b & a),
        Instruction::I64Or => Ok(b | a),
        Instruction::I64Xor => Ok(b ^ a),
        Instruction::I64Shl => Ok(b.wrapping_shl(a as u32)),
        Instruction::I64ShrS => Ok(b.shr_s(a)),
        Instruction::I64ShrU => Ok(b.shr_u(a)),
        Instruction::I64Rotl => Ok(b.rotl(a)),
        Instruction::I64Rotr => Ok(b.rotr(a)),
        Instruction::I64Eq => Ok(IntOps::eq(b, a)),
        Instruction::I64Ne => Ok(IntOps::ne(b, a)),
        Instruction::I64LtS => Ok(b.lt_s(a)),
        Instruction::I64LtU => Ok(b.lt_u(a)),
        Instruction::I64GtS => Ok(b.gt_s(a)),
        Instruction::I64GtU => Ok(b.gt_u(a)),
        Instruction::I64LeS => Ok(b.le_s(a)),
        Instruction::I64LeU => Ok(b.le_u(a)),
        Instruction::I64GeS => Ok(b.ge_s(a)),
        _ => Ok(b.ge_u(a)),
    }
}

/// Runs a one-operand `i64` instruction.
fn i64_unary_instr(stack: &mut FuncStack, instr: &Instruction) -> (r: Result<Response, Error>)
    requires
        old(stack).wf(),
        is_i64_unary(*instr),
    ensures
        old(stack).moved_to(*final(stack), i64_unary_effect(*instr, old(stack).top()).1),
        outcome(r, i64_unary_effect(*instr, old(stack).top()).0),
{
    let ghost s0 = *stack;
    let a = match pop_i64(stack) {
        Ok(a) => a,
        Err(e) => return Err(e),
    };
    let ghost s1 = *stack;
    let v = i64_unary_value(instr, a);
    push_value(stack, Value::I64(v));
    proof {
        FuncStack::lemma_moved_trans(s0, s1, *stack, popped_i64(s0.top()).1, s1.top().push(Value::I64(v)));
    }
    Ok(Response::new())
}

/// Runs a two-operand `i64` instruction: the operand on top is taken first.
fn i64_binary_instr(stack: &mut FuncStack, instr: &Instruction) -> (r: Result<Response, Error>)
    requires
        old(stack).wf(),
        is_i64_binary(*instr),
    ensures
        old(stack).moved_to(*final(stack), i64_binary_effect(*instr, old(stack).top()).1),
        outcome(r, i64_binary_effect(*instr, old(stack).top()).0),
{
    let ghost s0 = *stack;
    let a = match pop_i64(stack) {
        Ok(a) => a,
        Err(e) => return Err(e),
    };
    let ghost s1 = *stack;
    let b = match pop_i64(stack) {
        Ok(b) => b,
        Err(e) => {
            proof {
                FuncStack::lemma_moved_trans(s0, s1, *stack, popped_i64(s0.top()).1, popped_i64(s1.top()).1);
            }
            return Err(e);
        },
    };
    let ghost s2 = *stack;
    proof {
        FuncStack::lemma_moved_trans(s0, s1, s2, popped_i64(s0.top()).1, popped_i64(s1.top()).1);
    }
    match i64_binary_value(instr, b, a) {
        Ok(v) => {
            push_value(stack, Value::I64(v));
            proof {
                FuncStack::lemma_moved_trans(s0, s2, *stack, popped_i64(s1.top()).1, s2.top().push(Value::I64(v)));
            }
            Ok(Response::new())
        },
        Err(e) => Err(e),
    }
}

fn is_i32_unary_op(instr: &Instruction) -> (b: bool)
    ensures
        b == is_i32_unary(*instr),
{
    match instr {
        Instruction::I32Clz | Instruction::I32Ctz | Instruction::I32Popcnt | Instruction::I32Eqz => true,
        _ => false,
    }
}

fn is_i32_binary_op(instr: &Instruction) -> (b: bool)
    ensures
        b == is_i32_binary(*instr),
{
    match instr {
        Instruction::I32Add | Instruction::I32Sub | Instruction::I32Mul | Instruction::I32DivS | Instruction::I32DivU | Instruction::I32RemS | Instruction::I32RemU | Instruction::I32And | Instruction::I32Or | Instruction::I32Xor | Instruction::I32Shl | Instruction::I32ShrS | Instruction::I32ShrU | Instruction::I32Rotl | Instruction::I32Rotr | Instruction::I32Eq | Instruction::I32Ne | Instruction::I32LtS | Instruction::I32LtU | Instruction::I32GtS | Instruction::I32GtU | Instruction::I32LeS | Instruction::I32LeU | Instruction::I32GeS | Instruction::I32GeU => true,
        _ => false,
    }
}

fn is_i64_unary_op(instr: &Instruction) -> (b: bool)
    ensures
        b == is_i64_unary(*instr),
{
    match instr {
        Instruction::I64Clz | Instruction::I64Ctz | Instruction::I64Popcnt | Instruction::I64Eqz => true,
        _ => false,
    }
}

fn is_i64_binary_op(instr: &Instruction) -> (b: bool)
    ensures
        b == is_i64_binary(*instr),
{
    match instr {
        Instruction::I64Add | Instruction::I64Sub | Instruction::I64Mul | Instruction::I64DivS | Instruction::I64DivU | Instruction::I64RemS | Instruction::I64RemU | Instruction::I64And | Instruction::I64Or | Instruction::I64Xor | Instruction::I64Shl | Instruction::I64ShrS | Instruction::I64ShrU | Instruction::I64Rotl | Instruction::I64Rotr | Instruction::I64Eq | Instruction::I64Ne | Instruction::I64LtS | Instruction::I64LtU | Instruction::I64GtS | Instruction::I64GtU | Instruction::I64LeS | Instruction::I64LeU | Instruction::I64GeS | Instruction::I64GeU => true,
        _ => false,
    }
}

fn is_float_instr(instr: &Instruction) -> (b: bool)
    ensures
        b == is_float_op(*instr),
{
    match instr {
        Instruction::F32Abs | Instruction::F32Neg | Instruction::F32Ceil | Instruction::F32Floor | Instruction::F32Trunc | Instruction::F32Nearest | Instruction::F32Sqrt => true,
        Instruction::F32Add | Instruction::F32Sub | Instruction::F32Mul | Instruction::F32Div | Instruction::F32Min | Instruction::F32Max | Instruction::F32Copysign => true,
        Instruction::F32Eq | Instruction::F32Ne | Instruction::F32Lt | Instruction::F32Gt | Instruction::F32Le | Instruction::F32Ge => true,
        Instruction::F64Abs | Instruction::F64Neg | Instruction::F64Ceil | Instruction::F64Floor | Instruction::F64Trunc | Instruction::F64Nearest | Instruction::F64Sqrt => true,
        Instruction::F64Add | Instruction::F64Sub | Instruction::F64Mul | Instruction::F64Div | Instruction::F64Min | Instruction::F64Max | Instruction::F64Copysign => true,
        Instruction::F64Eq | Instruction::F64Ne | Instruction::F64Lt | Instruction::F64Gt | Instruction::F64Le | Instruction::F64Ge => true,
        _ => false,
    }
}

/// Runs an instruction whose effect integer arithmetic fixes.
fn int_instr(stack: &mut FuncStack, instr: &Instruction) -> (r: Result<Response, Error>)
    requires
        old(stack).wf(),
        is_int_effect(*instr),
    ensures
        old(stack).moved_to(*final(stack), int_effect(*instr, old(stack).top()).1),
        outcome(r, int_effect(*instr, old(stack).top()).0),
{
    let ghost s0 = *stack;
    match instr {
        Instruction::Nop => {
            proof {
                FuncStack::lemma_moved_refl(s0);
            }
            Ok(Response::new())
        },
        Instruction::Drop => match stack.pop() {
            Ok(_) => Ok(Response::new()),
            Err(e) => {
                proof {
                    FuncStack::lemma_moved_refl(s0);
                }
                Err(e)
            },
        },
        Instruction::I32Const(n) => {
            push_value(stack, Value::I32(*n));
            Ok(Response::new())
        },
        Instruction::I64Const(n) => {
            push_value(stack, Value::I64(*n));
            Ok(Response::new())
        },
        Instruction::F32Const(n) => {
            push_value(stack, Value::F32(*n));
            Ok(Response::new())
        },
        Instruction::F64Const(n) => {
            push_value(stack, Value::F64(*n));
            Ok(Response::new())
        },
        _ => if is_i32_unary_op(instr) {
            i32_unary_instr(stack, instr)
        } else if is_i32_binary_op(instr) {
            i32_binary_instr(stack, instr)
        } else if is_i64_unary_op(instr) {
            i64_unary_instr(stack, instr)
        } else {
            i64_binary_instr(stack, instr)
        },
    }
}

/// Reads a local and pushes its value.
fn local_get(stack: &mut FuncStack, index: &Index) -> (r: Result<Response, Error>)
    requires
        old(stack).wf(),
    ensures
        handled(Instruction::LocalGet(*index), *old(stack), *final(stack), r),
{
    let v = match stack.locals.get(index) {
        Ok(v) => *v,
        Err(e) => return Err(e),
    };
    push_value(stack, v);
    Ok(Response::new())
}

/// Pops a value and stores it in a local.
fn local_set(stack: &mut FuncStack, index: &Index) -> (r: Result<Response, Error>)
    requires
        old(stack).wf(),
    ensures
        handled(Instruction::LocalSet(*index), *old(stack), *final(stack), r),
{
    let ghost s0 = *stack;
    let v = match stack.pop() {
        Ok(v) => v,
        Err(e) => {
            proof {
                FuncStack::lemma_moved_refl(s0);
            }
            return Err(e);
        },
    };
    let ghost s1 = *stack;
    let r = stack.locals.set(index, v);
    proof {
        FuncStack::lemma_same_blocks(s1, *stack);
    }
    match r {
        Ok(()) => Ok(Response::new()),
        Err(e) => Err(e),
    }
}

/// Stores the top value in a local and leaves it on the stack.
fn local_tee(stack: &mut FuncStack, index: &Index) -> (r: Result<Response, Error>)
    requires
        old(stack).wf(),
    ensures
        handled(Instruction::LocalTee(*index), *old(stack), *final(stack), r),
{
    let ghost s0 = *stack;
    let v = match stack.peek() {
        Ok(v) => v,
        Err(e) => return Err(e),
    };
    proof {
        FuncStack::lemma_moved_refl(s0);
    }
    let ghost s1 = *stack;
    let r = stack.locals.set(index, v);
    proof {
        FuncStack::lemma_same_blocks(s1, *stack);
    }
    match r {
        Ok(()) => Ok(Response::new()),
        Err(e) => Err(e),
    }
}

/// Pops the condition and picks the body to run: the first when the
/// condition is positive, the second otherwise.
fn if_instr(stack: &mut FuncStack, bt: BlockType, then_body: Option<Expression>, else_body: Option<Expression>) -> (r: Result<Response, Error>)
    requires
        old(stack).wf(),
        then_body is Some,
        else_body is Some,
    ensures
        handled(Instruction::If(bt, then_body, else_body), *old(stack), *final(stack), r),
{
    let c = match pop_i32(stack) {
        Ok(c) => c,
        Err(e) => return Err(e),
    };
    let body = if c > 0 { then_body } else { else_body };
    match body {
        Some(b) => Ok(Response::new_ctrl(Control::ExecBlock(bt, b))),
        None => Err(Error::MissingBody),
    }
}

/// Whether a float instruction works on `f32` values.
fn is_f32_instr(instr: &Instruction) -> (b: bool)
    ensures
        b == (is_f32_unary(*instr) || is_f32_binary(*instr) || is_f32_relation(*instr)),
{
    match instr {
        Instruction::F32Abs | Instruction::F32Neg | Instruction::F32Ceil | Instruction::F32Floor | Instruction::F32Trunc
            | Instruction::F32Nearest | Instruction::F32Sqrt | Instruction::F32Add | Instruction::F32Sub | Instruction::F32Mul
            | Instruction::F32Div | Instruction::F32Min | Instruction::F32Max | Instruction::F32Copysign | Instruction::F32Eq
            | Instruction::F32Ne | Instruction::F32Lt | Instruction::F32Gt | Instruction::F32Le | Instruction::F32Ge => true,
        _ => false,
    }
}

/// Runs single instructions on a frame, with the float arithmetic it was
/// given.
pub struct Handler<'a, F: FloatOps> {
    floats: &'a F,
}

impl<'a, F: FloatOps> Handler<'a, F> {
    /// The float arithmetic the handler computes floats with.
    pub closed spec fn arithmetic(&self) -> &'a F {
        self.floats
    }

    /// A handler that computes floats with `floats`.
    pub fn new(floats: &'a F) -> (h: Handler<'a, F>)
        ensures
            h.arithmetic() == floats,
    {
        Handler { floats }
    }

    fn f32_unary_instr(&self, stack: &mut FuncStack, op: FloatUnOp) -> (r: Result<Response, Error>)
        requires
            old(stack).wf(),
        ensures
            old(stack).moved_to(*final(stack), final(stack).top()),
            ({
                let pa = popped_f32(old(stack).top());
                match pa.0 {
                    Err(e) => r == Err::<Response, Error>(e) && final(stack).top() == pa.1,
                    Ok(a) => {
                        &&& answers(r, Control::Proceed)
                        &&& r->Ok_0.float_call@ matches Some(call)
                        &&& call.request == FloatRequest::F32Unary(op, a)
                        &&& call.answer matches FloatAnswer::Bits32(v)
                        &&& final(stack).top() == pa.1.push(Value::F32(v))
                    },
                }
            }),
    {
        let ghost s0 = *stack;
        let a = match pop_f32(stack) {
            Ok(a) => a,
            Err(e) => return Err(e),
        };
        let ghost s1 = *stack;
        let (v, Ghost(call)) = ask_f32_unary(self.floats, op, a);
        push_value(stack, Value::F32(v));
        proof {
            FuncStack::lemma_moved_trans(s0, s1, *stack, popped_f32(s0.top()).1, s1.top().push(Value::F32(v)));
        }
        let mut resp = Response::new();
        resp.float_call = Ghost(Some(call));
        Ok(resp)
    }

    fn f32_binary_instr(&self, stack: &mut FuncStack, op: FloatBinOp) -> (r: Result<Response, Error>)
        requires
            old(stack).wf(),
        ensures
            old(stack).moved_to(*final(stack), final(stack).top()),
            ({
                let pa = popped_f32(old(stack).top());
                let pb = popped_f32(pa.1);
                match pa.0 {
                    Err(e) => r == Err::<Response, Error>(e) && final(stack).top() == pa.1,
                    Ok(a) => match pb.0 {
                        Err(e) => r == Err::<Response, Error>(e) && final(stack).top() == pb.1,
                        Ok(b) => {
                            &&& answers(r, Control::Proceed)
                            &&& r->Ok_0.float_call@ matches Some(call)
                            &&& call.request == FloatRequest::F32Binary(op, b, a)
                            &&& call.answer matches FloatAnswer::Bits32(v)
                            &&& final(stack).top() == pb.1.push(Value::F32(v))
                        },
                    },
                }
            }),
    {
        let ghost s0 = *stack;
        let a = match pop_f32(stack) {
            Ok(a) => a,
            Err(e) => return Err(e),
        };
        let ghost s1 = *stack;
        let b = match pop_f32(stack) {
            Ok(b) => b,
            Err(e) => {
                proof {
                    FuncStack::lemma_moved_trans(s0, s1, *stack, popped_f32(s0.top()).1, popped_f32(s1.top()).1);
                }
                return Err(e);
            },
        };
        let ghost s2 = *stack;
        proof {
            FuncStack::lemma_moved_trans(s0, s1, s2, popped_f32(s0.top()).1, popped_f32(s1.top()).1);
        }
        let (v, Ghost(call)) = ask_f32_binary(self.floats, op, b, a);
        push_value(stack, Value::F32(v));
        proof {
            FuncStack::lemma_moved_trans(s0, s2, *stack, popped_f32(s1.top()).1, s2.top().push(Value::F32(v)));
        }
        let mut resp = Response::new();
        resp.float_call = Ghost(Some(call));
        Ok(resp)
    }

    fn f32_relation_instr(&self, stack: &mut FuncStack, op: FloatRelOp) -> (r: Result<Response, Error>)
        requires
            old(stack).wf(),
        ensures
            old(stack).moved_to(*final(stack), final(stack).top()),
            ({
                let pa = popped_f32(old(stack).top());
                let pb = popped_f32(pa.1);
                match pa.0 {
                    Err(e) => r == Err::<Response, Error>(e) && final(stack).top() == pa.1,
                    Ok(a) => match pb.0 {
                        Err(e) => r == Err::<Response, Error>(e) && final(stack).top() == pb.1,
                        Ok(b) => {
                            &&& answers(r, Control::Proceed)
                            &&& r->Ok_0.float_call@ matches Some(call)
                            &&& call.request == FloatRequest::F32Relation(op, b, a)
                            &&& call.answer matches FloatAnswer::Holds(h)
                            &&& final(stack).top() == pb.1.push(Value::F32(if h { F32_ONE } else { 0 }))
                        },
                    },
                }
            }),
    {
        let ghost s0 = *stack;
        let a = match pop_f32(stack) {
            Ok(a) => a,
            Err(e) => return Err(e),
        };
        let ghost s1 = *stack;
        let b = match pop_f32(stack) {
            Ok(b) => b,
            Err(e) => {
                proof {
                    FuncStack::lemma_moved_trans(s0, s1, *stack, popped_f32(s0.top()).1, popped_f32(s1.top()).1);
                }
                return Err(e);
            },
        };
        let ghost s2 = *stack;
        proof {
            FuncStack::lemma_moved_trans(s0, s1, s2, popped_f32(s0.top()).1, popped_f32(s1.top()).1);
        }
        let (holds, Ghost(call)) = ask_f32_relation(self.floats, op, b, a);
        let v: u32 = if holds { F32_ONE } else { 0 };
        push_value(stack, Value::F32(v));
        proof {
            FuncStack::lemma_moved_trans(s0, s2, *stack, popped_f32(s1.top()).1, s2.top().push(Value::F32(v)));
        }
        let mut resp = Response::new();
        resp.float_call = Ghost(Some(call));
        Ok(resp)
    }

    fn f64_unary_instr(&self, stack: &mut FuncStack, op: FloatUnOp) -> (r: Result<Response, Error>)
        requires
            old(stack).wf(),
        ensures
            old(stack).moved_to(*final(stack), final(stack).top()),
            ({
                let pa = popped_f64(old(stack).top());
                match pa.0 {
                    Err(e) => r == Err::<Response, Error>(e) && final(stack).top() == pa.1,
                    Ok(a) => {
                        &&& answers(r, Control::Proceed)
                        &&& r->Ok_0.float_call@ matches Some(call)
                        &&& call.request == FloatRequest::F64Unary(op, a)
                        &&& call.answer matches FloatAnswer::Bits64(v)
                        &&& final(stack).top() == pa.1.push(Value::F64(v))
                    },
                }
            }),
    {
        let ghost s0 = *stack;
        let a = match pop_f64(stack) {
            Ok(a) => a,
            Err(e) => return Err(e),
        };
        let ghost s1 = *stack;
        let (v, Ghost(call)) = ask_f64_unary(self.floats, op, a);
        push_value(stack, Value::F64(v));
        proof {
            FuncStack::lemma_moved_trans(s0, s1, *stack, popped_f64(s0.top()).1, s1.top().push(Value::F64(v)));
        }
        let mut resp = Response::new();
        resp.float_call = Ghost(Some(call));
        Ok(resp)
    }

    fn f64_binary_instr(&self, stack: &mut FuncStack, op: FloatBinOp) -> (r: Result<Response, Error>)
        requires
            old(stack).wf(),
        ensures
            old(stack).moved_to(*final(stack), final(stack).top()),
            ({
                let pa = popped_f64(old(stack).top());
                let pb = popped_f64(pa.1);
                match pa.0 {
                    Err(e) => r == Err::<Response, Error>(e) && final(stack).top() == pa.1,
                    Ok(a) => match pb.0 {
                        Err(e) => r == Err::<Response, Error>(e) && final(stack).top() == pb.1,
                        Ok(b) => {
                            &&& answers(r, Control::Proceed)
                            &&& r->Ok_0.float_call@ matches Some(call)
                            &&& call.request == FloatRequest::F64Binary(op, b, a)
                            &&& call.answer matches FloatAnswer::Bits64(v)
                            &&& final(stack).top() == pb.1.push(Value::F64(v))
                        },
                    },
                }
            }),
    {
        let ghost s0 = *stack;
        let a = match pop_f64(stack) {
            Ok(a) => a,
            Err(e) => return Err(e),
        };
        let ghost s1 = *stack;
        let b = match pop_f64(stack) {
            Ok(b) => b,
            Err(e) => {
                proof {
                    FuncStack::lemma_moved_trans(s0, s1, *stack, popped_f64(s0.top()).1, popped_f64(s1.top()).1);
                }
                return Err(e);
            },
        };
        let ghost s2 = *stack;
        proof {
            FuncStack::lemma_moved_trans(s0, s1, s2, popped_f64(s0.top()).1, popped_f64(s1.top()).1);
        }
        let (v, Ghost(call)) = ask_f64_binary(self.floats, op, b, a);
        push_value(stack, Value::F64(v));
        proof {
            FuncStack::lemma_moved_trans(s0, s2, *stack, popped_f64(s1.top()).1, s2.top().push(Value::F64(v)));
        }
        let mut resp = Response::new();
        resp.float_call = Ghost(Some(call));
        Ok(resp)
    }

    fn f64_relation_instr(&self, stack: &mut FuncStack, op: FloatRelOp) -> (r: Result<Response, Error>)
        requires
            old(stack).wf(),
        ensures
            old(stack).moved_to(*final(stack), final(stack).top()),
            ({
                let pa = popped_f64(old(stack).top());
                let pb = popped_f64(pa.1);
                match pa.0 {
                    Err(e) => r == Err::<Response, Error>(e) && final(stack).top() == pa.1,
                    Ok(a) => match pb.0 {
                        Err(e) => r == Err::<Response, Error>(e) && final(stack).top() == pb.1,
                        Ok(b) => {
                            &&& answers(r, Control::Proceed)
                            &&& r->Ok_0.float_call@ matches Some(call)
                            &&& call.request == FloatRequest::F64Relation(op, b, a)
                            &&& call.answer matches FloatAnswer::Holds(h)
                            &&& final(stack).top() == pb.1.push(Value::F64(if h { F64_ONE } else { 0 }))
                        },
                    },
                }
            }),
    {
        let ghost s0 = *stack;
        let a = match pop_f64(stack) {
            Ok(a) => a,
            Err(e) => return Err(e),
        };
        let ghost s1 = *stack;
        let b = match pop_f64(stack) {
            Ok(b) => b,
            Err(e) => {
                proof {
                    FuncStack::lemma_moved_trans(s0, s1, *stack, popped_f64(s0.top()).1, popped_f64(s1.top()).1);
                }
                return Err(e);
            },
        };
        let ghost s2 = *stack;
        proof {
            FuncStack::lemma_moved_trans(s0, s1, s2, popped_f64(s0.top()).1, popped_f64(s1.top()).1);
        }
        let (holds, Ghost(call)) = ask_f64_relation(self.floats, op, b, a);
        let v: u64 = if holds { F64_ONE } else { 0 };
        push_value(stack, Value::F64(v));
        proof {
            FuncStack::lemma_moved_trans(s0, s2, *stack, popped_f64(s1.top()).1, s2.top().push(Value::F64(v)));
        }
        let mut resp = Response::new();
        resp.float_call = Ghost(Some(call));
        Ok(resp)
    }

    /// Runs an `f32` instruction.
    fn f32_instr(&self, stack: &mut FuncStack, instr: &Instruction) -> (r: Result<Response, Error>)
        requires
            old(stack).wf(),
            is_f32_unary(*instr) || is_f32_binary(*instr) || is_f32_relation(*instr),
        ensures
            float_done(*instr, old(stack).top(), r, final(stack).top()),
            old(stack).moved_to(*final(stack), final(stack).top()),
    {
        match instr {
            Instruction::F32Abs => self.f32_unary_instr(stack, FloatUnOp::Abs),
            Instruction::F32Neg => self.f32_unary_instr(stack, FloatUnOp::Neg),
            Instruction::F32Ceil => self.f32_unary_instr(stack, FloatUnOp::Ceil),
            Instruction::F32Floor => self.f32_unary_instr(stack, FloatUnOp::Floor),
            Instruction::F32Trunc => self.f32_unary_instr(stack, FloatUnOp::Trunc),
            Instruction::F32Nearest => self.f32_unary_instr(stack, FloatUnOp::Nearest),
            Instruction::F32Sqrt => self.f32_unary_instr(stack, FloatUnOp::Sqrt),
            Instruction::F32Add => self.f32_binary_instr(stack, FloatBinOp::Add),
            Instruction::F32Sub => self.f32_binary_instr(stack, FloatBinOp::Sub),
            Instruction::F32Mul => self.f32_binary_instr(stack, FloatBinOp::Mul),
            Instruction::F32Div => self.f32_binary_instr(stack, FloatBinOp::Div),
            Instruction::F32Min => self.f32_binary_instr(stack, FloatBinOp::Min),
            Instruction::F32Max => self.f32_binary_instr(stack, FloatBinOp::Max),
            Instruction::F32Copysign => self.f32_binary_instr(stack, FloatBinOp::Copysign),
            Instruction::F32Eq => self.f32_relation_instr(stack, FloatRelOp::Eq),
            Instruction::F32Ne => self.f32_relation_instr(stack, FloatRelOp::Ne),
            Instruction::F32Lt => self.f32_relation_instr(stack, FloatRelOp::Lt),
            Instruction::F32Gt => self.f32_relation_instr(stack, FloatRelOp::Gt),
            Instruction::F32Le => self.f32_relation_instr(stack, FloatRelOp::Le),
            _ => self.f32_relation_instr(stack, FloatRelOp::Ge),
        }
    }

    /// Runs an `f64` instruction.
    fn f64_instr(&self, stack: &mut FuncStack, instr: &Instruction) -> (r: Result<Response, Error>)
        requires
            old(stack).wf(),
            is_f64_unary(*instr) || is_f64_binary(*instr) || is_f64_relation(*instr),
        ensures
            float_done(*instr, old(stack).top(), r, final(stack).top()),
            old(stack).moved_to(*final(stack), final(stack).top()),
    {
        match instr {
            Instruction::F64Abs => self.f64_unary_instr(stack, FloatUnOp::Abs),
            Instruction::F64Neg => self.f64_unary_instr(stack, FloatUnOp::Neg),
            Instruction::F64Ceil => self.f64_unary_instr(stack, FloatUnOp::Ceil),
            Instruction::F64Floor => self.f64_unary_instr(stack, FloatUnOp::Floor),
            Instruction::F64Trunc => self.f64_unary_instr(stack, FloatUnOp::Trunc),
            Instruction::F64Nearest => self.f64_unary_instr(stack, FloatUnOp::Nearest),
            Instruction::F64Sqrt => self.f64_unary_instr(stack, FloatUnOp::Sqrt),
            Instruction::F64Add => self.f64_binary_instr(stack, FloatBinOp::Add),
            Instruction::F64Sub => self.f64_binary_instr(stack, FloatBinOp::Sub),
            Instruction::F64Mul => self.f64_binary_instr(stack, FloatBinOp::Mul),
            Instruction::F64Div => self.f64_binary_instr(stack, FloatBinOp::Div),
            Instruction::F64Min => self.f64_binary_instr(stack, FloatBinOp::Min),
            Instruction::F64Max => self.f64_binary_instr(stack, FloatBinOp::Max),
            Instruction::F64Copysign => self.f64_binary_instr(stack, FloatBinOp::Copysign),
            Instruction::F64Eq => self.f64_relation_instr(stack, FloatRelOp::Eq),
            Instruction::F64Ne => self.f64_relation_instr(stack, FloatRelOp::Ne),
            Instruction::F64Lt => self.f64_relation_instr(stack, FloatRelOp::Lt),
            Instruction::F64Gt => self.f64_relation_instr(stack, FloatRelOp::Gt),
            Instruction::F64Le => self.f64_relation_instr(stack, FloatRelOp::Le),
            _ => self.f64_relation_instr(stack, FloatRelOp::Ge),
        }
    }

    /// Runs a float instruction.
    fn float_instr(&self, stack: &mut FuncStack, instr: &Instruction) -> (r: Result<Response, Error>)
        requires
            old(stack).wf(),
            is_float_op(*instr),
        ensures
            float_done(*instr, old(stack).top(), r, final(stack).top()),
            old(stack).moved_to(*final(stack), final(stack).top()),
    {
        if is_f32_instr(instr) {
            self.f32_instr(stack, instr)
        } else {
            self.f64_instr(stack, instr)
        }
    }

    /// Runs one instruction on the frame `stack`. Value-stack and local
    /// instructions take effect at once and answer "go on"; `call`, `br`,
    /// `return`, `block`, `loop` and `if` answer with the control transfer the
    /// executor carries out (`if` pops its condition first).
    pub fn handle(&self, stack: &mut FuncStack, instr: Instruction) -> (r: Result<Response, Error>)
        requires
            old(stack).wf(),
            handleable(instr),
        ensures
            handled(instr, *old(stack), *final(stack), r),
    {
        match instr {
            Instruction::Return => Ok(Response::new_ctrl(Control::Return)),
            Instruction::Call(index) => Ok(Response::new_ctrl(Control::ExecFunc(index))),
            Instruction::Br(index) => Ok(Response::new_ctrl(Control::Branch(index))),
            Instruction::Block(bt, body) => match body {
                Some(b) => Ok(Response::new_ctrl(Control::ExecBlock(bt, b))),
                None => Err(Error::MissingBody),
            },
            Instruction::Loop(bt, body) => match body {
                Some(b) => Ok(Response::new_ctrl(Control::ExecLoop(bt, b))),
                None => Err(Error::MissingBody),
            },
            Instruction::If(bt, then_body, else_body) => if_instr(stack, bt, then_body, else_body),
            Instruction::LocalGet(index) => local_get(stack, &index),
            Instruction::LocalSet(index) => local_set(stack, &index),
            Instruction::LocalTee(index) => local_tee(stack, &index),
            Instruction::Else => Err(Error::MissingBody),
            Instruction::End => Err(Error::MissingBody),
            other => if is_float_instr(&other) {
                self.float_instr(stack, &other)
            } else {
                int_instr(stack, &other)
            },
        }
    }
}

/// Whether the `f32` instruction `instr`, on `top` holding `b` and then `a`
/// on top, asks for a comparison of `b` with `a` that holds when they compare
/// as `o`.
pub open spec fn asks_f32_holding(instr: Instruction, top: Seq<Value>, b: u32, a: u32, o: FloatOrder) -> bool {
    float_taken(instr, top).0 matches Ok(FloatRequest::F32Relation(op, x, y)) && x == b && y == a && relation_holds(op, o)
}

/// Whether the `f64` instruction `instr`, on `top` holding `b` and then `a`
/// on top, asks for a comparison of `b` with `a` that holds when they compare
/// as `o`.
pub open spec fn asks_f64_holding(instr: Instruction, top: Seq<Value>, b: u64, a: u64, o: FloatOrder) -> bool {
    float_taken(instr, top).0 matches Ok(FloatRequest::F64Relation(op, x, y)) && x == b && y == a && relation_holds(op, o)
}

/// A `f32` comparison asks the float arithmetic for the comparison it names,
/// of the value below the top (`b`) with the top one (`a`): whatever way
/// the two compare, what is asked holds exactly when `eq` finds them equal,
/// `ne` not equal, `lt` finds `b` below `a`, `gt` above, `le` below or
/// equal, `ge` above or equal.
pub proof fn law_f32_comparison_asks_what_it_names(top: Seq<Value>, b: u32, a: u32, o: FloatOrder)
    requires
        top.len() >= 2,
        top.last() == Value::F32(a),
        top[top.len() - 2] == Value::F32(b),
    ensures
        asks_f32_holding(Instruction::F32Eq, top, b, a, o) == (o is Same),
        asks_f32_holding(Instruction::F32Ne, top, b, a, o) == !(o is Same),
        asks_f32_holding(Instruction::F32Lt, top, b, a, o) == (o is Below),
        asks_f32_holding(Instruction::F32Gt, top, b, a, o) == (o is Above),
        asks_f32_holding(Instruction::F32Le, top, b, a, o) == (o is Below || o is Same),
        asks_f32_holding(Instruction::F32Ge, top, b, a, o) == (o is Above || o is Same),
{
    assert(top.drop_last().last() == top[top.len() - 2]);
}

/// A `f64` comparison asks the float arithmetic for the comparison it names,
/// of the value below the top (`b`) with the top one (`a`), as for `f32`.
pub proof fn law_f64_comparison_asks_what_it_names(top: Seq<Value>, b: u64, a: u64, o: FloatOrder)
    requires
        top.len() >= 2,
        top.last() == Value::F64(a),
        top[top.len() - 2] == Value::F64(b),
    ensures
        asks_f64_holding(Instruction::F64Eq, top, b, a, o) == (o is Same),
        asks_f64_holding(Instruction::F64Ne, top, b, a, o) == !(o is Same),
        asks_f64_holding(Instruction::F64Lt, top, b, a, o) == (o is Below),
        asks_f64_holding(Instruction::F64Gt, top, b, a, o) == (o is Above),
        asks_f64_holding(Instruction::F64Le, top, b, a, o) == (o is Below || o is Same),
        asks_f64_holding(Instruction::F64Ge, top, b, a, o) == (o is Above || o is Same),
{
    assert(top.drop_last().last() == top[top.len() - 2]);
}

} // verus!
