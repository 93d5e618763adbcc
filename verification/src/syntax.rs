//! What the text format writes, held as plain values, and the checks that
//! turn it into the engine's model: the forms the engine has no place for
//! are refused here.
use vstd::prelude::*;
use crate::error::Error;
use crate::model::{Func, FuncType, Instruction, LineExpression, Local, ValType};

verus! {

/// A value type as written.
#[derive(Debug, Clone, Copy, PartialEq, Eq)]
pub enum SyntaxValType {
    I32,
    I64,
    F32,
    F64,
    /// Any other value type (vectors, references).
    Other,
}

/// The engine's value type for a written one, if it has one.
pub open spec fn val_type_spec(t: SyntaxValType) -> Option<ValType> {
    match t {
        SyntaxValType::I32 => Some(ValType::I32),
        SyntaxValType::I64 => Some(ValType::I64),
        SyntaxValType::F32 => Some(ValType::F32),
        SyntaxValType::F64 => Some(ValType::F64),
        SyntaxValType::Other => None,
    }
}

/// The engine's value type for a written one; any other fails.
pub fn val_type_of(t: SyntaxValType) -> (r: Result<ValType, Error>)
    ensures
        match val_type_spec(t) {
            Some(v) => r == Ok::<ValType, Error>(v),
            None => r == Err::<ValType, Error>(Error::UnsupportedValueType),
        },
{
    match t {
        SyntaxValType::I32 => Ok(ValType::I32),
        SyntaxValType::I64 => Ok(ValType::I64),
        SyntaxValType::F32 => Ok(ValType::F32),
        SyntaxValType::F64 => Ok(ValType::F64),
        SyntaxValType::Other => Err(Error::UnsupportedValueType),
    }
}

/// A parameter, local or result of a type the engine supports.
pub open spec fn supported(t: SyntaxValType) -> bool {
    val_type_spec(t) is Some
}

/// A parameter or local as written: its optional name and its value type.
pub struct SyntaxLocal {
    pub id: Option<String>,
    pub val_type: SyntaxValType,
}

/// The local the engine holds for a written one, or why there is none.
pub fn local_of(l: SyntaxLocal) -> (r: Result<Local, Error>)
    ensures
        match val_type_spec(l.val_type) {
            Some(v) => r == Ok::<Local, Error>((Local { id: l.id, val_type: v })),
            None => r == Err::<Local, Error>(Error::UnsupportedValueType),
        },
{
    match val_type_of(l.val_type) {
        Ok(v) => Ok(Local { id: l.id, val_type: v }),
        Err(e) => Err(e),
    }
}

/// The locals the engine holds for written ones, in order; the first one of
/// an unsupported type fails.
pub fn locals_of(ls: Vec<SyntaxLocal>) -> (r: Result<Vec<Local>, Error>)
    ensures
        (forall|i: int| 0 <= i < ls@.len() ==> #[trigger] supported(ls@[i].val_type)) ==> (r matches Ok(v)
            && v@.len() == ls@.len()
            && forall|i: int| 0 <= i < ls@.len() ==> #[trigger] v@[i] == (Local { id: ls@[i].id, val_type: val_type_spec(ls@[i].val_type)->0 })),
        !(forall|i: int| 0 <= i < ls@.len() ==> #[trigger] supported(ls@[i].val_type)) ==> r == Err::<Vec<Local>, Error>(Error::UnsupportedValueType),
{
    let ghost src = ls@;
    proof {
        assert(src == ls@);
        assert(src.subrange(0, src.len() as int) =~= src);
    }
    let mut out: Vec<Local> = Vec::new();
    let n = ls.len();
    let mut src_vec = ls;
    let mut rest: Vec<SyntaxLocal> = Vec::new();
    while src_vec.len() > 0
        invariant
            n == src.len(),
            src_vec@ == src.subrange(0, n - rest@.len()),
            rest@.len() <= n,
            forall|k: int| 0 <= k < rest@.len() ==> #[trigger] rest@[k] == src[n - 1 - k],
        decreases src_vec@.len(),
    {
        let x = src_vec.pop().unwrap();
        rest.push(x);
    }
    let mut i: usize = 0;
    while rest.len() > 0
        invariant
            n == src.len(),
            src == ls@,
            i == n - rest@.len(),
            rest@.len() <= n,
            forall|k: int| 0 <= k < rest@.len() ==> #[trigger] rest@[k] == src[n - 1 - k],
            out@.len() == i,
            forall|k: int| 0 <= k < i ==> #[trigger] supported(src[k].val_type),
            forall|k: int| 0 <= k < i ==> #[trigger] out@[k] == (Local { id: src[k].id, val_type: val_type_spec(src[k].val_type)->0 }),
        decreases rest@.len(),
    {
        let l = rest.pop().unwrap();
        proof {
            assert(l == src[i as int]);
        }
        match local_of(l) {
            Ok(v) => out.push(v),
            Err(e) => {
                proof {
                    assert(!supported(src[i as int].val_type));
                    assert(!(forall|j: int| 0 <= j < src.len() ==> #[trigger] supported(src[j].val_type)));
                }
                return Err(e);
            },
        }
        i = i + 1;
    }
    Ok(out)
}

/// A function type as written: whether it refers to a type definition, its
/// parameters and its results.
pub struct SyntaxFuncType {
    pub by_index: bool,
    pub params: Vec<SyntaxLocal>,
    pub results: Vec<SyntaxValType>,
}

/// The engine's function type for a written one: a reference to a type
/// definition fails; so does a parameter or result of an unsupported type.
pub fn func_type_of(t: SyntaxFuncType) -> (r: Result<FuncType, Error>)
    ensures
        t.by_index ==> r == Err::<FuncType, Error>(Error::UnsupportedTypeIndex),
        !t.by_index && !((forall|i: int| 0 <= i < t.params@.len() ==> #[trigger] supported(t.params@[i].val_type))
            && (forall|i: int| 0 <= i < t.results@.len() ==> #[trigger] supported(t.results@[i])))
            ==> r == Err::<FuncType, Error>(Error::UnsupportedValueType),
        !t.by_index && (forall|i: int| 0 <= i < t.params@.len() ==> #[trigger] supported(t.params@[i].val_type))
            && (forall|i: int| 0 <= i < t.results@.len() ==> #[trigger] supported(t.results@[i]))
            ==> (r matches Ok(ft)
                && ft.params@.len() == t.params@.len()
                && (forall|i: int| 0 <= i < t.params@.len() ==> #[trigger] ft.params@[i]
                    == (Local { id: t.params@[i].id, val_type: val_type_spec(t.params@[i].val_type)->0 }))
                && ft.results@.len() == t.results@.len()
                && (forall|i: int| 0 <= i < t.results@.len() ==> #[trigger] ft.results@[i] == val_type_spec(t.results@[i])->0)),
{
    let by_index = t.by_index;
    let ghost t0 = t;
    let SyntaxFuncType { by_index: _, params: written, results: written_results } = t;
    proof {
        assert(by_index == t0.by_index);
        assert(written_results@ == t0.results@);
    }
    if by_index {
        return Err(Error::UnsupportedTypeIndex);
    }
    let mut results: Vec<ValType> = Vec::new();
    let mut i: usize = 0;
    while i < written_results.len()
        invariant
            written_results@ == t0.results@,
            !t0.by_index,
            t0 == t,
            i <= written_results@.len(),
            results@.len() == i,
            forall|k: int| 0 <= k < i ==> #[trigger] supported(written_results@[k]),
            forall|k: int| 0 <= k < i ==> #[trigger] results@[k] == val_type_spec(written_results@[k])->0,
        decreases written_results@.len() - i,
    {
        match val_type_of(written_results[i]) {
            Ok(v) => results.push(v),
            Err(e) => {
                proof {
                    assert(!supported(written_results@[i as int]));
                }
                let params_checked = locals_of(written);
                return match params_checked {
                    Err(e2) => Err(e2),
                    Ok(_) => Err(e),
                };
            },
        }
        i = i + 1;
    }
    let params = match locals_of(written) {
        Ok(p) => p,
        Err(e) => return Err(e),
    };
    Ok(FuncType { params, results })
}

/// A function as written: its optional name, its type (or why that failed),
/// whether it is exported, and its body: the locals and instructions it
/// defines in place (or why they failed), or nothing for an imported one.
/// A failed type decides first, then an export, then an import, then a
/// failed body.
pub fn func_of(id: Option<String>, ty: Result<FuncType, Error>, exported: bool, body: Option<Result<LineExpression, Error>>) -> (r: Result<Func, Error>)
    ensures
        match (ty, exported, body) {
            (Err(e), _, _) => r == Err::<Func, Error>(e),
            (Ok(_), true, _) => r == Err::<Func, Error>(Error::UnsupportedExport),
            (Ok(_), false, None) => r == Err::<Func, Error>(Error::UnsupportedFunctionKind),
            (Ok(_), false, Some(Err(e))) => r == Err::<Func, Error>(e),
            (Ok(t), false, Some(Ok(le))) => r == Ok::<Func, Error>((Func { id, ty: t, line_expression: le })),
        },
{
    let ty = match ty {
        Ok(t) => t,
        Err(e) => return Err(e),
    };
    if exported {
        return Err(Error::UnsupportedExport);
    }
    match body {
        None => Err(Error::UnsupportedFunctionKind),
        Some(Err(e)) => Err(e),
        Some(Ok(le)) => Ok(Func { id, ty, line_expression: le }),
    }
}


/// An instruction as written: one the engine runs, or any other.
pub enum SyntaxInstruction {
    Known(Instruction),
    Other,
}

/// The engine's instruction for a written one; any other fails.
pub fn instruction_of(i: SyntaxInstruction) -> (r: Result<Instruction, Error>)
    ensures
        match i {
            SyntaxInstruction::Known(x) => r == Ok::<Instruction, Error>(x),
            SyntaxInstruction::Other => r == Err::<Instruction, Error>(Error::UnsupportedInstruction),
        },
{
    match i {
        SyntaxInstruction::Known(x) => Ok(x),
        SyntaxInstruction::Other => Err(Error::UnsupportedInstruction),
    }
}

} // verus!
