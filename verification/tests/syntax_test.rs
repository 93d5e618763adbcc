use wasmrepl::error::Error;
use wasmrepl::model::{Expression, Func, FuncType, Instruction, LineExpression, Local, ValType};
use wasmrepl::syntax::{func_of, func_type_of, instruction_of, locals_of, val_type_of, SyntaxFuncType, SyntaxInstruction, SyntaxLocal, SyntaxValType};

fn written(id: &str, t: SyntaxValType) -> SyntaxLocal {
    SyntaxLocal { id: Some(String::from(id)), val_type: t }
}

fn body() -> LineExpression {
    LineExpression { locals: vec![], expr: Expression { instrs: vec![Instruction::Nop] } }
}

#[test]
fn syntax_value_types() {
    assert_eq!(val_type_of(SyntaxValType::I32), Ok(ValType::I32));
    assert_eq!(val_type_of(SyntaxValType::F64), Ok(ValType::F64));
    assert_eq!(val_type_of(SyntaxValType::Other), Err(Error::UnsupportedValueType));
}

#[test]
fn syntax_locals_keep_order() {
    let ls = locals_of(vec![written("a", SyntaxValType::I64), written("b", SyntaxValType::F32)]).unwrap();
    assert_eq!(ls, vec![
        Local { id: Some(String::from("a")), val_type: ValType::I64 },
        Local { id: Some(String::from("b")), val_type: ValType::F32 },
    ]);
    assert_eq!(locals_of(vec![written("a", SyntaxValType::I32), written("v", SyntaxValType::Other)]), Err(Error::UnsupportedValueType));
}

#[test]
fn syntax_func_types() {
    let ok = func_type_of(SyntaxFuncType {
        by_index: false,
        params: vec![written("x", SyntaxValType::I32)],
        results: vec![SyntaxValType::I64],
    }).unwrap();
    assert_eq!(ok.params, vec![Local { id: Some(String::from("x")), val_type: ValType::I32 }]);
    assert_eq!(ok.results, vec![ValType::I64]);
    let by_index = func_type_of(SyntaxFuncType { by_index: true, params: vec![], results: vec![] });
    assert_eq!(by_index, Err(Error::UnsupportedTypeIndex));
    let other = func_type_of(SyntaxFuncType { by_index: false, params: vec![], results: vec![SyntaxValType::Other] });
    assert_eq!(other, Err(Error::UnsupportedValueType));
}

#[test]
fn syntax_funcs() {
    let ty = || Ok(FuncType { params: vec![], results: vec![] });
    let f = func_of(Some(String::from("f")), ty(), false, Some(Ok(body()))).unwrap();
    assert_eq!(f, Func { id: Some(String::from("f")), ty: FuncType { params: vec![], results: vec![] }, line_expression: body() });
    assert_eq!(func_of(None, ty(), true, Some(Ok(body()))), Err(Error::UnsupportedExport));
    assert_eq!(func_of(None, ty(), false, None), Err(Error::UnsupportedFunctionKind));
    assert_eq!(func_of(None, Err(Error::UnsupportedTypeIndex), true, None), Err(Error::UnsupportedTypeIndex));
    assert_eq!(func_of(None, ty(), false, Some(Err(Error::ExpectedEnd))), Err(Error::ExpectedEnd));
}

#[test]
fn syntax_instructions() {
    assert_eq!(instruction_of(SyntaxInstruction::Known(Instruction::Nop)), Ok(Instruction::Nop));
    assert_eq!(instruction_of(SyntaxInstruction::Other), Err(Error::UnsupportedInstruction));
}

#[test]
fn error_texts() {
    assert_eq!(Error::DivideByZero.text(), "Divide by zero");
    assert_eq!(Error::IndexOutOfBounds(7).text(), "Index out of bounds: 7");
    assert_eq!(Error::KeyNotFound(String::from("$x")).text(), "Key not found: $x");
    assert_eq!(Error::KeyExists(String::from("$y")).text(), "Key already exists: $y");
    assert_eq!(Error::BranchLeak.text(), "br leaking out");
    assert_eq!(Error::UnsupportedInstruction.text(), "Unsupported instruction");
}
