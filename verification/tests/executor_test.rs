#![allow(dead_code)]
use wasmrepl::executor::Executor;
use wasmrepl::model::{BlockType, Expression, Func, FuncType, Index, Instruction, Line, LineExpression, Local, ValType};
use wasmrepl::ops::{FloatBinOp, FloatOps, FloatRelOp, FloatUnOp};
use wasmrepl::value::Value;

struct HostFloats;

impl FloatOps for HostFloats {
    fn f32_unary(&self, op: FloatUnOp, a: u32) -> u32 {
        let x = f32::from_bits(a);
        let r = match op {
            FloatUnOp::Abs => x.abs(),
            FloatUnOp::Neg => x * -1.0,
            FloatUnOp::Ceil => x.ceil(),
            FloatUnOp::Floor => x.floor(),
            FloatUnOp::Trunc => x.trunc(),
            FloatUnOp::Nearest => x.round(),
            FloatUnOp::Sqrt => x.sqrt(),
        };
        r.to_bits()
    }

    fn f32_binary(&self, op: FloatBinOp, a: u32, b: u32) -> u32 {
        let (x, y) = (f32::from_bits(a), f32::from_bits(b));
        let r = match op {
            FloatBinOp::Add => x + y,
            FloatBinOp::Sub => x - y,
            FloatBinOp::Mul => x * y,
            FloatBinOp::Div => x / y,
            FloatBinOp::Min => x.min(y),
            FloatBinOp::Max => x.max(y),
            FloatBinOp::Copysign => x.copysign(y),
        };
        r.to_bits()
    }

    fn f32_relation(&self, op: FloatRelOp, a: u32, b: u32) -> bool {
        let (x, y) = (f32::from_bits(a), f32::from_bits(b));
        match op {
            FloatRelOp::Eq => x == y,
            FloatRelOp::Ne => x != y,
            FloatRelOp::Lt => x < y,
            FloatRelOp::Gt => x > y,
            FloatRelOp::Le => x <= y,
            FloatRelOp::Ge => x >= y,
        }
    }

    fn f32_text(&self, a: u32) -> String {
        format!("{}", f32::from_bits(a))
    }

    fn f64_unary(&self, op: FloatUnOp, a: u64) -> u64 {
        let x = f64::from_bits(a);
        let r = match op {
            FloatUnOp::Abs => x.abs(),
            FloatUnOp::Neg => x * -1.0,
            FloatUnOp::Ceil => x.ceil(),
            FloatUnOp::Floor => x.floor(),
            FloatUnOp::Trunc => x.trunc(),
            FloatUnOp::Nearest => x.round(),
            FloatUnOp::Sqrt => x.sqrt(),
        };
        r.to_bits()
    }

    fn f64_binary(&self, op: FloatBinOp, a: u64, b: u64) -> u64 {
        let (x, y) = (f64::from_bits(a), f64::from_bits(b));
        let r = match op {
            FloatBinOp::Add => x + y,
            FloatBinOp::Sub => x - y,
            FloatBinOp::Mul => x * y,
            FloatBinOp::Div => x / y,
            FloatBinOp::Min => x.min(y),
            FloatBinOp::Max => x.max(y),
            FloatBinOp::Copysign => x.copysign(y),
        };
        r.to_bits()
    }

    fn f64_relation(&self, op: FloatRelOp, a: u64, b: u64) -> bool {
        let (x, y) = (f64::from_bits(a), f64::from_bits(b));
        match op {
            FloatRelOp::Eq => x == y,
            FloatRelOp::Ne => x != y,
            FloatRelOp::Lt => x < y,
            FloatRelOp::Gt => x > y,
            FloatRelOp::Le => x <= y,
            FloatRelOp::Ge => x >= y,
        }
    }

    fn f64_text(&self, a: u64) -> String {
        format!("{}", f64::from_bits(a))
    }
}

fn f32v(x: f32) -> Value {
    Value::F32(x.to_bits())
}

fn f64v(x: f64) -> Value {
    Value::F64(x.to_bits())
}

fn f32b(x: f32) -> u32 {
    x.to_bits()
}

fn f64b(x: f64) -> u64 {
    x.to_bits()
}

fn make_local(t: ValType) -> Local {
    Local { id: None, val_type: t }
}

fn local_id(id: &str, t: ValType) -> Local {
    Local { id: Some(String::from(id)), val_type: t }
}

fn func_type(params: Vec<Local>, results: Vec<ValType>) -> FuncType {
    FuncType { params, results }
}

fn make_block_type(params: Vec<Local>, results: Vec<ValType>) -> BlockType {
    BlockType { label: None, ty: func_type(params, results) }
}

fn if_instr(bt: BlockType, then_instrs: Vec<Instruction>, else_instrs: Vec<Instruction>) -> Instruction {
    Instruction::If(bt, Some(Expression { instrs: then_instrs }), Some(Expression { instrs: else_instrs }))
}

fn block_instr(bt: BlockType, instrs: Vec<Instruction>) -> Instruction {
    Instruction::Block(bt, Some(Expression { instrs }))
}

fn loop_instr(bt: BlockType, instrs: Vec<Instruction>) -> Instruction {
    Instruction::Loop(bt, Some(Expression { instrs }))
}

fn test_index(id: &str) -> Index {
    Index::Id(String::from(id))
}

fn make_line(locals: Vec<Local>, instrs: Vec<Instruction>) -> Line {
    Line::Expression(LineExpression { locals, expr: Expression { instrs } })
}

fn make_func(name: &str, params: Vec<Local>, results: Vec<ValType>, instrs: Vec<Instruction>) -> Line {
    Line::Func(Func {
        id: Some(String::from(name)),
        ty: FuncType { params, results },
        line_expression: LineExpression { locals: vec![], expr: Expression { instrs } },
    })
}

#[test]
fn executor_test_test_add() {
    let mut executor = Executor::new();
    let line = make_line(vec![], vec![Instruction::I32Const(42),
        Instruction::I32Const(58),
        Instruction::I32Add]);
    let response = executor.execute_line(line, &HostFloats).unwrap();
    assert_eq!(response.message(), "[100]");
}

#[test]
fn test_error_rollback() {
    let mut executor = Executor::new();
    let line = make_line(vec![], vec![Instruction::I32Const(55)]);
    executor.execute_line(line, &HostFloats).unwrap();

    let line = make_line(vec![], vec![Instruction::I32Const(55), Instruction::F32Neg]);
    assert!(executor.execute_line(line, &HostFloats).is_err());
    // Ensure rollback
    assert_eq!(
        executor.call_stack().funcs[0].to_soft_string(&HostFloats).unwrap().0,
        "[55]"
    );
}

#[test]
fn test_local_set_get() {
    let mut executor = Executor::new();
    let line = make_line(vec![make_local(ValType::I32)], vec![Instruction::I32Const(42),
        Instruction::LocalSet(Index::Num(0)),
        Instruction::LocalGet(Index::Num(0))]);
    assert_eq!(
        executor.execute_line(line, &HostFloats).unwrap().message(),
        "local ;0;\n[42]"
    );
}

#[test]
fn test_local_set_commit() {
    let mut executor = Executor::new();
    let line = make_line(vec![make_local(ValType::I32)], vec![Instruction::I32Const(42),
        Instruction::LocalSet(Index::Num(0)),
        Instruction::LocalGet(Index::Num(0))]);
    assert_eq!(
        executor.execute_line(line, &HostFloats).unwrap().message(),
        "local ;0;\n[42]"
    );

    let line = make_line(vec![], vec![Instruction::Drop,
        Instruction::I32Const(55),
        Instruction::LocalSet(Index::Num(0)),
        Instruction::LocalGet(Index::Num(0))]);
    assert_eq!(executor.execute_line(line, &HostFloats).unwrap().message(), "[55]");
}

#[test]
fn test_local_set_local_value_rollback() {
    let mut executor = Executor::new();
    let line = make_line(vec![make_local(ValType::I32)], vec![Instruction::I32Const(42),
        Instruction::LocalSet(Index::Num(0))]);
    executor.execute_line(line, &HostFloats).unwrap();

    let line = make_line(vec![], vec![Instruction::I32Const(43),
        Instruction::I32Const(55),
        Instruction::LocalSet(Index::Num(0)),
        // Failing instruction
        Instruction::F32Neg]);
    assert!(executor.execute_line(line, &HostFloats).is_err());

    let line = make_line(vec![make_local(ValType::I32)], vec![Instruction::LocalGet(
        Index::Num(0)
    )]);
    assert_eq!(
        executor.execute_line(line, &HostFloats).unwrap().message(),
        "local ;1;\n[42]"
    );
}

#[test]
fn test_local_rollback() {
    let mut executor = Executor::new();
    let line = make_line(vec![local_id("num", ValType::I32)], vec![]);
    assert_eq!(
        executor.execute_line(line, &HostFloats).unwrap().message(),
        "local ;0; num\n[]"
    );
    let line = make_line(vec![local_id("num", ValType::I32)], vec![]);
    assert!(executor.execute_line(line, &HostFloats).is_err());

    let line = make_line(vec![local_id("num2", ValType::I32)], vec![]);
    assert_eq!(
        executor.execute_line(line, &HostFloats).unwrap().message(),
        "local ;1; num2\n[]"
    );
}

#[test]
fn test_local_by_id() {
    let mut executor = Executor::new();

    let local = local_id("num", ValType::I32);

    let set_index = test_index("num");
    let get_index = test_index("num");

    let line = make_line(vec![local], vec![Instruction::I32Const(42),
        Instruction::LocalSet(set_index),
        Instruction::LocalGet(get_index)]);
    assert_eq!(
        executor.execute_line(line, &HostFloats).unwrap().message(),
        "local ;0; num\n[42]"
    );
}

#[test]
fn test_local_by_id_mix() {
    let mut executor = Executor::new();
    let local = local_id("num", ValType::I32);
    let index = test_index("num");

    let line = make_line(vec![make_local(ValType::I32), local], vec![Instruction::I32Const(42),
        Instruction::LocalSet(index),
        Instruction::LocalGet(Index::Num(1))]);
    assert_eq!(
        executor.execute_line(line, &HostFloats).unwrap().message(),
        "local ;0;\nlocal ;1; num\n[42]"
    );
}

#[test]
fn test_local_set_get_i64() {
    let mut executor = Executor::new();
    let line = make_line(vec![make_local(ValType::I64)], vec![Instruction::I64Const(42),
        Instruction::LocalSet(Index::Num(0)),
        Instruction::LocalGet(Index::Num(0))]);
    assert_eq!(
        executor.execute_line(line, &HostFloats).unwrap().message(),
        "local ;0;\n[42]"
    );
}

#[test]
fn test_local_set_get_f32() {
    let mut executor = Executor::new();
    let local = make_local(ValType::F32);
    let line = make_line(vec![local], vec![Instruction::F32Const(f32b(3.14)),
        Instruction::LocalSet(Index::Num(0)),
        Instruction::LocalGet(Index::Num(0))]);
    assert_eq!(
        executor.execute_line(line, &HostFloats).unwrap().message(),
        "local ;0;\n[3.14]"
    );
}

#[test]
fn test_local_set_get_f64() {
    let mut executor = Executor::new();
    let local = Local {
        id: None,
        val_type: ValType::F64,
    };
    let line = make_line(vec![local], vec![Instruction::F64Const(f64b(3.14f64)),
        Instruction::LocalSet(Index::Num(0)),
        Instruction::LocalGet(Index::Num(0))]);
    assert_eq!(
        executor.execute_line(line, &HostFloats).unwrap().message(),
        "local ;0;\n[3.14]"
    );
}

#[test]
fn test_local_set_get_type_error() {
    let mut executor = Executor::new();
    let line = make_line(vec![make_local(ValType::I32)], vec![Instruction::I64Const(55),
        Instruction::LocalSet(Index::Num(0))]);
    assert!(executor.execute_line(line, &HostFloats).is_err());
}

#[test]
fn test_func() {
    let mut executor = Executor::new();
    let func = make_func("subtract", vec![local_id("first", ValType::I32),
            local_id("second", ValType::I32)], vec![ValType::I32, ValType::I32], vec![Instruction::LocalGet(test_index("first")),
            Instruction::LocalGet(test_index("first")),
            Instruction::LocalGet(test_index("second")),
            Instruction::I32Sub]);
    let response = executor.execute_line(func, &HostFloats).unwrap();
    assert_eq!(response.message(), "func ;0; subtract");

    let call_sub = make_line(vec![], vec![Instruction::I32Const(7),
        Instruction::I32Const(2),
        Instruction::Call(test_index("subtract"))]);
    assert_eq!(executor.execute_line(call_sub, &HostFloats).unwrap().message(), "[7, 5]");
}

#[test]
fn test_func_error_less_number_of_inputs() {
    let mut executor = Executor::new();
    let func = make_func("fun", vec![make_local(ValType::I32)], vec![], vec![]);
    executor.execute_line(func, &HostFloats).unwrap();

    let call_fun = make_line(vec![], vec![Instruction::Call(test_index("fun"))]);
    assert!(executor.execute_line(call_fun, &HostFloats).is_err());
}

#[test]
fn test_func_error_less_number_of_outputs() {
    let mut executor = Executor::new();
    let func = make_func("fun", vec![], vec![ValType::I32], vec![]);
    executor.execute_line(func, &HostFloats).unwrap();

    let call = make_line(vec![], vec![Instruction::Call(test_index("fun"))]);
    // We expect one output but will get none hence an error
    assert!(executor.execute_line(call, &HostFloats).is_err());
}

#[test]
fn test_func_error_more_number_of_outputs() {
    let mut executor = Executor::new();
    let func = make_func("fun", vec![], vec![], vec![Instruction::I32Const(5)]);
    executor.execute_line(func, &HostFloats).unwrap();

    let call = make_line(vec![], vec![Instruction::Call(test_index("fun"))]);
    // We expect no output but will get one hence an error
    assert!(executor.execute_line(call, &HostFloats).is_err());
}

#[test]
fn test_func_input_type() {
    let mut executor = Executor::new();
    let func = make_func("fun", vec![make_local(ValType::I32), make_local(ValType::I64)], vec![], vec![]);
    executor.execute_line(func, &HostFloats).unwrap();

    let call_fun = make_line(vec![], vec![Instruction::I32Const(5),
        Instruction::I64Const(10),
        Instruction::Call(test_index("fun"))]);
    executor.execute_line(call_fun, &HostFloats).unwrap();
}

#[test]
fn test_func_error_input_type() {
    let mut executor = Executor::new();
    let func = make_func("fun", vec![make_local(ValType::I32), make_local(ValType::I64)], vec![], vec![]);
    executor.execute_line(func, &HostFloats).unwrap();

    let call_fun = make_line(vec![], vec![Instruction::I64Const(5),
        Instruction::I32Const(10),
        Instruction::Call(test_index("fun"))]);
    assert!(executor.execute_line(call_fun, &HostFloats).is_err());
}

#[test]
fn test_func_output_type() {
    let mut executor = Executor::new();
    let func = make_func("fun", vec![], vec![ValType::I32, ValType::I64], vec![Instruction::I32Const(5), Instruction::I64Const(10)]);
    executor.execute_line(func, &HostFloats).unwrap();

    let call_fun = make_line(vec![], vec![Instruction::Call(test_index("fun"))]);
    executor.execute_line(call_fun, &HostFloats).unwrap();
}

#[test]
fn test_func_output_type_error() {
    let mut executor = Executor::new();
    let func = make_func("fun", vec![], vec![ValType::I32, ValType::I64], vec![Instruction::I64Const(10), Instruction::I32Const(5)]);
    executor.execute_line(func, &HostFloats).unwrap();

    let call_fun = make_line(vec![], vec![Instruction::Call(test_index("fun"))]);
    assert!(executor.execute_line(call_fun, &HostFloats).is_err());
}

#[test]
fn test_func_no_id() {
    let mut executor = Executor::new();
    let func = Line::Func(Func {
        id: None,
        ty: FuncType {
            params: vec![make_local(ValType::I32)],
            results: vec![ValType::I32],
        },
        line_expression: LineExpression {
            locals: vec![],
            expr: Expression {
                instrs: vec![Instruction::LocalGet(Index::Num(0))],
            },
        },
    });
    let response = executor.execute_line(func, &HostFloats).unwrap();
    assert_eq!(response.message(), "func ;0;");

    let call_fun = make_line(vec![], vec![Instruction::I32Const(2),
        Instruction::Call(Index::Num(0))]);
    let response = executor.execute_line(call_fun, &HostFloats).unwrap();
    assert_eq!(response.message(), "[2]");
}

#[test]
fn test_func_return() {
    let mut executor = Executor::new();
    let func = make_func("fun", vec![], vec![ValType::I32], vec![Instruction::I32Const(5),
            Instruction::Return,
            Instruction::Drop,
            Instruction::I32Const(6)]);
    executor.execute_line(func, &HostFloats).unwrap();

    let call_fun = make_line(vec![], vec![Instruction::Call(test_index("fun"))]);
    let response = executor.execute_line(call_fun, &HostFloats).unwrap();
    assert_eq!(response.message(), "[5]");
}

#[test]
fn test_func_return_too_many() {
    let mut executor = Executor::new();
    let func = make_func("fun", vec![], vec![ValType::I32, ValType::I64], vec![Instruction::I32Const(10),
            Instruction::I32Const(20),
            Instruction::I64Const(30),
            Instruction::Return]);
    executor.execute_line(func, &HostFloats).unwrap();

    let call_fun = make_line(vec![], vec![Instruction::Call(test_index("fun"))]);
    let response = executor.execute_line(call_fun, &HostFloats).unwrap();
    assert_eq!(response.message(), "[20, 30]");
}

#[test]
fn test_func_stack_overflow_error() {
    let mut executor = Executor::new();
    let func = make_func("fun", vec![], vec![], vec![Instruction::Call(Index::Id(String::from("fun")))]);
    executor.execute_line(func, &HostFloats).unwrap();

    let call_fun = make_line(vec![], vec![Instruction::Call(test_index("fun"))]);
    assert!(executor.execute_line(call_fun, &HostFloats).is_err());
}

#[test]
fn test_return_line() {
    let mut executor = Executor::new();
    let line = make_line(vec![], vec![Instruction::I32Const(5), Instruction::Return]);
    assert!(executor.execute_line(line, &HostFloats).is_err());

    // Ensure rollback
    assert_eq!(executor.call_stack().funcs[0].to_soft_string(&HostFloats).unwrap().0, "[]");
}

#[test]
fn test_if() {
    let mut executor = Executor::new();
    let line = make_line(vec![], vec![Instruction::I32Const(12),
        Instruction::I32Const(3),
        Instruction::I32Const(1),
        if_instr(make_block_type(vec![make_local(ValType::I32), make_local(ValType::I32)], vec![ValType::I32]), vec![Instruction::I32Add], vec![Instruction::I32Sub]),
        Instruction::I32Const(4)]);
    assert_eq!(executor.execute_line(line, &HostFloats).unwrap().message(), "[15, 4]");
}

#[test]
fn test_if_execution_error() {
    let mut executor = Executor::new();
    let line = make_line(vec![], vec![Instruction::I32Const(1),
        if_instr(make_block_type(vec![make_local(ValType::I32), make_local(ValType::I32)], vec![ValType::I32]), vec![Instruction::I32Add], vec![Instruction::I32Sub]),
        Instruction::I32Const(4)]);
    assert!(executor.execute_line(line, &HostFloats).is_err());
}

#[test]
fn test_if_param_error() {
    let mut executor = Executor::new();
    let line = make_line(vec![], vec![Instruction::I32Const(1),
        if_instr(make_block_type(vec![make_local(ValType::I32)], vec![ValType::I32]), vec![], vec![]),
        Instruction::I32Const(4)]);
    assert!(executor.execute_line(line, &HostFloats).is_err());
    assert_eq!(executor.call_stack().funcs[0].to_soft_string(&HostFloats).unwrap().0, "[]");
}

#[test]
fn test_if_param_type_error() {
    let mut executor = Executor::new();
    let line = make_line(vec![], vec![Instruction::F32Const(f32b(1.0)),
        Instruction::I32Const(1),
        if_instr(make_block_type(vec![make_local(ValType::I32)], vec![ValType::I32]), vec![], vec![]),
        Instruction::I32Const(4)]);
    assert!(executor.execute_line(line, &HostFloats).is_err());
    assert_eq!(executor.call_stack().funcs[0].to_soft_string(&HostFloats).unwrap().0, "[]");
}

#[test]
fn test_if_result_error() {
    let mut executor = Executor::new();
    let line = make_line(vec![], vec![Instruction::I32Const(1),
        if_instr(make_block_type(vec![], vec![ValType::I32]), vec![], vec![]),
        Instruction::I32Const(4)]);
    assert!(executor.execute_line(line, &HostFloats).is_err());
    assert_eq!(executor.call_stack().funcs[0].to_soft_string(&HostFloats).unwrap().0, "[]");
}

#[test]
fn test_if_result_type_error() {
    let mut executor = Executor::new();
    let line = make_line(vec![], vec![Instruction::I32Const(1),
        if_instr(make_block_type(vec![], vec![ValType::I32]), vec![Instruction::F64Const(f64b(1.0))], vec![Instruction::F64Const(f64b(2.0))]),
        Instruction::I32Const(4)]);
    assert!(executor.execute_line(line, &HostFloats).is_err());
    assert_eq!(executor.call_stack().funcs[0].to_soft_string(&HostFloats).unwrap().0, "[]");
}

#[test]
fn test_if_result_too_many() {
    let mut executor = Executor::new();
    let line = make_line(vec![], vec![Instruction::I32Const(1),
        if_instr(make_block_type(vec![], vec![ValType::I32]), vec![Instruction::I32Const(1),
            Instruction::I32Const(3)], vec![Instruction::I32Const(2), Instruction::I32Const(4)]),
        Instruction::I32Const(4)]);
    assert!(executor.execute_line(line, &HostFloats).is_err());
    assert_eq!(executor.call_stack().funcs[0].to_soft_string(&HostFloats).unwrap().0, "[]");
}

#[test]
fn executor_test_test_else() {
    let mut executor = Executor::new();
    let line = make_line(vec![], vec![Instruction::I32Const(12),
        Instruction::I32Const(3),
        Instruction::I32Const(0),
        if_instr(make_block_type(vec![make_local(ValType::I32), make_local(ValType::I32)], vec![ValType::I32]), vec![Instruction::I32Add], vec![Instruction::I32Sub]),
        Instruction::I32Const(4)]);
    assert_eq!(executor.execute_line(line, &HostFloats).unwrap().message(), "[9, 4]");
}

#[test]
fn test_nested_if() {
    let mut executor = Executor::new();
    let line = make_line(vec![], vec![Instruction::I32Const(1),
        if_instr(make_block_type(vec![], vec![ValType::I32]), vec![Instruction::I32Const(2),
            if_instr(make_block_type(vec![], vec![ValType::I32]), vec![Instruction::I32Const(3)], vec![Instruction::I32Const(5)])], vec![Instruction::I32Const(4)]),
        Instruction::I32Const(6)]);
    assert_eq!(executor.execute_line(line, &HostFloats).unwrap().message(), "[3, 6]");
}

#[test]
fn test_skip_nested_if() {
    let mut executor = Executor::new();
    let line = make_line(vec![], vec![Instruction::I32Const(-1),
        if_instr(make_block_type(vec![], vec![ValType::I32]), vec![Instruction::I32Const(2),
            if_instr(make_block_type(vec![], vec![ValType::I32]), vec![Instruction::I32Const(3)], vec![Instruction::I32Const(5)])], vec![Instruction::I32Const(4)]),
        Instruction::I32Const(6)]);
    assert_eq!(executor.execute_line(line, &HostFloats).unwrap().message(), "[4, 6]");
}

#[test]
fn test_no_if() {
    let mut executor = Executor::new();
    let line = make_line(vec![], vec![Instruction::I32Const(3),
        if_instr(make_block_type(vec![], vec![]), vec![], vec![Instruction::I32Const(5), Instruction::Drop]),
        Instruction::I32Const(2)]);
    assert_eq!(executor.execute_line(line, &HostFloats).unwrap().message(), "[2]");
}

#[test]
fn test_no_else() {
    let mut executor = Executor::new();
    let line = make_line(vec![], vec![Instruction::I32Const(-2),
        if_instr(make_block_type(vec![], vec![]), vec![Instruction::I32Const(5), Instruction::Drop], vec![]),
        Instruction::I32Const(2)]);
    assert_eq!(executor.execute_line(line, &HostFloats).unwrap().message(), "[2]");
}

#[test]
fn test_func_nested_return() {
    let mut executor = Executor::new();
    let func = make_func("fn", vec![make_local(ValType::I32)], vec![ValType::I32], vec![Instruction::LocalGet(Index::Num(0)),
            if_instr(make_block_type(vec![], vec![ValType::I32]), vec![Instruction::I32Const(2),
                Instruction::Return,
                Instruction::I32Const(3)], vec![Instruction::I32Const(4)]),
            Instruction::I32Const(5),
            Instruction::Return]);
    executor.execute_line(func, &HostFloats).unwrap();

    let call_sub = make_line(vec![], vec![Instruction::I32Const(1),
        Instruction::Call(test_index("fn"))]);
    assert_eq!(executor.execute_line(call_sub, &HostFloats).unwrap().message(), "[2]");

    let call_sub = make_line(vec![], vec![Instruction::Drop,
        Instruction::I32Const(-1),
        Instruction::Call(test_index("fn"))]);
    assert_eq!(executor.execute_line(call_sub, &HostFloats).unwrap().message(), "[5]");
}

#[test]
fn test_func_nested_too_many() {
    let mut executor = Executor::new();
    let func = make_func("fn", vec![], vec![ValType::I32], vec![Instruction::I32Const(1),
            block_instr(make_block_type(vec![], vec![ValType::I32]), vec![Instruction::I32Const(2),
                Instruction::Return,
                Instruction::I32Const(3)])]);
    executor.execute_line(func, &HostFloats).unwrap();

    let call_func = make_line(vec![], vec![Instruction::Call(test_index("fn"))]);
    assert!(executor.execute_line(call_func, &HostFloats).is_err());
}

#[test]
fn executor_test_test_block() {
    let mut executor = Executor::new();
    let line = make_line(vec![], vec![Instruction::I32Const(1),
        Instruction::I32Const(2),
        block_instr(make_block_type(vec![make_local(ValType::I32)], vec![ValType::I32]), vec![Instruction::I32Const(3),
            Instruction::I32Add]),
        Instruction::I32Const(4)]);
    assert_eq!(executor.execute_line(line, &HostFloats).unwrap().message(), "[1, 5, 4]");
}

#[test]
fn test_nested_block() {
    let mut executor = Executor::new();
    let line = make_line(vec![], vec![Instruction::I32Const(1),
        block_instr(make_block_type(vec![], vec![ValType::I32, ValType::I32]), vec![Instruction::I32Const(2),
            block_instr(make_block_type(vec![], vec![ValType::I32]), vec![Instruction::I32Const(3)])]),
        Instruction::I32Const(4)]);
    assert_eq!(
        executor.execute_line(line, &HostFloats).unwrap().message(),
        "[1, 2, 3, 4]"
    );
}

#[test]
fn test_block_branch() {
    let mut executor = Executor::new();
    let line = make_line(vec![], vec![Instruction::I32Const(1),
        block_instr(make_block_type(vec![], vec![ValType::I32]), vec![Instruction::I32Const(2),
            Instruction::Br(Index::Num(0)),
            Instruction::I32Const(3)]),
        Instruction::I32Const(4)]);
    assert_eq!(executor.execute_line(line, &HostFloats).unwrap().message(), "[1, 2, 4]");
}

#[test]
fn test_nested_branch_inner_block() {
    let mut executor = Executor::new();
    let line = make_line(vec![], vec![Instruction::I32Const(1),
        block_instr(make_block_type(vec![], vec![ValType::I32, ValType::I32, ValType::I32]), vec![Instruction::I32Const(2),
            block_instr(make_block_type(vec![], vec![ValType::I32]), vec![Instruction::I32Const(3),
                Instruction::Br(Index::Num(0)),
                Instruction::I32Const(4)]),
            Instruction::I32Const(5)]),
        Instruction::I32Const(6)]);
    assert_eq!(
        executor.execute_line(line, &HostFloats).unwrap().message(),
        "[1, 2, 3, 5, 6]"
    );
}

#[test]
fn test_nested_branch_outer_block() {
    let mut executor = Executor::new();
    let line = make_line(vec![], vec![Instruction::I32Const(1),
        block_instr(make_block_type(vec![], vec![ValType::I32, ValType::I32]), vec![Instruction::I32Const(2),
            block_instr(make_block_type(vec![], vec![ValType::I32]), vec![Instruction::I32Const(4),
                Instruction::Br(Index::Num(1)),
                Instruction::I32Const(5)]),
            Instruction::I32Const(6)]),
        Instruction::I32Const(7)]);
    assert_eq!(
        executor.execute_line(line, &HostFloats).unwrap().message(),
        "[1, 2, 4, 7]"
    );
}

#[test]
fn test_branch_too_many() {
    let mut executor = Executor::new();
    let line = make_line(vec![], vec![Instruction::I32Const(1),
        block_instr(make_block_type(vec![], vec![ValType::I32]), vec![Instruction::I32Const(2),
            Instruction::I32Const(3),
            Instruction::Br(Index::Num(0)),
            Instruction::I32Const(4)]),
        Instruction::I32Const(7)]);
    assert_eq!(executor.execute_line(line, &HostFloats).unwrap().message(), "[1, 3, 7]");
}

#[test]
fn test_branch_nested_too_many() {
    let mut executor = Executor::new();
    let line = make_line(vec![], vec![Instruction::I32Const(1),
        block_instr(make_block_type(vec![], vec![ValType::I32]), vec![Instruction::I32Const(2),
            block_instr(make_block_type(vec![], vec![ValType::I32]), vec![Instruction::I32Const(3),
                Instruction::Br(Index::Num(1)),
                Instruction::I32Const(4)])])]);
    assert!(executor.execute_line(line, &HostFloats).is_err());
}
