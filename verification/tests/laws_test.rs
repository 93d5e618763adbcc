#![allow(dead_code)]
use wasmrepl::analyzer::skip_block;
use wasmrepl::call_stack::{CallStack, FuncStack};
use wasmrepl::dict::Dict;
use wasmrepl::error::Error;
use wasmrepl::executor::Executor;
use wasmrepl::group::group_expr;
use wasmrepl::handler::Handler;
use wasmrepl::integer::Integer;
use wasmrepl::list::List;
use wasmrepl::locals::Locals;
use wasmrepl::model::{is_grouped_line, BlockType, Expression, Func, FuncType, Index, Instruction, Line, LineExpression, Local, ValType};
use wasmrepl::ops::{FloatBinOp, FloatOps, FloatRelOp, FloatUnOp, IntOps, NumOps};
use wasmrepl::preprocessor::{preprocess, Command};
use wasmrepl::response::Control;
use wasmrepl::stack::Stack;
use wasmrepl::value::Value;

struct HostFloats;

impl FloatOps for HostFloats {
    fn f32_unary(&self, op: FloatUnOp, a: u32) -> u32 {
        let x = f32::from_bits(a);
        let r = match op {
            FloatUnOp::Abs => x.abs(),
            FloatUnOp::Neg => x * -1.0,
            FloatUnOp::Ceil => x.ceil(),
            FloatUnOp::Floor => x.floor(),
            FloatUnOp::Trunc => x.trunc(),
            FloatUnOp::Nearest => x.round(),
            FloatUnOp::Sqrt => x.sqrt(),
        };
        r.to_bits()
    }

    fn f32_binary(&self, op: FloatBinOp, a: u32, b: u32) -> u32 {
        let (x, y) = (f32::from_bits(a), f32::from_bits(b));
        let r = match op {
            FloatBinOp::Add => x + y,
            FloatBinOp::Sub => x - y,
            FloatBinOp::Mul => x * y,
            FloatBinOp::Div => x / y,
            FloatBinOp::Min => x.min(y),
            FloatBinOp::Max => x.max(y),
            FloatBinOp::Copysign => x.copysign(y),
        };
        r.to_bits()
    }

    fn f32_relation(&self, op: FloatRelOp, a: u32, b: u32) -> bool {
        let (x, y) = (f32::from_bits(a), f32::from_bits(b));
        match op {
            FloatRelOp::Eq => x == y,
            FloatRelOp::Ne => x != y,
            FloatRelOp::Lt => x < y,
            FloatRelOp::Gt => x > y,
            FloatRelOp::Le => x <= y,
            FloatRelOp::Ge => x >= y,
        }
    }

    fn f32_text(&self, a: u32) -> String {
        format!("{}", f32::from_bits(a))
    }

    fn f64_unary(&self, op: FloatUnOp, a: u64) -> u64 {
        let x = f64::from_bits(a);
        let r = match op {
            FloatUnOp::Abs => x.abs(),
            FloatUnOp::Neg => x * -1.0,
            FloatUnOp::Ceil => x.ceil(),
            FloatUnOp::Floor => x.floor(),
            FloatUnOp::Trunc => x.trunc(),
            FloatUnOp::Nearest => x.round(),
            FloatUnOp::Sqrt => x.sqrt(),
        };
        r.to_bits()
    }

    fn f64_binary(&self, op: FloatBinOp, a: u64, b: u64) -> u64 {
        let (x, y) = (f64::from_bits(a), f64::from_bits(b));
        let r = match op {
            FloatBinOp::Add => x + y,
            FloatBinOp::Sub => x - y,
            FloatBinOp::Mul => x * y,
            FloatBinOp::Div => x / y,
            FloatBinOp::Min => x.min(y),
            FloatBinOp::Max => x.max(y),
            FloatBinOp::Copysign => x.copysign(y),
        };
        r.to_bits()
    }

    fn f64_relation(&self, op: FloatRelOp, a: u64, b: u64) -> bool {
        let (x, y) = (f64::from_bits(a), f64::from_bits(b));
        match op {
            FloatRelOp::Eq => x == y,
            FloatRelOp::Ne => x != y,
            FloatRelOp::Lt => x < y,
            FloatRelOp::Gt => x > y,
            FloatRelOp::Le => x <= y,
            FloatRelOp::Ge => x >= y,
        }
    }

    fn f64_text(&self, a: u64) -> String {
        format!("{}", f64::from_bits(a))
    }
}

fn f32v(x: f32) -> Value {
    Value::F32(x.to_bits())
}

fn f64v(x: f64) -> Value {
    Value::F64(x.to_bits())
}

fn f32b(x: f32) -> u32 {
    x.to_bits()
}

fn f64b(x: f64) -> u64 {
    x.to_bits()
}

fn make_local(t: ValType) -> Local {
    Local { id: None, val_type: t }
}

fn local_id(id: &str, t: ValType) -> Local {
    Local { id: Some(String::from(id)), val_type: t }
}

fn func_type(params: Vec<Local>, results: Vec<ValType>) -> FuncType {
    FuncType { params, results }
}

fn make_block_type(params: Vec<Local>, results: Vec<ValType>) -> BlockType {
    BlockType { label: None, ty: func_type(params, results) }
}

fn if_instr(bt: BlockType, then_instrs: Vec<Instruction>, else_instrs: Vec<Instruction>) -> Instruction {
    Instruction::If(bt, Some(Expression { instrs: then_instrs }), Some(Expression { instrs: else_instrs }))
}

fn block_instr(bt: BlockType, instrs: Vec<Instruction>) -> Instruction {
    Instruction::Block(bt, Some(Expression { instrs }))
}

fn loop_instr(bt: BlockType, instrs: Vec<Instruction>) -> Instruction {
    Instruction::Loop(bt, Some(Expression { instrs }))
}

fn test_index(id: &str) -> Index {
    Index::Id(String::from(id))
}

fn make_line(locals: Vec<Local>, instrs: Vec<Instruction>) -> Line {
    Line::Expression(LineExpression { locals, expr: Expression { instrs } })
}

fn make_func(name: &str, params: Vec<Local>, results: Vec<ValType>, instrs: Vec<Instruction>) -> Line {
    Line::Func(Func {
        id: Some(String::from(name)),
        ty: FuncType { params, results },
        line_expression: LineExpression { locals: vec![], expr: Expression { instrs } },
    })
}

fn run(executor: &mut Executor, line: Line) -> Result<String, Error> {
    executor.execute_line(line, &HostFloats).map(|r| r.message())
}

fn state(executor: &Executor) -> String {
    executor.call_stack().to_string(&HostFloats).0
}

#[test]
fn law_add_sub_wraps_back() {
    for (a, b) in [(i32::MAX, 5), (i32::MIN, -1), (7, -9), (0, i32::MIN)] {
        assert_eq!(a.add(b).sub(b), a);
    }
    for (a, b) in [(i64::MAX, 5i64), (i64::MIN, -1), (7, -9)] {
        assert_eq!(a.add(b).sub(b), a);
    }
}

#[test]
fn law_div_rem_rebuilds_dividend() {
    for b in -9i32..=9 {
        for a in [-4i32, -3, -1, 1, 2, 5] {
            let q = b.div_s(a).unwrap();
            let r = b.rem_s(a).unwrap();
            assert_eq!(q * a + r, b);
            assert!(r.abs() < a.abs());
        }
    }
    assert_eq!((-7i32).div_s(2).unwrap(), -3);
    assert_eq!((-7i32).rem_s(2).unwrap(), -1);
    assert_eq!(7i64.div_s(-2).unwrap(), -3);
    assert_eq!(7i64.rem_s(-2).unwrap(), 1);
}

#[test]
fn law_rotl_then_rotr_is_identity() {
    for x in [0x1234_5678i32, -1, i32::MIN, 0] {
        for k in [0i32, 1, 5, 31, 32, 37, -3] {
            assert_eq!(x.rotl(k).rotr(k), x);
        }
    }
    for x in [0x1234_5678_9abc_def0i64, -1, i64::MIN] {
        for k in [0i64, 1, 63, 64, 70, -5] {
            assert_eq!(x.rotl(k).rotr(k), x);
        }
    }
}

#[test]
fn law_stack_rollback_undoes_changes() {
    let mut stack = Stack::new();
    stack.push(Value::I32(1));
    stack.push(Value::I32(2));
    stack.commit();
    stack.pop().unwrap();
    stack.pop().unwrap();
    stack.push(Value::I64(9));
    stack.rollback();
    assert_eq!(stack.to_soft_string(&HostFloats).unwrap().0, "[1, 2]");
    assert_eq!(stack.to_string(&HostFloats).0, "[1, 2]");
    assert_eq!(stack.to_soft_string(&HostFloats).unwrap().0, stack.to_string(&HostFloats).0);
}

#[test]
fn law_list_rollback_undoes_changes() {
    let mut list = List::new();
    list.grow(1);
    list.commit();
    list.set(0, 5).unwrap();
    list.grow(7);
    list.rollback();
    assert_eq!(*list.get(0).unwrap(), 1);
    assert!(list.get(1).is_err());
}

#[test]
fn law_dict_rollback_undoes_changes() {
    let mut dict = Dict::new();
    dict.set(String::from("a"), 1);
    dict.commit();
    dict.set(String::from("a"), 2);
    dict.set(String::from("b"), 3);
    dict.rollback();
    assert_eq!(dict.get("a").unwrap(), 1);
    assert_eq!(dict.get("b"), Err(Error::KeyNotFound(String::from("b"))));
}

#[test]
fn law_locals_rollback_undoes_changes() {
    let mut locals = Locals::new();
    locals.grow_by_id("x", Value::I32(1)).unwrap();
    locals.commit();
    locals.set(&Index::Num(0), Value::I32(4)).unwrap();
    locals.grow_by_id("y", Value::I64(2)).unwrap();
    locals.rollback();
    assert_eq!(*locals.get(&Index::Id(String::from("x"))).unwrap(), Value::I32(1));
    assert!(locals.get(&Index::Id(String::from("y"))).is_err());
}

#[test]
fn law_failed_line_leaves_no_trace() {
    let mut executor = Executor::new();
    run(&mut executor, make_line(vec![make_local(ValType::I32)], vec![Instruction::I32Const(3), Instruction::LocalSet(Index::Num(0)), Instruction::I32Const(8)])).unwrap();
    assert_eq!(state(&executor), "[8]");
    let failing = make_line(vec![make_local(ValType::I64)], vec![
        Instruction::Drop,
        Instruction::I32Const(5),
        Instruction::LocalSet(Index::Num(0)),
        Instruction::I32Const(1),
        Instruction::I32Const(0),
        Instruction::I32DivU,
    ]);
    assert_eq!(run(&mut executor, failing), Err(Error::DivideByZero));
    assert_eq!(state(&executor), "[8]");
    let read = make_line(vec![], vec![Instruction::LocalGet(Index::Num(0))]);
    assert_eq!(run(&mut executor, read).unwrap(), "[8, 3]");
    let missing = make_line(vec![], vec![Instruction::LocalGet(Index::Num(1))]);
    assert!(run(&mut executor, missing).is_err());
}

#[test]
fn law_line_answers_locals_then_stack() {
    let mut executor = Executor::new();
    let line = make_line(vec![local_id("a", ValType::I32), make_local(ValType::F64)], vec![Instruction::I32Const(2)]);
    assert_eq!(run(&mut executor, line).unwrap(), "local ;0; a\nlocal ;1;\n[2]");
    let line = make_line(vec![make_local(ValType::I64)], vec![]);
    assert_eq!(run(&mut executor, line).unwrap(), "local ;2;\n[2]");
}

#[test]
fn law_function_definition_is_announced() {
    let mut executor = Executor::new();
    let f = make_func("f", vec![], vec![ValType::I32], vec![Instruction::I32Const(1)]);
    assert_eq!(run(&mut executor, f).unwrap(), "func ;0; f");
    let again = make_func("f", vec![], vec![], vec![]);
    assert_eq!(run(&mut executor, again), Err(Error::KeyExists(String::from("f"))));
    let g = make_func("g", vec![], vec![], vec![]);
    assert_eq!(run(&mut executor, g).unwrap(), "func ;1; g");
    assert_eq!(state(&executor), "[]");
}

#[test]
fn handler_if_takes_then_only_for_positive_condition() {
    let handler = Handler::new(&HostFloats);
    for (c, then_taken) in [(1, true), (7, true), (0, false), (-1, false), (i32::MIN, false)] {
        let mut stack = FuncStack::new();
        stack.push(Value::I32(c)).unwrap();
        let instr = if_instr(make_block_type(vec![], vec![]), vec![Instruction::Nop], vec![]);
        let resp = handler.handle(&mut stack, instr).unwrap();
        match resp.control {
            Control::ExecBlock(_, body) => assert_eq!(body.instrs.len() == 1, then_taken),
            _ => panic!("expected a block"),
        }
        assert!(stack.is_empty());
    }
}

#[test]
fn handler_if_needs_an_i32_condition() {
    let handler = Handler::new(&HostFloats);
    let mut stack = FuncStack::new();
    stack.push(Value::I64(1)).unwrap();
    let instr = if_instr(make_block_type(vec![], vec![]), vec![], vec![]);
    assert!(matches!(handler.handle(&mut stack, instr), Err(Error::TypeMismatch)));
}

#[test]
fn handler_float_comparison_pushes_one_or_zero() {
    let handler = Handler::new(&HostFloats);
    let mut stack = FuncStack::new();
    stack.push(Value::F32(1.5f32.to_bits())).unwrap();
    stack.push(Value::F32(2.5f32.to_bits())).unwrap();
    handler.handle(&mut stack, Instruction::F32Lt).unwrap();
    assert_eq!(stack.pop().unwrap(), Value::F32(1.0f32.to_bits()));
    stack.push(Value::F64(1.5f64.to_bits())).unwrap();
    stack.push(Value::F64(2.5f64.to_bits())).unwrap();
    handler.handle(&mut stack, Instruction::F64Ge).unwrap();
    assert_eq!(stack.pop().unwrap(), Value::F64(0));
}

#[test]
fn handler_shift_counts_modulo_width() {
    let handler = Handler::new(&HostFloats);
    let mut stack = FuncStack::new();
    stack.push(Value::I32(1)).unwrap();
    stack.push(Value::I32(33)).unwrap();
    handler.handle(&mut stack, Instruction::I32Shl).unwrap();
    assert_eq!(stack.pop().unwrap(), Value::I32(2));
    stack.push(Value::I64(1)).unwrap();
    stack.push(Value::I64(65)).unwrap();
    handler.handle(&mut stack, Instruction::I64Shl).unwrap();
    assert_eq!(stack.pop().unwrap(), Value::I64(2));
}

#[test]
fn error_variants_each_have_an_input() {
    assert_eq!(5i32.div_s(0), Err(Error::DivideByZero));
    assert_eq!(i64::MIN.div_s(-1), Err(Error::IntegerOverflow));
    let mut stack = Stack::new();
    assert_eq!(stack.pop(), Err(Error::StackUnderflow));
    let list: List<i32> = List::new();
    assert_eq!(list.get(3), Err(Error::IndexOutOfBounds(3)));
    let mut locals = Locals::new();
    locals.grow(Value::I32(0));
    assert_eq!(locals.set(&Index::Num(0), Value::I64(1)), Err(Error::TypeMismatch));
    locals.grow_by_id("x", Value::I32(0)).unwrap();
    assert_eq!(locals.grow_by_id("x", Value::I32(0)), Err(Error::KeyExists(String::from("x"))));
    assert_eq!(group_expr(vec![Instruction::End]).unwrap_err(), Error::UnexpectedEndOfBlock);
    assert_eq!(group_expr(vec![Instruction::Block(make_block_type(vec![], vec![]), None)]).unwrap_err(), Error::ExpectedEnd);
    let mut call_stack = CallStack::new();
    assert_eq!(call_stack.remove_func_stack(&func_type(vec![], vec![]), false), Err(Error::NoFunctionInStack));
    assert_eq!(call_stack.remove_block_stack(&func_type(vec![], vec![]), false), Err(Error::NoBlockInStack));
    call_stack.push(Value::I32(1)).unwrap();
    call_stack.add_block_stack(&func_type(vec![], vec![])).unwrap();
    call_stack.push(Value::I32(2)).unwrap();
    call_stack.push(Value::I32(3)).unwrap();
    assert_eq!(call_stack.remove_block_stack(&func_type(vec![], vec![ValType::I32]), true), Err(Error::TooManyReturns));
}

#[test]
fn executor_errors_each_have_an_input() {
    let mut executor = Executor::new();
    assert_eq!(run(&mut executor, make_line(vec![], vec![Instruction::Return])), Err(Error::ReturnOutsideFunc));
    assert_eq!(run(&mut executor, make_line(vec![], vec![Instruction::Br(Index::Num(1))])), Err(Error::BranchLeak));
    let f = make_func("f", vec![], vec![], vec![Instruction::Call(Index::Id(String::from("f")))]);
    run(&mut executor, f).unwrap();
    assert_eq!(run(&mut executor, make_line(vec![], vec![Instruction::Call(Index::Id(String::from("f")))])), Err(Error::StackOverflow));
    assert_eq!(state(&executor), "[]");
}

#[test]
fn executor_loop_branches_out() {
    let mut executor = Executor::new();
    let inner = block_instr(make_block_type(vec![], vec![]), vec![
        loop_instr(make_block_type(vec![], vec![]), vec![Instruction::Br(Index::Num(1))]),
    ]);
    assert_eq!(run(&mut executor, make_line(vec![], vec![Instruction::I32Const(4), inner])).unwrap(), "[4]");
}

#[test]
fn executor_block_label_branch() {
    let mut executor = Executor::new();
    let bt = BlockType { label: Some(String::from("out")), ty: func_type(vec![], vec![ValType::I32]) };
    let line = make_line(vec![], vec![block_instr(bt, vec![
        Instruction::I32Const(1),
        block_instr(make_block_type(vec![], vec![]), vec![Instruction::Br(Index::Id(String::from("out")))]),
        Instruction::I32Const(2),
    ])]);
    assert_eq!(run(&mut executor, line).unwrap(), "[1]");
}

#[test]
fn grouping_closes_loops_and_open_if() {
    let bt = make_block_type(vec![], vec![]);
    let e = group_expr(vec![Instruction::Loop(bt.clone(), None), Instruction::I32Const(1), Instruction::End]).unwrap();
    assert_eq!(e.instrs, vec![Instruction::Loop(bt.clone(), Some(Expression { instrs: vec![Instruction::I32Const(1)] }))]);
    assert_eq!(group_expr(vec![Instruction::Loop(bt.clone(), None), Instruction::Nop]), Err(Error::ExpectedEnd));
    let open_if = Instruction::If(make_block_type(vec![], vec![]), None, None);
    let e = group_expr(vec![open_if, Instruction::Nop]).unwrap();
    match &e.instrs[0] {
        Instruction::If(_, Some(t), Some(f)) => {
            assert_eq!(t.instrs, vec![Instruction::Nop]);
            assert!(f.instrs.is_empty());
        },
        _ => panic!("expected an if"),
    }
    assert!(is_grouped_line(&make_line(vec![], e.instrs)));
}

#[test]
fn preprocess_refers_to_the_instructions() {
    let instrs = vec![Instruction::If(make_block_type(vec![], vec![]), None, None), Instruction::Nop, Instruction::End];
    let chunk = preprocess(&instrs).unwrap();
    match &chunk.commands[0] {
        Command::If(a, b) => {
            assert_eq!(a.commands, vec![Command::Instr(&instrs[1])]);
            assert!(b.commands.is_empty());
        },
        _ => panic!("expected an if"),
    }
    assert_eq!(preprocess(&vec![Instruction::Else]).unwrap_err(), Error::UnexpectedEndOfBlock);
}

#[test]
fn skip_block_stops_after_closing_end() {
    let m = Instruction::If(make_block_type(vec![], vec![]), None, None);
    let instrs = vec![m.clone(), Instruction::Nop, m, Instruction::End, Instruction::End, Instruction::Nop];
    assert_eq!(skip_block(&instrs, 0), 5);
    assert_eq!(skip_block(&instrs, 5), 6);
    assert_eq!(skip_block(&instrs, 9), 10);
}

#[test]
fn integer_text_is_decimal() {
    assert_eq!(Integer::I32(-42).to_text(), "-42");
    assert_eq!(Integer::I64(i64::MIN).to_text(), "-9223372036854775808");
    assert_eq!(Integer::I32(0).to_text(), "0");
}

fn countdown_line() -> Line {
    let body = loop_instr(make_block_type(vec![], vec![]), vec![
        Instruction::LocalGet(test_index("n")),
        Instruction::I32Const(1),
        Instruction::I32Sub,
        Instruction::LocalTee(test_index("n")),
        Instruction::Call(test_index("twice")),
        Instruction::Drop,
        Instruction::LocalGet(test_index("n")),
        if_instr(make_block_type(vec![], vec![]), vec![Instruction::Br(Index::Num(1))], vec![]),
    ]);
    make_line(vec![local_id("n", ValType::I32)], vec![
        Instruction::I32Const(3),
        Instruction::LocalSet(test_index("n")),
        body,
        Instruction::LocalGet(test_index("n")),
    ])
}

fn twice_func() -> Line {
    make_func("twice", vec![local_id("x", ValType::I32)], vec![ValType::I32], vec![
        Instruction::LocalGet(test_index("x")),
        Instruction::LocalGet(test_index("x")),
        Instruction::I32Add,
    ])
}

#[test]
fn law_same_line_same_answer() {
    let mut first = Executor::new();
    let mut second = Executor::new();
    run(&mut first, twice_func()).unwrap();
    run(&mut second, twice_func()).unwrap();
    let a = run(&mut first, countdown_line());
    let b = run(&mut second, countdown_line());
    assert_eq!(a, b);
    assert_eq!(a.unwrap(), "local ;0; n\n[0]");
    assert_eq!(state(&first), state(&second));
}

#[test]
fn executor_duplicate_names_fail() {
    let mut executor = Executor::new();
    let dup = make_func("dup", vec![local_id("x", ValType::I32), local_id("x", ValType::I32)], vec![], vec![]);
    run(&mut executor, dup).unwrap();
    let call = make_line(vec![], vec![Instruction::I32Const(1), Instruction::I32Const(2), Instruction::Call(test_index("dup"))]);
    assert_eq!(run(&mut executor, call), Err(Error::KeyExists(String::from("x"))));
    let twice = make_line(vec![local_id("y", ValType::I64), local_id("y", ValType::I32)], vec![]);
    assert_eq!(run(&mut executor, twice), Err(Error::KeyExists(String::from("y"))));
    assert_eq!(state(&executor), "[]");
}

#[test]
fn grouped_loop_runs_until_it_branches_out() {
    let bt = make_block_type(vec![], vec![]);
    let flat = vec![
        Instruction::Loop(bt.clone(), None),
        Instruction::LocalGet(test_index("n")),
        Instruction::I32Const(1),
        Instruction::I32Add,
        Instruction::LocalTee(test_index("n")),
        Instruction::I32Const(5),
        Instruction::I32LtS,
        Instruction::If(bt.clone(), None, None),
        Instruction::Br(Index::Num(1)),
        Instruction::End,
        Instruction::End,
        Instruction::LocalGet(test_index("n")),
    ];
    let e = group_expr(flat).unwrap();
    let line = make_line(vec![local_id("n", ValType::I32)], e.instrs);
    assert!(is_grouped_line(&line));
    let mut executor = Executor::new();
    assert_eq!(run(&mut executor, line).unwrap(), "local ;0; n\n[5]");
}

#[test]
fn handler_float_operands_in_order() {
    let handler = Handler::new(&HostFloats);
    let mut stack = FuncStack::new();
    stack.push(Value::F32(5.0f32.to_bits())).unwrap();
    stack.push(Value::F32(2.0f32.to_bits())).unwrap();
    handler.handle(&mut stack, Instruction::F32Sub).unwrap();
    assert_eq!(stack.pop().unwrap(), Value::F32(3.0f32.to_bits()));
    stack.push(Value::F64(7.0f64.to_bits())).unwrap();
    stack.push(Value::F64(2.0f64.to_bits())).unwrap();
    handler.handle(&mut stack, Instruction::F64Div).unwrap();
    assert_eq!(stack.pop().unwrap(), Value::F64(3.5f64.to_bits()));
    stack.push(Value::F32(4.0f32.to_bits())).unwrap();
    handler.handle(&mut stack, Instruction::F32Sqrt).unwrap();
    assert_eq!(stack.pop().unwrap(), Value::F32(2.0f32.to_bits()));
}

fn listed(instrs: &[Instruction], out: &mut Vec<Instruction>) {
    for i in instrs {
        match i {
            Instruction::If(bt, t, e) => {
                out.push(Instruction::If(bt.clone(), None, None));
                listed(&t.as_ref().unwrap().instrs, out);
                listed(&e.as_ref().unwrap().instrs, out);
            }
            Instruction::Block(bt, b) => {
                out.push(Instruction::Block(bt.clone(), None));
                listed(&b.as_ref().unwrap().instrs, out);
            }
            Instruction::Loop(bt, b) => {
                out.push(Instruction::Loop(bt.clone(), None));
                listed(&b.as_ref().unwrap().instrs, out);
            }
            other => out.push(other.clone()),
        }
    }
}

#[test]
fn grouping_drops_only_else_and_end_and_keeps_order() {
    let bt = make_block_type(vec![], vec![]);
    let input = vec![
        Instruction::I32Const(1),
        Instruction::If(bt.clone(), None, None),
        Instruction::I32Const(2),
        Instruction::Block(bt.clone(), None),
        Instruction::Nop,
        Instruction::End,
        Instruction::Else,
        Instruction::Loop(bt.clone(), None),
        Instruction::I32Const(3),
        Instruction::End,
        Instruction::End,
        Instruction::I32Const(4),
        Instruction::If(bt.clone(), None, None),
        Instruction::Drop,
    ];
    let expected: Vec<Instruction> = input
        .iter()
        .filter(|i| !matches!(i, Instruction::Else | Instruction::End))
        .cloned()
        .collect();
    let e = group_expr(input).unwrap();
    let mut out = Vec::new();
    listed(&e.instrs, &mut out);
    assert_eq!(out, expected);
    assert_eq!(e.instrs.len(), 4);
}
