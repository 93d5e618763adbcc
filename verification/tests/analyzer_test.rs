use wasmrepl::analyzer::skip_block;
use wasmrepl::model::{BlockType, FuncType, Instruction};

fn if_marker() -> Instruction {
    Instruction::If(BlockType { label: None, ty: FuncType { params: vec![], results: vec![] } }, None, None)
}

#[test]
fn test_skip_block() {
    let instrs = vec![
        Instruction::I32Const(1),
        if_marker(),
        Instruction::I32Const(2),
        Instruction::I32Const(3),
        Instruction::Else,
        Instruction::I32Const(4),
        Instruction::I32Const(5),
        Instruction::I32Const(6),
        Instruction::End,
        Instruction::I32Const(7),
    ];

    assert_eq!(skip_block(&instrs, 1), 5);
    assert_eq!(skip_block(&instrs, 4), 9);
}

#[test]
fn test_skip_nested_if_block() {
    let instrs = vec![
        Instruction::I32Const(1),
        if_marker(),
        Instruction::I32Const(2),
        Instruction::I32Const(3),
        Instruction::Else,
        Instruction::I32Const(4),
        if_marker(),
        Instruction::I32Const(5),
        Instruction::I32Const(6),
        Instruction::Else,
        Instruction::I32Const(7),
        Instruction::I32Const(8),
        Instruction::End,
        Instruction::I32Const(9),
        Instruction::End,
        Instruction::I32Const(10),
    ];

    assert_eq!(skip_block(&instrs, 1), 5);
    assert_eq!(skip_block(&instrs, 4), 15);
}

#[test]
fn test_skip_if_without_else() {
    let instrs = vec![
        Instruction::I32Const(1),
        if_marker(),
        Instruction::I32Const(2),
        Instruction::I32Const(3),
        Instruction::I32Const(4),
        Instruction::End,
        Instruction::I32Const(5),
    ];

    assert_eq!(skip_block(&instrs, 1), 6);
    assert_eq!(skip_block(&instrs, 5), 7);
}
