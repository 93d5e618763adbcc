use wasmrepl::model::{BlockType, FuncType, Instruction};
use wasmrepl::preprocessor::{preprocess, Command};

fn if_marker() -> Instruction {
    Instruction::If(BlockType { label: None, ty: FuncType { params: vec![], results: vec![] } }, None, None)
}

#[test]
fn preprocessor_test_simple() {
    let instrs = vec![Instruction::I32Const(1), Instruction::I32Const(5)];

    let chunk = preprocess(&instrs).unwrap();
    assert_eq!(chunk.commands.len(), 2);
    assert_eq!(chunk.commands[0], Command::Instr(&Instruction::I32Const(1)));
    assert_eq!(chunk.commands[1], Command::Instr(&Instruction::I32Const(5)));
}

#[test]
fn preprocessor_test_if_else() {
    let instrs = vec![
        Instruction::I32Const(1),
        if_marker(),
        Instruction::I32Const(2),
        Instruction::I32Const(3),
        Instruction::Else,
        Instruction::I32Const(4),
        Instruction::End,
        Instruction::I32Const(5),
    ];

    let chunk = preprocess(&instrs).unwrap();
    assert_eq!(chunk.commands.len(), 3);
    assert_eq!(chunk.commands[0], Command::Instr(&Instruction::I32Const(1)));

    let (ifch, elsech) = match &chunk.commands[1] {
        Command::If(ifch, elsech) => (ifch, elsech),
        _ => panic!("Expected Command::If"),
    };

    assert!(ifch.commands.len() == 2);
    assert_eq!(ifch.commands[0], Command::Instr(&Instruction::I32Const(2)));
    assert_eq!(ifch.commands[1], Command::Instr(&Instruction::I32Const(3)));

    assert!(elsech.commands.len() == 1);
    assert_eq!(
        elsech.commands[0],
        Command::Instr(&Instruction::I32Const(4))
    );
}

#[test]
fn preprocessor_test_only_if() {
    let instrs = vec![
        Instruction::I32Const(1),
        if_marker(),
        Instruction::I32Const(2),
        Instruction::I32Const(3),
        Instruction::End,
        Instruction::I32Const(5),
    ];

    let chunk = preprocess(&instrs).unwrap();
    assert_eq!(chunk.commands.len(), 3);
    assert_eq!(chunk.commands[0], Command::Instr(&Instruction::I32Const(1)));

    let (ifch, elsech) = match &chunk.commands[1] {
        Command::If(ifch, elsech) => (ifch, elsech),
        _ => panic!("Expected Command::If"),
    };

    assert!(ifch.commands.len() == 2);
    assert_eq!(ifch.commands[0], Command::Instr(&Instruction::I32Const(2)));
    assert_eq!(ifch.commands[1], Command::Instr(&Instruction::I32Const(3)));

    assert!(elsech.commands.len() == 0);
}

#[test]
fn preprocessor_test_only_end_error() {
    let instrs = vec![
        Instruction::I32Const(1),
        Instruction::I32Const(5),
        Instruction::End,
    ];

    assert!(preprocess(&instrs).is_err());
}

#[test]
fn preprocessor_test_only_else_error() {
    let instrs = vec![
        Instruction::I32Const(1),
        Instruction::Else,
        Instruction::I32Const(5),
    ];

    assert!(preprocess(&instrs).is_err());
}

#[test]
fn preprocessor_test_nested_end_error() {
    let instrs = vec![
        Instruction::I32Const(1),
        if_marker(),
        Instruction::I32Const(2),
        Instruction::End,
        Instruction::I32Const(3),
        Instruction::Else,
        Instruction::I32Const(4),
        Instruction::End,
        Instruction::I32Const(5),
    ];

    assert!(preprocess(&instrs).is_err());
}

#[test]
fn preprocessor_test_if_no_end_error() {
    let instrs = vec![
        Instruction::I32Const(1),
        if_marker(),
        Instruction::I32Const(2),
        Instruction::I32Const(3),
        Instruction::Else,
        Instruction::I32Const(4),
        Instruction::I32Const(5),
    ];

    assert!(preprocess(&instrs).is_err());
}
