//! The program model the engine executes: value types, function types,
//! indices and instructions.
use vstd::prelude::*;

verus! {

/// The value types the engine supports.
#[derive(Debug, Clone, Copy, PartialEq, Eq, Structural)]
pub enum ValType {
    I32,
    I64,
    F32,
    F64,
}

/// A reference to a local or a function: by name or by position.
#[derive(Debug, PartialEq, Eq)]
pub enum Index {
    Id(String),
    Num(u32),
}

/// A parameter or local declaration: an optional name and a type.
#[derive(Debug, PartialEq, Eq)]
pub struct Local {
    pub id: Option<String>,
    pub val_type: ValType,
}

/// The parameters and results of a function or a block.
#[derive(Debug, PartialEq, Eq)]
pub struct FuncType {
    pub params: Vec<Local>,
    pub results: Vec<ValType>,
}

/// The type of a structured instruction, with its optional label.
#[derive(Debug, PartialEq, Eq)]
pub struct BlockType {
    pub label: Option<String>,
    pub ty: FuncType,
}

/// A sequence of instructions.
#[derive(Debug, PartialEq, Eq)]
pub struct Expression {
    pub instrs: Vec<Instruction>,
}

/// The instructions the engine supports.
#[derive(Debug, PartialEq, Eq)]
pub enum Instruction {
    Drop,
    I32Const(i32),
    I32Clz,
    I32Ctz,
    I32Popcnt,
    I32Add,
    I32Sub,
    I32Mul,
    I32DivS,
    I32DivU,
    I32RemS,
    I32RemU,
    I32And,
    I32Or,
    I32Xor,
    I32Shl,
    I32ShrS,
    I32ShrU,
    I32Rotl,
    I32Rotr,
    I32Eqz,
    I32Eq,
    I32Ne,
    I32LtS,
    I32LtU,
    I32GtS,
    I32GtU,
    I32LeS,
    I32LeU,
    I32GeS,
    I32GeU,
    I64Const(i64),
    I64Clz,
    I64Ctz,
    I64Popcnt,
    I64Add,
    I64Sub,
    I64Mul,
    I64DivS,
    I64DivU,
    I64RemS,
    I64RemU,
    I64And,
    I64Or,
    I64Xor,
    I64Shl,
    I64ShrS,
    I64ShrU,
    I64Rotl,
    I64Rotr,
    I64Eqz,
    I64Eq,
    I64Ne,
    I64LtS,
    I64LtU,
    I64GtS,
    I64GtU,
    I64LeS,
    I64LeU,
    I64GeS,
    I64GeU,
    /// A 32-bit float constant, as its IEEE-754 bit pattern.
    F32Const(u32),
    F32Abs,
    F32Neg,
    F32Ceil,
    F32Floor,
    F32Trunc,
    F32Nearest,
    F32Sqrt,
    F32Add,
    F32Sub,
    F32Mul,
    F32Div,
    F32Min,
    F32Max,
    F32Copysign,
    F32Eq,
    F32Ne,
    F32Lt,
    F32Gt,
    F32Le,
    F32Ge,
    /// A 64-bit float constant, as its IEEE-754 bit pattern.
    F64Const(u64),
    F64Abs,
    F64Neg,
    F64Ceil,
    F64Floor,
    F64Trunc,
    F64Nearest,
    F64Sqrt,
    F64Add,
    F64Sub,
    F64Mul,
    F64Div,
    F64Min,
    F64Max,
    F64Copysign,
    F64Eq,
    F64Ne,
    F64Lt,
    F64Gt,
    F64Le,
    F64Ge,
    LocalGet(Index),
    LocalSet(Index),
    LocalTee(Index),
    Call(Index),
    Return,
    Nop,
    /// `if`: its type, then (once grouped) the `then` and the `else` body.
    If(BlockType, Option<Expression>, Option<Expression>),
    /// The `else` marker of a flat instruction sequence.
    Else,
    /// The `end` marker of a flat instruction sequence.
    End,
    /// `block`: its type, then (once grouped) its body.
    Block(BlockType, Option<Expression>),
    /// `loop`: its type, then (once grouped) its body.
    Loop(BlockType, Option<Expression>),
    Br(Index),
}

/// The locals a line declares and the expression it runs.
#[derive(Debug, PartialEq, Eq)]
pub struct LineExpression {
    pub locals: Vec<Local>,
    pub expr: Expression,
}

/// A function definition.
#[derive(Debug, PartialEq, Eq)]
pub struct Func {
    pub id: Option<String>,
    pub ty: FuncType,
    pub line_expression: LineExpression,
}

/// One line of REPL input: an expression to run, or a function to define.
#[derive(Debug, PartialEq, Eq)]
pub enum Line {
    Expression(LineExpression),
    Func(Func),
}


/// An instruction ready to run: every structured instruction in it has its
/// bodies, and no bare `else` or `end` is left.
pub open spec fn grouped_instr(i: Instruction) -> bool
    decreases i,
{
    match i {
        Instruction::Else => false,
        Instruction::End => false,
        Instruction::If(_, t, e) => match (t, e) {
            (Some(tb), Some(eb)) => {
                proof {
                    assert(decreases_to!(tb.instrs => tb.instrs@));
                    assert(decreases_to!(eb.instrs => eb.instrs@));
                }
                grouped_instrs(tb.instrs@) && grouped_instrs(eb.instrs@)
            },
            _ => false,
        },
        Instruction::Block(_, b) => match b {
            Some(body) => {
                proof {
                    assert(decreases_to!(body.instrs => body.instrs@));
                }
                grouped_instrs(body.instrs@)
            },
            None => false,
        },
        Instruction::Loop(_, b) => match b {
            Some(body) => {
                proof {
                    assert(decreases_to!(body.instrs => body.instrs@));
                }
                grouped_instrs(body.instrs@)
            },
            None => false,
        },
        _ => true,
    }
}

/// Every instruction of the sequence is ready to run.
pub open spec fn grouped_instrs(s: Seq<Instruction>) -> bool
    decreases s,
{
    if s.len() == 0 {
        true
    } else {
        grouped_instrs(s.drop_last()) && grouped_instr(s.last())
    }
}

/// Every instruction of the expression is ready to run.
pub open spec fn grouped_expr(e: Expression) -> bool {
    grouped_instrs(e.instrs@)
}

/// A sequence is ready to run exactly when each of its instructions is.
pub proof fn lemma_grouped_instrs(s: Seq<Instruction>)
    ensures
        grouped_instrs(s) <==> forall|k: int| 0 <= k < s.len() ==> #[trigger] grouped_instr(s[k]),
    decreases s.len(),
{
    if s.len() > 0 {
        let d = s.drop_last();
        lemma_grouped_instrs(d);
        if grouped_instrs(s) {
            assert forall|k: int| 0 <= k < s.len() implies #[trigger] grouped_instr(s[k]) by {
                if k < s.len() - 1 {
                    assert(d[k] == s[k]);
                    assert(grouped_instr(d[k]));
                }
            }
        }
        if forall|k: int| 0 <= k < s.len() ==> #[trigger] grouped_instr(s[k]) {
            assert forall|k: int| 0 <= k < d.len() implies #[trigger] grouped_instr(d[k]) by {
                assert(d[k] == s[k]);
                assert(grouped_instr(s[k]));
            }
            assert(grouped_instr(s[s.len() - 1]));
        }
    }
}

/// Each instruction of an expression that is ready to run is ready to run.
pub proof fn lemma_grouped_at(e: Expression, k: int)
    requires
        grouped_expr(e),
        0 <= k < e.instrs@.len(),
    ensures
        grouped_instr(e.instrs@[k]),
{
    lemma_grouped_instrs(e.instrs@);
}

/// The expression of a line (or the body of the function it defines) is
/// ready to run.
pub open spec fn grouped_line(l: Line) -> bool {
    match l {
        Line::Expression(le) => grouped_expr(le.expr),
        Line::Func(f) => grouped_expr(f.line_expression.expr),
    }
}

/// Whether an instruction is ready to run.
pub fn is_grouped_instr(i: &Instruction) -> (b: bool)
    ensures
        b == grouped_instr(*i),
    decreases *i, 1nat,
{
    proof {
        match i {
            Instruction::If(_, Some(tb), Some(eb)) => {
                lemma_grouped_instrs(tb.instrs@);
                lemma_grouped_instrs(eb.instrs@);
            },
            Instruction::Block(_, Some(b)) => lemma_grouped_instrs(b.instrs@),
            Instruction::Loop(_, Some(b)) => lemma_grouped_instrs(b.instrs@),
            _ => {},
        }
    }
    match i {
        Instruction::Else => false,
        Instruction::End => false,
        Instruction::If(_, t, e) => match (t, e) {
            (Some(tb), Some(eb)) => is_grouped_expr(tb) && is_grouped_expr(eb),
            _ => false,
        },
        Instruction::Block(_, b) => match b {
            Some(body) => is_grouped_expr(body),
            None => false,
        },
        Instruction::Loop(_, b) => match b {
            Some(body) => is_grouped_expr(body),
            None => false,
        },
        _ => true,
    }
}

/// Whether every instruction of an expression is ready to run.
pub fn is_grouped_expr(e: &Expression) -> (b: bool)
    ensures
        b == grouped_expr(*e),
    decreases *e, 0nat,
{
    proof {
        lemma_grouped_instrs(e.instrs@);
    }
    let mut i: usize = 0;
    while i < e.instrs.len()
        invariant
            i <= e.instrs@.len(),
            forall|k: int| 0 <= k < i ==> #[trigger] grouped_instr(e.instrs@[k]),
            grouped_expr(*e) <==> forall|k: int| 0 <= k < e.instrs@.len() ==> #[trigger] grouped_instr(e.instrs@[k]),
        decreases e.instrs@.len() - i,
    {
        assert(decreases_to!(e.instrs => e.instrs@));
        assert(decreases_to!(e.instrs@ => e.instrs@[i as int]));
        if !is_grouped_instr(&e.instrs[i]) {
            assert(!grouped_instr(e.instrs@[i as int]));
            return false;
        }
        i = i + 1;
    }
    true
}

/// Whether the expression of a line is ready to run.
pub fn is_grouped_line(l: &Line) -> (b: bool)
    ensures
        b == grouped_line(*l),
{
    match l {
        Line::Expression(le) => is_grouped_expr(&le.expr),
        Line::Func(f) => is_grouped_expr(&f.line_expression.expr),
    }
}

impl Clone for Index {
    fn clone(&self) -> (r: Index)
        ensures
            r == *self,
    {
        match self {
            Index::Id(s) => Index::Id(s.clone()),
            Index::Num(n) => Index::Num(*n),
        }
    }
}

fn clone_name(s: &Option<String>) -> (r: Option<String>)
    ensures
        r == *s,
{
    match s {
        Some(x) => Some(x.clone()),
        None => None,
    }
}

impl Clone for Local {
    fn clone(&self) -> (r: Local)
        ensures
            r == *self,
    {
        Local { id: clone_name(&self.id), val_type: self.val_type }
    }
}

impl Clone for FuncType {
    fn clone(&self) -> (r: FuncType)
        ensures
            r.params@ == self.params@,
            r.results@ == self.results@,
    {
        let mut params: Vec<Local> = Vec::new();
        let mut i: usize = 0;
        while i < self.params.len()
            invariant
                i <= self.params@.len(),
                params@ == self.params@.subrange(0, i as int),
            decreases self.params@.len() - i,
        {
            params.push(self.params[i].clone());
            assert(self.params@.subrange(0, i + 1) == self.params@.subrange(0, i as int).push(self.params@[i as int]));
            i = i + 1;
        }
        let mut results: Vec<ValType> = Vec::new();
        let mut j: usize = 0;
        while j < self.results.len()
            invariant
                j <= self.results@.len(),
                results@ == self.results@.subrange(0, j as int),
            decreases self.results@.len() - j,
        {
            results.push(self.results[j]);
            assert(self.results@.subrange(0, j + 1) == self.results@.subrange(0, j as int).push(self.results@[j as int]));
            j = j + 1;
        }
        assert(params@ == self.params@);
        assert(results@ == self.results@);
        FuncType { params, results }
    }
}

impl Clone for BlockType {
    fn clone(&self) -> (r: BlockType)
        ensures
            r.label == self.label,
            r.ty.params@ == self.ty.params@,
            r.ty.results@ == self.ty.results@,
    {
        BlockType { label: clone_name(&self.label), ty: self.ty.clone() }
    }
}

fn clone_instrs(instrs: &Vec<Instruction>) -> (r: Vec<Instruction>)
    ensures
        r@.len() == instrs@.len(),
        forall|k: int| 0 <= k < instrs@.len() && grouped_instr(instrs@[k]) ==> #[trigger] grouped_instr(r@[k]),
    decreases instrs@, 1nat,
{
    let mut out: Vec<Instruction> = Vec::new();
    let mut i: usize = 0;
    while i < instrs.len()
        invariant
            i <= instrs@.len(),
            out@.len() == i,
            forall|k: int| 0 <= k < i && grouped_instr(instrs@[k]) ==> #[trigger] grouped_instr(out@[k]),
        decreases instrs@.len() - i,
    {
        assert(decreases_to!(instrs@ => instrs@[i as int]));
        out.push(clone_instr(&instrs[i]));
        i = i + 1;
    }
    out
}

fn clone_body(e: &Option<Expression>) -> (r: Option<Expression>)
    ensures
        r is Some <==> e is Some,
        (*e matches Some(x) && grouped_expr(x)) ==> (r matches Some(y) && grouped_expr(y)),
    decreases *e, 0nat,
{
    match e {
        Some(x) => {
            assert(decreases_to!(x.instrs => x.instrs@));
            let instrs = clone_instrs(&x.instrs);
            proof {
                lemma_grouped_instrs(instrs@);
                if grouped_expr(*x) {
                    assert forall|k: int| 0 <= k < instrs@.len() implies #[trigger] grouped_instr(instrs@[k]) by {
                        lemma_grouped_at(*x, k);
                    }
                }
            }
            Some(Expression { instrs })
        },
        None => None,
    }
}

fn clone_instr(instr: &Instruction) -> (r: Instruction)
    ensures
        grouped_instr(*instr) ==> grouped_instr(r),
        !(*instr is If) && !(*instr is Block) && !(*instr is Loop) ==> r == *instr,
    decreases *instr, 0nat,
{
    match instr {
            Instruction::Drop => Instruction::Drop,
            Instruction::I32Const(a0) => Instruction::I32Const(*a0),
            Instruction::I32Clz => Instruction::I32Clz,
            Instruction::I32Ctz => Instruction::I32Ctz,
            Instruction::I32Popcnt => Instruction::I32Popcnt,
            Instruction::I32Add => Instruction::I32Add,
            Instruction::I32Sub => Instruction::I32Sub,
            Instruction::I32Mul => Instruction::I32Mul,
            Instruction::I32DivS => Instruction::I32DivS,
            Instruction::I32DivU => Instruction::I32DivU,
            Instruction::I32RemS => Instruction::I32RemS,
            Instruction::I32RemU => Instruction::I32RemU,
            Instruction::I32And => Instruction::I32And,
            Instruction::I32Or => Instruction::I32Or,
            Instruction::I32Xor => Instruction::I32Xor,
            Instruction::I32Shl => Instruction::I32Shl,
            Instruction::I32ShrS => Instruction::I32ShrS,
            Instruction::I32ShrU => Instruction::I32ShrU,
            Instruction::I32Rotl => Instruction::I32Rotl,
            Instruction::I32Rotr => Instruction::I32Rotr,
            Instruction::I32Eqz => Instruction::I32Eqz,
            Instruction::I32Eq => Instruction::I32Eq,
            Instruction::I32Ne => Instruction::I32Ne,
            Instruction::I32LtS => Instruction::I32LtS,
            Instruction::I32LtU => Instruction::I32LtU,
            Instruction::I32GtS => Instruction::I32GtS,
            Instruction::I32GtU => Instruction::I32GtU,
            Instruction::I32LeS => Instruction::I32LeS,
            Instruction::I32LeU => Instruction::I32LeU,
            Instruction::I32GeS => Instruction::I32GeS,
            Instruction::I32GeU => Instruction::I32GeU,
            Instruction::I64Const(a0) => Instruction::I64Const(*a0),
            Instruction::I64Clz => Instruction::I64Clz,
            Instruction::I64Ctz => Instruction::I64Ctz,
            Instruction::I64Popcnt => Instruction::I64Popcnt,
            Instruction::I64Add => Instruction::I64Add,
            Instruction::I64Sub => Instruction::I64Sub,
            Instruction::I64Mul => Instruction::I64Mul,
            Instruction::I64DivS => Instruction::I64DivS,
            Instruction::I64DivU => Instruction::I64DivU,
            Instruction::I64RemS => Instruction::I64RemS,
            Instruction::I64RemU => Instruction::I64RemU,
            Instruction::I64And => Instruction::I64And,
            Instruction::I64Or => Instruction::I64Or,
            Instruction::I64Xor => Instruction::I64Xor,
            Instruction::I64Shl => Instruction::I64Shl,
            Instruction::I64ShrS => Instruction::I64ShrS,
            Instruction::I64ShrU => Instruction::I64ShrU,
            Instruction::I64Rotl => Instruction::I64Rotl,
            Instruction::I64Rotr => Instruction::I64Rotr,
            Instruction::I64Eqz => Instruction::I64Eqz,
            Instruction::I64Eq => Instruction::I64Eq,
            Instruction::I64Ne => Instruction::I64Ne,
            Instruction::I64LtS => Instruction::I64LtS,
            Instruction::I64LtU => Instruction::I64LtU,
            Instruction::I64GtS => Instruction::I64GtS,
            Instruction::I64GtU => Instruction::I64GtU,
            Instruction::I64LeS => Instruction::I64LeS,
            Instruction::I64LeU => Instruction::I64LeU,
            Instruction::I64GeS => Instruction::I64GeS,
            Instruction::I64GeU => Instruction::I64GeU,
            Instruction::F32Const(a0) => Instruction::F32Const(*a0),
            Instruction::F32Abs => Instruction::F32Abs,
            Instruction::F32Neg => Instruction::F32Neg,
            Instruction::F32Ceil => Instruction::F32Ceil,
            Instruction::F32Floor => Instruction::F32Floor,
            Instruction::F32Trunc => Instruction::F32Trunc,
            Instruction::F32Nearest => Instruction::F32Nearest,
            Instruction::F32Sqrt => Instruction::F32Sqrt,
            Instruction::F32Add => Instruction::F32Add,
            Instruction::F32Sub => Instruction::F32Sub,
            Instruction::F32Mul => Instruction::F32Mul,
            Instruction::F32Div => Instruction::F32Div,
            Instruction::F32Min => Instruction::F32Min,
            Instruction::F32Max => Instruction::F32Max,
            Instruction::F32Copysign => Instruction::F32Copysign,
            Instruction::F32Eq => Instruction::F32Eq,
            Instruction::F32Ne => Instruction::F32Ne,
            Instruction::F32Lt => Instruction::F32Lt,
            Instruction::F32Gt => Instruction::F32Gt,
            Instruction::F32Le => Instruction::F32Le,
            Instruction::F32Ge => Instruction::F32Ge,
            Instruction::F64Const(a0) => Instruction::F64Const(*a0),
            Instruction::F64Abs => Instruction::F64Abs,
            Instruction::F64Neg => Instruction::F64Neg,
            Instruction::F64Ceil => Instruction::F64Ceil,
            Instruction::F64Floor => Instruction::F64Floor,
            Instruction::F64Trunc => Instruction::F64Trunc,
            Instruction::F64Nearest => Instruction::F64Nearest,
            Instruction::F64Sqrt => Instruction::F64Sqrt,
            Instruction::F64Add => Instruction::F64Add,
            Instruction::F64Sub => Instruction::F64Sub,
            Instruction::F64Mul => Instruction::F64Mul,
            Instruction::F64Div => Instruction::F64Div,
            Instruction::F64Min => Instruction::F64Min,
            Instruction::F64Max => Instruction::F64Max,
            Instruction::F64Copysign => Instruction::F64Copysign,
            Instruction::F64Eq => Instruction::F64Eq,
            Instruction::F64Ne => Instruction::F64Ne,
            Instruction::F64Lt => Instruction::F64Lt,
            Instruction::F64Gt => Instruction::F64Gt,
            Instruction::F64Le => Instruction::F64Le,
            Instruction::F64Ge => Instruction::F64Ge,
            Instruction::LocalGet(a0) => Instruction::LocalGet(a0.clone()),
            Instruction::LocalSet(a0) => Instruction::LocalSet(a0.clone()),
            Instruction::LocalTee(a0) => Instruction::LocalTee(a0.clone()),
            Instruction::Call(a0) => Instruction::Call(a0.clone()),
            Instruction::Return => Instruction::Return,
            Instruction::Nop => Instruction::Nop,
            Instruction::If(a0, a1, a2) => Instruction::If(a0.clone(), clone_body(a1), clone_body(a2)),
            Instruction::Else => Instruction::Else,
            Instruction::End => Instruction::End,
            Instruction::Block(a0, a1) => Instruction::Block(a0.clone(), clone_body(a1)),
            Instruction::Loop(a0, a1) => Instruction::Loop(a0.clone(), clone_body(a1)),
            Instruction::Br(a0) => Instruction::Br(a0.clone()),
    }
}

impl Clone for Expression {
    fn clone(&self) -> (r: Expression)
        ensures
            r.instrs@.len() == self.instrs@.len(),
            grouped_expr(*self) ==> grouped_expr(r),
    {
        let instrs = clone_instrs(&self.instrs);
        proof {
            lemma_grouped_instrs(instrs@);
            if grouped_expr(*self) {
                assert forall|k: int| 0 <= k < instrs@.len() implies #[trigger] grouped_instr(instrs@[k]) by {
                    lemma_grouped_at(*self, k);
                }
            }
        }
        Expression { instrs }
    }
}

impl Clone for Instruction {
    fn clone(&self) -> (r: Instruction)
        ensures
            grouped_instr(*self) ==> grouped_instr(r),
            !(*self is If) && !(*self is Block) && !(*self is Loop) ==> r == *self,
    {
        clone_instr(self)
    }
}

impl Clone for LineExpression {
    fn clone(&self) -> (r: LineExpression)
        ensures
            r.locals@ == self.locals@,
    {
        let mut locals: Vec<Local> = Vec::new();
        let mut i: usize = 0;
        while i < self.locals.len()
            invariant
                i <= self.locals@.len(),
                locals@ == self.locals@.subrange(0, i as int),
            decreases self.locals@.len() - i,
        {
            locals.push(self.locals[i].clone());
            assert(self.locals@.subrange(0, i + 1) == self.locals@.subrange(0, i as int).push(self.locals@[i as int]));
            i = i + 1;
        }
        assert(locals@ == self.locals@);
        LineExpression { locals, expr: self.expr.clone() }
    }
}

impl Clone for Func {
    fn clone(&self) -> (r: Func)
        ensures
            r.id == self.id,
            r.ty.params@ == self.ty.params@,
            r.ty.results@ == self.ty.results@,
            r.line_expression.locals@ == self.line_expression.locals@,
    {
        Func { id: clone_name(&self.id), ty: self.ty.clone(), line_expression: self.line_expression.clone() }
    }
}

} // verus!
