//! The meaning of running code, as an abstract machine over plain values.
//!
//! A machine state is a sequence of frames, the innermost last; a frame holds
//! the value stacks of the blocks it entered (innermost last), its locals and
//! the names of its locals. Running code from a state with some fuel gives
//! the state and fuel afterwards and an outcome: a control transfer together
//! with whether the enclosing block must end with exactly its results, or an
//! error. After an error the state does not matter (a failed line is rolled
//! back). Every block entered, loop iteration and function call burns one
//! unit of fuel; with none left the run fails with `ExecutionLimit`.
//!
//! Float arithmetic is supplied by the embedding program; a run fixes the
//! requests it makes of it, and takes the answers as an input, in order.
use vstd::prelude::*;
use crate::call_stack::{dup_name, param_ids, param_types, take_failure, take_ok, top_n, types_match, CallStack, FuncStack};
use crate::elements::resolve;
use crate::error::Error;
use crate::handler::{answer_value, float_taken, handled, int_effect, is_float_op, popped_i32, slot_for};
use crate::ops::FloatCall;
use crate::model::{BlockType, Expression, Func, FuncType, Index, Instruction, LineExpression, Local};
use crate::response::{Control, Response};
use crate::value::{zero_of, Value};
use crate::executor::MAX_STACK_SIZE;

verus! {

/// The contents of a call frame.
pub struct Frame {
    /// The values of each block entered, outermost first.
    pub blocks: Seq<Seq<Value>>,
    /// The values of the locals, in order of declaration.
    pub locals: Seq<Value>,
    /// The names of the locals, with their positions.
    pub ids: Map<Seq<char>, usize>,
}

/// What a run ends with: a control transfer and whether the block it ends
/// must hold exactly its results; or an error.
pub type Outcome = Result<(Control, bool), Error>;

/// The contents of a frame of the call stack.
pub open spec fn frame_of(f: FuncStack) -> Frame {
    Frame { blocks: f.blocks_view(), locals: f.locals.current(), ids: f.locals.current_ids() }
}

/// The machine state a call stack holds.
pub open spec fn frames_of(cs: CallStack) -> Seq<Frame> {
    cs.funcs@.map_values(|f: FuncStack| frame_of(f))
}

/// "Go on with the next instruction."
pub open spec fn proceed() -> Outcome {
    Ok((Control::Proceed, true))
}

/// The frame with the values of its innermost block replaced by `t`.
pub open spec fn with_top(fr: Frame, t: Seq<Value>) -> Frame {
    Frame { blocks: fr.blocks.update(fr.blocks.len() - 1, t), locals: fr.locals, ids: fr.ids }
}

/// What a run consults besides the machine state: the functions defined,
/// their names, and the requests made of the float arithmetic with the
/// answers it gave, in the order the run makes them.
pub struct Env {
    /// The functions, in order of definition.
    pub funcs: Seq<Func>,
    /// The names of the functions, with their positions.
    pub fids: Map<Seq<char>, usize>,
    /// The requests made of the float arithmetic, in order, with its
    /// answers.
    pub answers: Seq<FloatCall>,
}

/// A run: the state, the fuel left, how many requests of the float
/// arithmetic it has made, and the outcome; `None` when the recorded requests
/// are not the ones the run makes, or run out, or an answer does not fit (or
/// the code is not ready to run).
pub type Run = Option<(Seq<Frame>, nat, nat, Outcome)>;

/// The float requests and answers `ans` stand at position `k` of `answers`.
pub open spec fn answers_at(answers: Seq<FloatCall>, k: nat, ans: Seq<FloatCall>) -> bool {
    &&& k + ans.len() <= answers.len()
    &&& answers.subrange(k as int, (k + ans.len()) as int) == ans
}

/// Two errors are the same failure: the same variant, with names of the
/// same text.
pub open spec fn same_error(a: Error, b: Error) -> bool {
    match (a, b) {
        (Error::KeyNotFound(x), Error::KeyNotFound(y)) => x@ == y@,
        (Error::KeyExists(x), Error::KeyExists(y)) => x@ == y@,
        _ => a == b,
    }
}

/// An answer of the engine agrees with the outcome `expected`: the same
/// control transfer, or the same failure.
pub open spec fn agrees(r: Result<Response, Error>, expected: Outcome) -> bool {
    match (r, expected) {
        (Ok(resp), Ok(x)) => (resp.control, resp.requires_empty) == x,
        (Err(a), Err(b)) => same_error(a, b),
        _ => false,
    }
}

/// The engine's answer `r`, leaving the state `after` and the fuel `fuel`
/// after using float answers up to position `used`, is the run `run`.
pub open spec fn follows(run: Run, after: Seq<Frame>, fuel: nat, used: nat, r: Result<Response, Error>) -> bool {
    match run {
        Some((s2, f2, k2, res)) => agrees(r, res) && (r is Ok ==> after == s2 && fuel == f2 && used == k2),
        None => false,
    }
}

/// The failure of a reference that denotes nothing.
pub open spec fn lookup_error(index: Index) -> Error {
    match index {
        Index::Id(s) => Error::KeyNotFound(s),
        Index::Num(n) => Error::IndexOutOfBounds(n as usize),
    }
}

/// The failure of an assignment through `index` that finds no slot for it.
pub open spec fn store_error(ids: Map<Seq<char>, usize>, locals: Seq<Value>, index: Index) -> Error {
    match resolve(ids, index) {
        Some(k) => if 0 <= k < locals.len() { Error::TypeMismatch } else { lookup_error(index) },
        None => lookup_error(index),
    }
}

/// One instruction on the innermost frame `fr`, with the float requests and
/// answers from position `k` on: the frame afterwards, the position of the
/// next one and the outcome. A float operation that can take its operands
/// must find its own request (`float_taken`) at position `k`, and pushes the
/// value of its answer. `None` when the request there is another, or the
/// answer is of another kind, or there is none; and for what is not code
/// ready to run (a bare `else` or `end`, a structured instruction without
/// its body).
pub open spec fn eval_step(instr: Instruction, fr: Frame, answers: Seq<FloatCall>, k: nat) -> Option<(Frame, nat, Outcome)> {
    let top = fr.blocks.last();
    match instr {
        Instruction::Return => Some((fr, k, Ok((Control::Return, false)))),
        Instruction::Call(index) => Some((fr, k, Ok((Control::ExecFunc(index), true)))),
        Instruction::Br(index) => Some((fr, k, Ok((Control::Branch(index), false)))),
        Instruction::Block(bt, Some(body)) => Some((fr, k, Ok((Control::ExecBlock(bt, body), true)))),
        Instruction::Loop(bt, Some(body)) => Some((fr, k, Ok((Control::ExecLoop(bt, body), true)))),
        Instruction::If(bt, Some(then_body), Some(else_body)) => {
            let pc = popped_i32(top);
            match pc.0 {
                Ok(c) => Some((with_top(fr, pc.1), k, Ok((Control::ExecBlock(bt, if c > 0 { then_body } else { else_body }), true)))),
                Err(e) => Some((fr, k, Err(e))),
            }
        },
        Instruction::Block(_, None) | Instruction::Loop(_, None) | Instruction::If(_, _, _) | Instruction::Else | Instruction::End => None,
        Instruction::LocalGet(index) => match resolve(fr.ids, index) {
            Some(j) => if 0 <= j < fr.locals.len() {
                Some((with_top(fr, top.push(fr.locals[j])), k, proceed()))
            } else {
                Some((fr, k, Err(lookup_error(index))))
            },
            None => Some((fr, k, Err(lookup_error(index)))),
        },
        Instruction::LocalSet(index) => if top.len() == 0 {
            Some((fr, k, Err(Error::StackUnderflow)))
        } else {
            match slot_for(fr.ids, fr.locals, index, top.last()) {
                Some(j) => Some((Frame {
                    blocks: fr.blocks.update(fr.blocks.len() - 1, top.drop_last()),
                    locals: fr.locals.update(j, top.last()),
                    ids: fr.ids,
                }, k, proceed())),
                None => Some((fr, k, Err(store_error(fr.ids, fr.locals, index)))),
            }
        },
        Instruction::LocalTee(index) => if top.len() == 0 {
            Some((fr, k, Err(Error::StackUnderflow)))
        } else {
            match slot_for(fr.ids, fr.locals, index, top.last()) {
                Some(j) => Some((Frame { blocks: fr.blocks, locals: fr.locals.update(j, top.last()), ids: fr.ids }, k, proceed())),
                None => Some((fr, k, Err(store_error(fr.ids, fr.locals, index)))),
            }
        },
        _ => if is_float_op(instr) {
            let t = float_taken(instr, top);
            match t.0 {
                Err(e) => Some((fr, k, Err(e))),
                Ok(req) => if k < answers.len() && answers[k as int].request == req {
                    match answer_value(instr, answers[k as int].answer) {
                        Some(v) => Some((with_top(fr, t.1.push(v)), k + 1, proceed())),
                        None => None,
                    }
                } else {
                    None
                },
            }
        } else {
            let eff = int_effect(instr, top);
            match eff.0 {
                Ok(_) => Some((with_top(fr, eff.1), k, proceed())),
                Err(e) => Some((fr, k, Err(e))),
            }
        },
    }
}

/// The float requests a step makes, with their answers: for a float
/// operation that succeeds, the one its answer records; none otherwise.
pub open spec fn step_answers(instr: Instruction, r: Result<Response, Error>) -> Seq<FloatCall> {
    if is_float_op(instr) && r is Ok { seq![r->Ok_0.float_call@->0] } else { Seq::empty() }
}

/// What the handler does to a frame is the step of the machine, given the
/// answers the handler got from the float arithmetic.
pub proof fn lemma_handled_step(instr: Instruction, before: FuncStack, after: FuncStack, r: Result<Response, Error>, answers: Seq<FloatCall>, k: nat)
    requires
        before.wf(),
        handled(instr, before, after, r),
        answers_at(answers, k, step_answers(instr, r)),
        !(instr is Else) && !(instr is End),
        instr matches Instruction::Block(_, b) ==> b is Some,
        instr matches Instruction::Loop(_, b) ==> b is Some,
        instr matches Instruction::If(_, t, e) ==> t is Some && e is Some,
    ensures
        follows_step(eval_step(instr, frame_of(before), answers, k), frame_of(after), k + step_answers(instr, r).len(), r),
{
    FuncStack::lemma_depth(before);
    FuncStack::lemma_depth(after);
    assert(before.blocks_view().update(before.blocks_view().len() - 1, before.top()) =~= before.blocks_view());
    if is_float_op(instr) && r is Ok {
        assert(answers.subrange(k as int, k + 1int)[0] == answers[k as int]);
    }
}

/// A step of the engine, leaving the frame `after` with the float answers
/// used up to position `used`, is the step `st` of the machine.
pub open spec fn follows_step(st: Option<(Frame, nat, Outcome)>, after: Frame, used: nat, r: Result<Response, Error>) -> bool {
    match st {
        Some((fr2, k2, res)) => agrees(r, res) && (r is Ok ==> after == fr2 && used == k2),
        None => false,
    }
}

/// The innermost frame of `s` replaced by `fr`.
pub open spec fn with_last(s: Seq<Frame>, fr: Frame) -> Seq<Frame> {
    s.update(s.len() - 1, fr)
}

/// Entering a block of type `ty`: its parameters move, in order, from the
/// innermost block to a new block; or why they cannot.
pub open spec fn enter_block(s: Seq<Frame>, ty: FuncType) -> Result<Seq<Frame>, Error> {
    let fr = s.last();
    let t = fr.blocks.last();
    let k = ty.params@.len() as int;
    if k <= t.len() && types_match(top_n(t, k), param_types(ty.params@)) {
        Ok(with_last(s, Frame {
            blocks: fr.blocks.update(fr.blocks.len() - 1, t.subrange(0, t.len() - k)).push(top_n(t, k)),
            locals: fr.locals,
            ids: fr.ids,
        }))
    } else {
        Err(take_failure(t, param_types(ty.params@)))
    }
}

/// Leaving the innermost block, of type `ty`: its results move, in order, to
/// the enclosing block; or why they cannot (with `exact`, no other value may
/// remain).
pub open spec fn leave_block(s: Seq<Frame>, ty: FuncType, exact: bool) -> Result<Seq<Frame>, Error> {
    let fr = s.last();
    let bv = fr.blocks;
    let t = bv.last();
    let k = ty.results@.len() as int;
    if bv.len() < 2 {
        Err(Error::NoBlockInStack)
    } else if !take_ok(t, ty.results@) {
        Err(take_failure(t, ty.results@))
    } else if exact && t.len() != k {
        Err(Error::TooManyReturns)
    } else {
        Ok(with_last(s, Frame {
            blocks: bv.drop_last().update(bv.len() - 2, bv[bv.len() - 2] + top_n(t, k)),
            locals: fr.locals,
            ids: fr.ids,
        }))
    }
}

/// Calling a function of type `ty`: its parameters move from the innermost
/// block to the locals of a new frame, which has one empty block and names
/// its locals as the parameters are named; or why they cannot (two
/// parameters of one name fail on the first that repeats a name).
pub open spec fn enter_call(s: Seq<Frame>, ty: FuncType) -> Result<Seq<Frame>, Error> {
    let fr = s.last();
    let t = fr.blocks.last();
    let k = ty.params@.len() as int;
    if !(k <= t.len() && types_match(top_n(t, k), param_types(ty.params@))) {
        Err(take_failure(t, param_types(ty.params@)))
    } else {
        match dup_name(ty.params@) {
            Some(x) => Err(Error::KeyExists(x)),
            None => Ok(with_last(s, with_top(fr, t.subrange(0, t.len() - k))).push(Frame {
                blocks: seq![Seq::<Value>::empty()],
                locals: top_n(t, k),
                ids: param_ids(ty.params@),
            })),
        }
    }
}

/// Returning from the innermost frame, of a function of type `ty`: its
/// results move to the innermost block of the caller; or why they cannot.
pub open spec fn leave_call(s: Seq<Frame>, ty: FuncType, exact: bool) -> Result<Seq<Frame>, Error> {
    let n = s.len();
    let t = s.last().blocks.last();
    let k = ty.results@.len() as int;
    if n < 2 {
        Err(Error::NoFunctionInStack)
    } else if !take_ok(t, ty.results@) {
        Err(take_failure(t, ty.results@))
    } else if exact && t.len() != k {
        Err(Error::TooManyReturns)
    } else {
        let caller = s[n - 2];
        Ok(s.subrange(0, n - 2).push(with_top(caller, caller.blocks.last() + top_n(t, k))))
    }
}

/// Declaring the local `lc` in the innermost frame: it holds the zero of its
/// type; its name must be new.
pub open spec fn declare(s: Seq<Frame>, lc: Local) -> Result<Seq<Frame>, Error> {
    let fr = s.last();
    if fr.locals.len() >= usize::MAX {
        Err(Error::StackOverflow)
    } else if lc.id matches Some(x) && fr.ids.dom().contains(x@) {
        Err(Error::KeyExists(lc.id->0))
    } else {
        Ok(with_last(s, Frame {
            blocks: fr.blocks,
            locals: fr.locals.push(zero_of(lc.val_type)),
            ids: match lc.id {
                Some(x) => fr.ids.insert(x@, fr.locals.len() as usize),
                None => fr.ids,
            },
        }))
    }
}

/// Declaring the locals `lcs` in order, stopping at the first failure.
pub open spec fn declare_all(s: Seq<Frame>, lcs: Seq<Local>) -> Result<Seq<Frame>, Error>
    decreases lcs.len(),
{
    if lcs.len() == 0 {
        Ok(s)
    } else {
        match declare_all(s, lcs.drop_last()) {
            Err(e) => Err(e),
            Ok(sm) => declare(sm, lcs.last()),
        }
    }
}

/// What a block of the given label makes of the control transfer its body
/// ended with: a branch to it (depth 0, or its label) is done with; a branch
/// further out gets one level closer.
pub open spec fn block_control(c: Control, label: Option<String>) -> Control {
    match c {
        Control::Branch(Index::Num(n)) => if n == 0 { Control::Proceed } else { Control::Branch(Index::Num((n - 1) as u32)) },
        Control::Branch(Index::Id(id)) => if label matches Some(l) && l@ == id@ { Control::Proceed } else { c },
        _ => c,
    }
}

/// Whether a loop of the given label runs again after its body ended with `c`.
pub open spec fn loops_again(c: Control, label: Option<String>) -> bool {
    match c {
        Control::Branch(Index::Num(n)) => n == 0,
        Control::Branch(Index::Id(id)) => label matches Some(l) && l@ == id@,
        _ => false,
    }
}

/// Running `instrs[i..]`, in order, until one fails, returns or branches.
/// (Fuel never grows, see `lemma_fuel_seq`; the guard on it only makes the
/// recursion evidently finite.)
pub open spec fn eval_seq(env: Env, s: Seq<Frame>, f: nat, k: nat, instrs: Seq<Instruction>, i: int) -> Run
    decreases f, instrs.len() - i + 3,
{
    if i < 0 || i >= instrs.len() {
        Some((s, f, k, proceed()))
    } else {
        match eval_instr(env, s, f, k, instrs[i]) {
            None => None,
            Some((sm, fm, km, rm)) => match rm {
                Ok((Control::Return, _)) => Some((sm, fm, km, rm)),
                Ok((Control::Branch(_), _)) => Some((sm, fm, km, rm)),
                Err(_) => Some((sm, fm, km, rm)),
                Ok(_) => if fm <= f { eval_seq(env, sm, fm, km, instrs, i + 1) } else { None },
            },
        }
    }
}

/// Running one instruction: its step, then the block, loop or call it asks for.
pub open spec fn eval_instr(env: Env, s: Seq<Frame>, f: nat, k: nat, instr: Instruction) -> Run
    decreases f, 2int,
{
    match eval_step(instr, s.last(), env.answers, k) {
        None => None,
        Some((fr2, k2, hr)) => {
            let sm = with_last(s, fr2);
            match hr {
                Ok((Control::ExecFunc(index), _)) => eval_call(env, sm, f, k2, index),
                Ok((Control::ExecBlock(bt, body), _)) => eval_block(env, sm, f, k2, bt, body),
                Ok((Control::ExecLoop(bt, body), _)) => eval_loop(env, sm, f, k2, bt, body),
                _ => Some((sm, f, k2, hr)),
            }
        },
    }
}

/// Running a block: enter it, burn one unit of fuel, run its body, leave it.
pub open spec fn eval_block(env: Env, s: Seq<Frame>, f: nat, k: nat, bt: BlockType, body: Expression) -> Run
    decreases f, 1int,
{
    match enter_block(s, bt.ty) {
        Err(e) => Some((s, f, k, Err(e))),
        Ok(s1) => if f == 0 {
            Some((s1, f, k, Err(Error::ExecutionLimit)))
        } else {
            match eval_seq(env, s1, (f - 1) as nat, k, body.instrs@, 0) {
                None => None,
                Some((sb, fb, kb, rb)) => match rb {
                    Err(e) => Some((sb, fb, kb, rb)),
                    Ok((c, exact)) => match leave_block(sb, bt.ty, exact) {
                        Err(e) => Some((sb, fb, kb, Err(e))),
                        Ok(s3) => Some((s3, fb, kb, Ok((block_control(c, bt.label), true)))),
                    },
                },
            }
        },
    }
}

/// Running a loop: like a block, but a branch to the loop runs it again
/// (with the fuel left, which is less than before; the guard on it only makes
/// the recursion evidently finite).
pub open spec fn eval_loop(env: Env, s: Seq<Frame>, f: nat, k: nat, bt: BlockType, body: Expression) -> Run
    decreases f, 1int,
{
    match enter_block(s, bt.ty) {
        Err(e) => Some((s, f, k, Err(e))),
        Ok(s1) => if f == 0 {
            Some((s1, f, k, Err(Error::ExecutionLimit)))
        } else {
            match eval_seq(env, s1, (f - 1) as nat, k, body.instrs@, 0) {
                None => None,
                Some((sb, fb, kb, rb)) => match rb {
                    Err(e) => Some((sb, fb, kb, rb)),
                    Ok((c, exact)) => match leave_block(sb, bt.ty, exact) {
                        Err(e) => Some((sb, fb, kb, Err(e))),
                        Ok(s3) => if loops_again(c, bt.label) {
                            if fb < f { eval_loop(env, s3, fb, kb, bt, body) } else { None }
                        } else {
                            Some((s3, fb, kb, Ok((block_control(c, bt.label), true))))
                        },
                    },
                },
            }
        },
    }
}

/// Calling the function `index`: with more than `MAX_STACK_SIZE` frames the
/// call fails; else the arguments move into a new frame, one unit of fuel
/// burns, the body runs (a branch may leave it from its outermost block
/// only), and the results move back.
pub open spec fn eval_call(env: Env, s: Seq<Frame>, f: nat, k: nat, index: Index) -> Run
    decreases f, 1int,
{
    if s.len() > MAX_STACK_SIZE {
        Some((s, f, k, Err(Error::StackOverflow)))
    } else {
        match resolve(env.fids, index) {
            Some(j) if 0 <= j < env.funcs.len() => {
                let func = env.funcs[j];
                match enter_call(s, func.ty) {
                    Err(e) => Some((s, f, k, Err(e))),
                    Ok(s1) => if f == 0 {
                        Some((s1, f, k, Err(Error::ExecutionLimit)))
                    } else {
                        match eval_body(env, s1, (f - 1) as nat, k, func.line_expression) {
                            None => None,
                            Some((sb, fb, kb, rb)) => match rb {
                                Err(e) => Some((sb, fb, kb, rb)),
                                Ok((c, exact)) => if c matches Control::Branch(i) && i != Index::Num(0) {
                                    Some((sb, fb, kb, Err(Error::BranchLeak)))
                                } else {
                                    match leave_call(sb, func.ty, exact) {
                                        Err(e) => Some((sb, fb, kb, Err(e))),
                                        Ok(s3) => Some((s3, fb, kb, proceed())),
                                    }
                                },
                            },
                        }
                    },
                }
            },
            _ => Some((s, f, k, Err(lookup_error(index)))),
        }
    }
}

/// Running a line expression (a line, or a function body): declare its
/// locals in the innermost frame, then run its instructions.
pub open spec fn eval_body(env: Env, s: Seq<Frame>, f: nat, k: nat, le: LineExpression) -> Run
    decreases f, le.expr.instrs@.len() + 4,
{
    match declare_all(s, le.locals@) {
        Err(e) => Some((s, f, k, Err(e))),
        Ok(sd) => eval_seq(env, sd, f, k, le.expr.instrs@, 0),
    }
}

/// A run never gains fuel: what is left after running a sequence is at most
/// what it started with (and likewise below for an instruction, a block, a
/// loop, a call and a body).
pub proof fn lemma_fuel_seq(env: Env, s: Seq<Frame>, f: nat, k: nat, instrs: Seq<Instruction>, i: int)
    ensures
        eval_seq(env, s, f, k, instrs, i) matches Some((_s2, f2, _k2, _r)) ==> f2 <= f,
    decreases f, instrs.len() - i + 3,
{
    if 0 <= i < instrs.len() {
        lemma_fuel_instr(env, s, f, k, instrs[i]);
        if let Some((sm, fm, km, rm)) = eval_instr(env, s, f, k, instrs[i]) {
            if fm <= f {
                lemma_fuel_seq(env, sm, fm, km, instrs, i + 1);
            }
        }
    }
}

/// A run of one instruction never gains fuel.
pub proof fn lemma_fuel_instr(env: Env, s: Seq<Frame>, f: nat, k: nat, instr: Instruction)
    ensures
        eval_instr(env, s, f, k, instr) matches Some((_s2, f2, _k2, _r)) ==> f2 <= f,
    decreases f, 2int,
{
    if let Some((fr2, k2, hr)) = eval_step(instr, s.last(), env.answers, k) {
        let sm = with_last(s, fr2);
        match hr {
            Ok((Control::ExecFunc(index), _)) => lemma_fuel_call(env, sm, f, k2, index),
            Ok((Control::ExecBlock(bt, body), _)) => lemma_fuel_block(env, sm, f, k2, bt, body),
            Ok((Control::ExecLoop(bt, body), _)) => lemma_fuel_loop(env, sm, f, k2, bt, body),
            _ => {},
        }
    }
}

/// A run of a block never gains fuel.
pub proof fn lemma_fuel_block(env: Env, s: Seq<Frame>, f: nat, k: nat, bt: BlockType, body: Expression)
    ensures
        eval_block(env, s, f, k, bt, body) matches Some((_s2, f2, _k2, _r)) ==> f2 <= f,
    decreases f, 1int,
{
    if let Ok(s1) = enter_block(s, bt.ty) {
        if f > 0 {
            lemma_fuel_seq(env, s1, (f - 1) as nat, k, body.instrs@, 0);
        }
    }
}

/// A run of a loop never gains fuel.
pub proof fn lemma_fuel_loop(env: Env, s: Seq<Frame>, f: nat, k: nat, bt: BlockType, body: Expression)
    ensures
        eval_loop(env, s, f, k, bt, body) matches Some((_s2, f2, _k2, _r)) ==> f2 <= f,
    decreases f, 1int,
{
    if let Ok(s1) = enter_block(s, bt.ty) {
        if f > 0 {
            lemma_fuel_seq(env, s1, (f - 1) as nat, k, body.instrs@, 0);
            if let Some((sb, fb, kb, rb)) = eval_seq(env, s1, (f - 1) as nat, k, body.instrs@, 0) {
                if let Ok((c, exact)) = rb {
                    if let Ok(s3) = leave_block(sb, bt.ty, exact) {
                        if loops_again(c, bt.label) && fb < f {
                            lemma_fuel_loop(env, s3, fb, kb, bt, body);
                        }
                    }
                }
            }
        }
    }
}

/// A run of a call never gains fuel.
pub proof fn lemma_fuel_call(env: Env, s: Seq<Frame>, f: nat, k: nat, index: Index)
    ensures
        eval_call(env, s, f, k, index) matches Some((_s2, f2, _k2, _r)) ==> f2 <= f,
    decreases f, 1int,
{
    if s.len() <= MAX_STACK_SIZE {
        if let Some(j) = resolve(env.fids, index) {
            if 0 <= j < env.funcs.len() {
                if let Ok(s1) = enter_call(s, env.funcs[j].ty) {
                    if f > 0 {
                        lemma_fuel_body(env, s1, (f - 1) as nat, k, env.funcs[j].line_expression);
                    }
                }
            }
        }
    }
}

/// A run of a body never gains fuel.
pub proof fn lemma_fuel_body(env: Env, s: Seq<Frame>, f: nat, k: nat, le: LineExpression)
    ensures
        eval_body(env, s, f, k, le) matches Some((_s2, f2, _k2, _r)) ==> f2 <= f,
    decreases f, le.expr.instrs@.len() + 4,
{
    if let Ok(sd) = declare_all(s, le.locals@) {
        lemma_fuel_seq(env, sd, f, k, le.expr.instrs@, 0);
    }
}

/// Answers standing one after the other stand apart: the first part at
/// `k`, the second right after it.
pub proof fn lemma_answers_split(answers: Seq<FloatCall>, k: nat, a: Seq<FloatCall>, b: Seq<FloatCall>)
    requires
        answers_at(answers, k, a + b),
    ensures
        answers_at(answers, k, a),
        answers_at(answers, k + a.len(), b),
{
    let whole = answers.subrange(k as int, (k + a.len() + b.len()) as int);
    assert(whole == a + b);
    assert(answers.subrange(k as int, (k + a.len()) as int) =~= whole.subrange(0, a.len() as int));
    assert((a + b).subrange(0, a.len() as int) =~= a);
    assert(answers.subrange((k + a.len()) as int, (k + a.len() + b.len()) as int) =~= whole.subrange(a.len() as int, (a.len() + b.len()) as int));
    assert((a + b).subrange(a.len() as int, (a.len() + b.len()) as int) =~= b);
}

/// A call stack changed in its innermost frame only holds the machine state
/// with that frame replaced.
pub proof fn lemma_frames_last(a: CallStack, b: CallStack)
    requires
        a.funcs@.len() >= 1,
        b.funcs@.len() == a.funcs@.len(),
        b.funcs@.drop_last() == a.funcs@.drop_last(),
    ensures
        frames_of(b) == with_last(frames_of(a), frame_of(b.top_frame())),
        frames_of(a).len() == a.funcs@.len(),
        frames_of(a).last() == frame_of(a.top_frame()),
        frames_of(b).last() == frame_of(b.top_frame()),
{
    let n = a.funcs@.len();
    assert forall|i: int| 0 <= i < n - 1 implies b.funcs@[i] == a.funcs@[i] by {
        assert(b.funcs@.drop_last()[i] == b.funcs@[i]);
        assert(a.funcs@.drop_last()[i] == a.funcs@[i]);
    }
    assert(frames_of(b) =~= with_last(frames_of(a), frame_of(b.top_frame())));
}

/// The machine state of a call stack: as many frames, the innermost last.
pub proof fn lemma_frames_len(a: CallStack)
    requires
        a.funcs@.len() >= 1,
    ensures
        frames_of(a).len() == a.funcs@.len(),
        frames_of(a).last() == frame_of(a.top_frame()),
        forall|i: int| 0 <= i < a.funcs@.len() ==> #[trigger] frames_of(a)[i] == frame_of(a.funcs@[i]),
{
}

/// A branch targets a loop as it targets a block: by depth `0`, or by the
/// loop's own label. Such a branch runs the loop again; a branch to a depth
/// further out, to another label, a return or a plain fall-through leaves
/// it.
pub proof fn law_loop_repeats_on_branch_to_it(label: Option<String>, x: String, n: u32)
    ensures
        loops_again(Control::Branch(Index::Num(0)), label),
        n > 0 ==> !loops_again(Control::Branch(Index::Num(n)), label),
        (label matches Some(l) && l@ == x@) <==> loops_again(Control::Branch(Index::Id(x)), label),
        !loops_again(Control::Proceed, label),
        !loops_again(Control::Return, label),
        forall|c: Control| #[trigger] loops_again(c, label) ==> c is Branch && block_control(c, label) == Control::Proceed,
{
}

/// Running a loop whose body ends with a branch to the loop's own label is
/// running the loop again from where that round left off: one round of the
/// body, then the whole loop once more.
pub proof fn law_loop_label_branch_runs_again(env: Env, s: Seq<Frame>, f: nat, k: nat, bt: BlockType, body: Expression,
    x: String, s1: Seq<Frame>, sb: Seq<Frame>, fb: nat, kb: nat, exact: bool, s3: Seq<Frame>)
    requires
        bt.label matches Some(l) && l@ == x@,
        enter_block(s, bt.ty) == Ok::<Seq<Frame>, Error>(s1),
        f > 0,
        eval_seq(env, s1, (f - 1) as nat, k, body.instrs@, 0) == Some((sb, fb, kb, Ok::<(Control, bool), Error>((Control::Branch(Index::Id(x)), exact)))),
        leave_block(sb, bt.ty, exact) == Ok::<Seq<Frame>, Error>(s3),
    ensures
        eval_loop(env, s, f, k, bt, body) == eval_loop(env, s3, fb, kb, bt, body),
{
    lemma_fuel_seq(env, s1, (f - 1) as nat, k, body.instrs@, 0);
}

} // verus!
