//! Runs REPL lines: a line either defines a function or runs an expression
//! on the value stack. A line that runs to its end is committed and answers
//! with the new stack; a line that fails leaves no trace. What a line
//! computes is the run that `crate::semantics` gives it.
use vstd::prelude::*;
use crate::call_stack::{CallStack, FuncStack};
use crate::elements::{resolve, Elements};
use crate::error::Error;
use crate::handler::{handleable, handled, popped_i32, Handler};
use crate::model::{grouped_expr, grouped_instr, grouped_line, BlockType, Expression, Func, Index, Instruction, Line, LineExpression, Local};
use crate::ops::FloatOps;
use crate::response::{index_message, Control, Response};
use crate::semantics::{answers_at, block_control, declare, declare_all, enter_block, enter_call, eval_block, eval_body, eval_call, eval_instr, eval_loop, eval_seq, eval_step, follows, follows_step, frame_of, frames_of, leave_block, leave_call, lemma_frames_last, lemma_frames_len, lemma_answers_split, lemma_handled_step, loops_again, same_error, step_answers, with_last, with_top, Env, Frame, Run};
use crate::stack::{bracket_list, texts_of};
use crate::value::{zero_of, Value};
use crate::ops::FloatCall;

verus! {

/// How many frames the call stack may hold before a call fails.
pub const MAX_STACK_SIZE: usize = 100;

/// How many times one line may enter a block, repeat a loop or call a
/// function before it fails: as many as a machine word counts, so that only
/// a line that would not end in practice reaches it.
pub const STEP_LIMIT: u64 = 0xffff_ffff_ffff_ffffu64;

/// Every function body is ready to run.
pub open spec fn funcs_grouped(funcs: Seq<Func>) -> bool {
    forall|k: int| 0 <= k < funcs.len() ==> #[trigger] grouped_expr(funcs[k].line_expression.expr)
}

/// The number of blocks entered in frame `i`.
pub open spec fn depth_of(cs: CallStack, i: int) -> nat {
    cs.funcs@[i].blocks_view().len()
}

/// Both call stacks have as many frames, and as many blocks entered in each.
pub open spec fn same_shape(a: CallStack, b: CallStack) -> bool {
    &&& a.funcs@.len() == b.funcs@.len()
    &&& forall|i: int| 0 <= i < a.funcs@.len() ==> #[trigger] depth_of(a, i) == depth_of(b, i)
}

/// What running code does to the call stack, whatever it computes: the stack
/// stays well formed, nothing is committed, and a run that ends normally
/// leaves every frame and block it entered and answers no message.
pub open spec fn ran(before: CallStack, after: CallStack, r: Result<Response, Error>) -> bool {
    &&& after.wf()
    &&& after.same_committed(&before)
    &&& (r matches Ok(resp) ==> same_shape(before, after) && resp.messages() == Seq::<Seq<char>>::empty())
}

/// The control transfer of an answer that asks to run a body, runs a body that
/// is ready to run.
pub open spec fn bodies_grouped(r: Result<Response, Error>) -> bool {
    r matches Ok(resp) ==> match resp.control {
        Control::ExecBlock(_, b) => grouped_expr(b),
        Control::ExecLoop(_, b) => grouped_expr(b),
        _ => true,
    }
}

proof fn lemma_grouped_handleable(instr: Instruction)
    requires
        grouped_instr(instr),
    ensures
        handleable(instr),
{
}

/// Handling an instruction keeps the frame well formed, its committed state
/// and its number of blocks; the bodies it asks to run are ready to run.
proof fn lemma_handled(instr: Instruction, before: FuncStack, after: FuncStack, r: Result<Response, Error>)
    requires
        before.wf(),
        grouped_instr(instr),
        handled(instr, before, after, r),
    ensures
        after.wf(),
        after.same_committed(&before),
        after.blocks_view().len() == before.blocks_view().len(),
        r matches Ok(resp) ==> resp.messages() == Seq::<Seq<char>>::empty(),
        bodies_grouped(r),
{
    crate::handler::law_handle_keeps_committed(instr, before, after, r);
}

proof fn lemma_same_shape_trans(a: CallStack, b: CallStack, c: CallStack)
    requires
        same_shape(a, b),
        same_shape(b, c),
    ensures
        same_shape(a, c),
{
    assert forall|i: int| 0 <= i < a.funcs@.len() implies #[trigger] depth_of(a, i) == depth_of(c, i) by {
        assert(depth_of(a, i) == depth_of(b, i));
        assert(depth_of(b, i) == depth_of(c, i));
    }
}

proof fn lemma_same_shape_refl(a: CallStack)
    ensures
        same_shape(a, a),
{
}

/// A change of the innermost frame that keeps its number of blocks keeps the
/// shape and the well-formedness of the call stack.
proof fn lemma_last_changed(a: CallStack, b: CallStack)
    requires
        a.wf(),
        b.funcs@.len() == a.funcs@.len(),
        b.funcs@.drop_last() == a.funcs@.drop_last(),
        b.top_frame().wf(),
        b.top_frame().blocks_view().len() == a.top_frame().blocks_view().len(),
    ensures
        b.wf(),
        same_shape(a, b),
        a.funcs@.len() > 1 ==> b.funcs@[0] == a.funcs@[0],
{
    let n = a.funcs@.len();
    assert forall|i: int| 0 <= i < n - 1 implies b.funcs@[i] == a.funcs@[i] by {
        assert(b.funcs@.drop_last()[i] == b.funcs@[i]);
        assert(a.funcs@.drop_last()[i] == a.funcs@[i]);
    }
    assert forall|i: int| 0 <= i < n implies #[trigger] b.funcs@[i].wf() by {
        if i < n - 1 {
            assert(b.funcs@[i] == a.funcs@[i]);
        }
    }
    assert forall|i: int| 0 <= i < n implies #[trigger] depth_of(a, i) == depth_of(b, i) by {
        if i < n - 1 {
            assert(b.funcs@[i] == a.funcs@[i]);
        }
    }
}

/// Takes one step; fails when none is left.
fn charge(fuel: &mut u64) -> (r: Result<(), Error>)
    ensures
        *old(fuel) == 0 ==> r == Err::<(), Error>(Error::ExecutionLimit) && *final(fuel) == 0,
        *old(fuel) > 0 ==> r is Ok && *final(fuel) == *old(fuel) - 1,
{
    if *fuel == 0 {
        Err(Error::ExecutionLimit)
    } else {
        *fuel = *fuel - 1;
        Ok(())
    }
}

/// What a run of the engine consults: its functions, their names, and the
/// answers `answers` of the float arithmetic.
pub open spec fn env_of(funcs: Elements<Func>, answers: Seq<FloatCall>) -> Env {
    Env { funcs: funcs.current(), fids: funcs.current_ids(), answers }
}

/// Runs the instructions of `expr` in order, until one fails, returns or
/// branches. Also gives the answers it got from the float arithmetic.
fn execute_expr<F: FloatOps>(h: &Handler<F>, funcs: &Elements<Func>, cs: &mut CallStack, expr: &Expression, fuel: &mut u64) -> (out: (Result<Response, Error>, Ghost<Seq<FloatCall>>))
    requires
        old(cs).wf(),
        funcs.wf(),
        funcs_grouped(funcs.current()),
        grouped_expr(*expr),
    ensures
        ran(*old(cs), *final(cs), out.0),
        *final(fuel) <= *old(fuel),
        forall|fl: Seq<FloatCall>, k: nat| #[trigger] answers_at(fl, k, out.1@) ==>
            follows(eval_seq(env_of(*funcs, fl), frames_of(*old(cs)), *old(fuel) as nat, k, expr.instrs@, 0),
                frames_of(*final(cs)), *final(fuel) as nat, k + out.1@.len(), out.0),
    decreases *old(fuel), 4nat,
{
    let ghost cs0 = *cs;
    let ghost fuel0 = *fuel;
    let ghost mut acc: Seq<FloatCall> = Seq::empty();
    proof {
        lemma_same_shape_refl(cs0);
    }
    let mut i: usize = 0;
    while i < expr.instrs.len()
        invariant
            cs.wf(),
            cs.same_committed(&cs0),
            same_shape(cs0, *cs),
            *fuel <= fuel0,
            fuel0 == *old(fuel),
            cs0 == *old(cs),
            i <= expr.instrs@.len(),
            funcs.wf(),
            funcs_grouped(funcs.current()),
            grouped_expr(*expr),
            forall|fl: Seq<FloatCall>, k: nat| #[trigger] answers_at(fl, k, acc) ==>
                eval_seq(env_of(*funcs, fl), frames_of(cs0), fuel0 as nat, k, expr.instrs@, 0)
                    == eval_seq(env_of(*funcs, fl), frames_of(*cs), *fuel as nat, k + acc.len(), expr.instrs@, i as int),
        decreases expr.instrs@.len() - i,
    {
        proof {
            crate::model::lemma_grouped_at(*expr, i as int);
        }
        let ghost cs1 = *cs;
        let ghost f1 = *fuel;
        let (result, Ghost(a1)) = execute_instr(h, funcs, cs, &expr.instrs[i], fuel);
        let ghost acc1 = acc + a1;
        let response = match result {
            Ok(resp) => resp,
            Err(e) => {
                proof {
                    assert forall|fl: Seq<FloatCall>, k: nat| #[trigger] answers_at(fl, k, acc1) implies
                        follows(eval_seq(env_of(*funcs, fl), frames_of(cs0), fuel0 as nat, k, expr.instrs@, 0),
                            frames_of(*cs), *fuel as nat, k + acc1.len(), Err::<Response, Error>(e)) by {
                        lemma_answers_split(fl, k, acc, a1);
                        assert(answers_at(fl, k + acc.len(), a1));
                    }
                }
                return (Err(e), Ghost(acc1));
            },
        };
        proof {
            lemma_same_shape_trans(cs0, cs1, *cs);
        }
        match response.control {
            Control::Return => {
                proof {
                    assert forall|fl: Seq<FloatCall>, k: nat| #[trigger] answers_at(fl, k, acc1) implies
                        follows(eval_seq(env_of(*funcs, fl), frames_of(cs0), fuel0 as nat, k, expr.instrs@, 0),
                            frames_of(*cs), *fuel as nat, k + acc1.len(), Ok::<Response, Error>(response)) by {
                        lemma_answers_split(fl, k, acc, a1);
                        assert(answers_at(fl, k + acc.len(), a1));
                    }
                }
                return (Ok(response), Ghost(acc1));
            },
            Control::Branch(_) => {
                proof {
                    assert forall|fl: Seq<FloatCall>, k: nat| #[trigger] answers_at(fl, k, acc1) implies
                        follows(eval_seq(env_of(*funcs, fl), frames_of(cs0), fuel0 as nat, k, expr.instrs@, 0),
                            frames_of(*cs), *fuel as nat, k + acc1.len(), Ok::<Response, Error>(response)) by {
                        lemma_answers_split(fl, k, acc, a1);
                        assert(answers_at(fl, k + acc.len(), a1));
                    }
                }
                return (Ok(response), Ghost(acc1));
            },
            _ => {},
        }
        proof {
            assert forall|fl: Seq<FloatCall>, k: nat| #[trigger] answers_at(fl, k, acc1) implies
                eval_seq(env_of(*funcs, fl), frames_of(cs0), fuel0 as nat, k, expr.instrs@, 0)
                    == eval_seq(env_of(*funcs, fl), frames_of(*cs), *fuel as nat, k + acc1.len(), expr.instrs@, i + 1) by {
                lemma_answers_split(fl, k, acc, a1);
                assert(answers_at(fl, k + acc.len(), a1));
            }
            acc = acc1;
        }
        i = i + 1;
    }
    (Ok(Response::new()), Ghost(acc))
}

/// Takes the condition of an `if`: the top value of the innermost block, as
/// an `i32`.
fn pop_condition(cs: &mut CallStack) -> (r: Result<i32, Error>)
    requires
        old(cs).wf(),
    ensures
        final(cs).wf(),
        final(cs).same_committed(old(cs)),
        final(cs).funcs@.len() == old(cs).funcs@.len(),
        final(cs).funcs@.drop_last() == old(cs).funcs@.drop_last(),
        old(cs).top_frame().moved_to(final(cs).top_frame(), popped_i32(old(cs).top_frame().top()).1),
        r == popped_i32(old(cs).top_frame().top()).0,
{
    match cs.pop() {
        Ok(v) => match v {
            Value::I32(n) => Ok(n),
            _ => Err(Error::TypeMismatch),
        },
        Err(e) => Err(e),
    }
}

/// Runs one instruction: a block, loop or `if` runs its body in place; any
/// other instruction goes to the handler, and the call (or body) it asks
/// for is carried out. Also gives the answers it got from the float
/// arithmetic.
fn execute_instr<F: FloatOps>(h: &Handler<F>, funcs: &Elements<Func>, cs: &mut CallStack, instr: &Instruction, fuel: &mut u64) -> (out: (Result<Response, Error>, Ghost<Seq<FloatCall>>))
    requires
        old(cs).wf(),
        funcs.wf(),
        funcs_grouped(funcs.current()),
        grouped_instr(*instr),
    ensures
        ran(*old(cs), *final(cs), out.0),
        *final(fuel) <= *old(fuel),
        forall|fl: Seq<FloatCall>, k: nat| #[trigger] answers_at(fl, k, out.1@) ==>
            follows(eval_instr(env_of(*funcs, fl), frames_of(*old(cs)), *old(fuel) as nat, k, *instr),
                frames_of(*final(cs)), *final(fuel) as nat, k + out.1@.len(), out.0),
    decreases *old(fuel), 3nat,
{
    let ghost cs0 = *cs;
    let ghost s0 = frames_of(cs0);
    let ghost f0 = *fuel;
    proof {
        lemma_grouped_handleable(*instr);
        lemma_frames_len(cs0);
        assert(with_last(s0, s0.last()) =~= s0);
        assert(cs0.funcs@[cs0.funcs@.len() - 1].wf());
    }
    match instr {
        Instruction::Block(bt, Some(body)) => {
            return execute_block(h, funcs, cs, bt, body, fuel);
        },
        Instruction::Loop(bt, Some(body)) => {
            return execute_loop(h, funcs, cs, bt, body, fuel);
        },
        Instruction::If(bt, Some(then_body), Some(else_body)) => {
            let cond = pop_condition(cs);
            let ghost cs1 = *cs;
            proof {
                FuncStack::lemma_depth(cs0.top_frame());
                lemma_frames_last(cs0, cs1);
                FuncStack::lemma_moved_top(cs0.top_frame(), cs1.top_frame(), popped_i32(cs0.top_frame().top()).1);
                assert(frame_of(cs1.top_frame()) == with_top(s0.last(), popped_i32(s0.last().blocks.last()).1));
                lemma_last_changed(cs0, cs1);
            }
            match cond {
                Ok(c) => {
                    let chosen = if c > 0 { then_body } else { else_body };
                    let out = execute_block(h, funcs, cs, bt, chosen, fuel);
                    proof {
                        if out.0 is Ok {
                            lemma_same_shape_trans(cs0, cs1, *cs);
                        }
                    }
                    return out;
                },
                Err(e) => {
                    return (Err(e), Ghost(Seq::empty()));
                },
            }
        },
        _ => {},
    }
    let handled_r = match cs.get_func_stack() {
        Ok(frame) => {
            let ghost fr0 = *frame;
            let r = h.handle(frame, instr.clone());
            proof {
                lemma_handled(*instr, fr0, *frame, r);
                FuncStack::lemma_depth(fr0);
                FuncStack::lemma_depth(*frame);
                assert forall|fl: Seq<FloatCall>, k: nat| #[trigger] answers_at(fl, k, step_answers(*instr, r)) implies
                    follows_step(eval_step(*instr, frame_of(fr0), fl, k), frame_of(*frame), k + step_answers(*instr, r).len(), r) by {
                    lemma_handled_step(*instr, fr0, *frame, r, fl, k);
                }
            }
            r
        },
        Err(e) => return (Err(e), Ghost(Seq::empty())),
    };
    let ghost cs1 = *cs;
    let ghost a1 = step_answers(*instr, handled_r);
    proof {
        assert(cs.funcs@.drop_last() =~= cs0.funcs@.drop_last());
        lemma_frames_last(cs0, cs1);
        lemma_last_changed(cs0, cs1);
    }
    let response = match handled_r {
        Ok(resp) => resp,
        Err(e) => {
            proof {
                assert forall|fl: Seq<FloatCall>, k: nat| #[trigger] answers_at(fl, k, a1) implies
                    follows(eval_instr(env_of(*funcs, fl), s0, f0 as nat, k, *instr),
                        frames_of(*cs), *fuel as nat, k + a1.len(), Err::<Response, Error>(e)) by {
                    assert(answers_at(fl, k, step_answers(*instr, handled_r)));
                }
            }
            return (Err(e), Ghost(a1));
        },
    };
    let ghost ctl = response.control;
    let ghost resp0 = response;
    let (r, Ghost(a2)) = match response.control {
        Control::ExecFunc(index) => execute_func(h, funcs, cs, &index, fuel),
        Control::ExecBlock(bt, block) => execute_block(h, funcs, cs, &bt, &block, fuel),
        Control::ExecLoop(bt, block) => execute_loop(h, funcs, cs, &bt, &block, fuel),
        _ => (Ok(response), Ghost(Seq::empty())),
    };
    proof {
        if r is Ok {
            lemma_same_shape_trans(cs0, cs1, *cs);
        }
        assert forall|fl: Seq<FloatCall>, k: nat| #[trigger] answers_at(fl, k, a1 + a2) implies
            follows(eval_instr(env_of(*funcs, fl), s0, f0 as nat, k, *instr),
                frames_of(*cs), *fuel as nat, k + (a1 + a2).len(), r) by {
            lemma_answers_split(fl, k, a1, a2);
            assert(answers_at(fl, k, step_answers(*instr, handled_r)));
            assert(answers_at(fl, k + a1.len(), a2));
        }
    }
    (r, Ghost(a1 + a2))
}

/// Whether a branch to `id` targets a block labelled `label`.
fn targets(id: &String, label: &Option<String>) -> (b: bool)
    ensures
        b == (label matches Some(l) && l@ == id@),
{
    match label {
        Some(l) => id.eq(l),
        None => false,
    }
}

/// Entering a block is the machine's `enter_block`.
proof fn lemma_entered(cs0: CallStack, cs1: CallStack, ty: crate::model::FuncType, r: Result<(), Error>)
    requires
        cs0.wf(),
        cs1.wf(),
        cs1.funcs@.len() == cs0.funcs@.len(),
        cs1.funcs@.drop_last() == cs0.funcs@.drop_last(),
        cs1.top_frame().locals == cs0.top_frame().locals,
        ({
            let k = ty.params@.len() as int;
            let t = cs0.top_frame().top();
            let ok = k <= t.len() && crate::call_stack::types_match(crate::call_stack::top_n(t, k), crate::call_stack::param_types(ty.params@));
            &&& ok ==> r is Ok && cs1.top_frame().blocks_view() == cs0.top_frame().blocks_view()
                    .update(cs0.top_frame().blocks_view().len() - 1, t.subrange(0, t.len() - k))
                    .push(crate::call_stack::top_n(t, k))
            &&& !ok ==> r == Err::<(), Error>(crate::call_stack::take_failure(t, crate::call_stack::param_types(ty.params@)))
        }),
    ensures
        match r {
            Ok(_) => enter_block(frames_of(cs0), ty) == Ok::<Seq<Frame>, Error>(frames_of(cs1)),
            Err(e) => enter_block(frames_of(cs0), ty) == Err::<Seq<Frame>, Error>(e),
        },
{
    lemma_frames_last(cs0, cs1);
}

/// Leaving a block is the machine's `leave_block`.
proof fn lemma_left(cs0: CallStack, cs1: CallStack, ty: crate::model::FuncType, exact: bool, r: Result<(), Error>)
    requires
        cs0.wf(),
        cs1.wf(),
        cs1.funcs@.len() == cs0.funcs@.len(),
        cs1.funcs@.drop_last() == cs0.funcs@.drop_last(),
        cs1.top_frame().locals == cs0.top_frame().locals,
        ({
            let k = ty.results@.len() as int;
            let t = cs0.top_frame().top();
            let bv = cs0.top_frame().blocks_view();
            let ok = bv.len() >= 2 && k <= t.len() && crate::call_stack::types_match(crate::call_stack::top_n(t, k), ty.results@)
                && (exact ==> t.len() == k);
            &&& ok ==> r is Ok && cs1.top_frame().blocks_view() == bv.drop_last().update(bv.len() - 2, bv[bv.len() - 2] + crate::call_stack::top_n(t, k))
            &&& bv.len() < 2 ==> r == Err::<(), Error>(Error::NoBlockInStack)
            &&& bv.len() >= 2 && !crate::call_stack::take_ok(t, ty.results@) ==> r == Err::<(), Error>(crate::call_stack::take_failure(t, ty.results@))
            &&& bv.len() >= 2 && crate::call_stack::take_ok(t, ty.results@) && exact && t.len() != k ==> r == Err::<(), Error>(Error::TooManyReturns)
        }),
    ensures
        match r {
            Ok(_) => leave_block(frames_of(cs0), ty, exact) == Ok::<Seq<Frame>, Error>(frames_of(cs1)),
            Err(e) => leave_block(frames_of(cs0), ty, exact) == Err::<Seq<Frame>, Error>(e),
        },
{
    lemma_frames_last(cs0, cs1);
}

/// Runs a block: its parameters move into a new block, the body runs, its
/// results move back out. A branch to the block ends it; a branch further
/// out is passed on, one level closer. Also gives the answers the body got
/// from the float arithmetic.
fn execute_block<F: FloatOps>(h: &Handler<F>, funcs: &Elements<Func>, cs: &mut CallStack, bt: &BlockType, body: &Expression, fuel: &mut u64) -> (out: (Result<Response, Error>, Ghost<Seq<FloatCall>>))
    requires
        old(cs).wf(),
        funcs.wf(),
        funcs_grouped(funcs.current()),
        grouped_expr(*body),
    ensures
        ran(*old(cs), *final(cs), out.0),
        *final(fuel) <= *old(fuel),
        forall|fl: Seq<FloatCall>, k: nat| #[trigger] answers_at(fl, k, out.1@) ==>
            follows(eval_block(env_of(*funcs, fl), frames_of(*old(cs)), *old(fuel) as nat, k, *bt, *body),
                frames_of(*final(cs)), *final(fuel) as nat, k + out.1@.len(), out.0),
    decreases *old(fuel), 2nat,
{
    let ghost cs0 = *cs;
    let ghost fuel0 = *fuel;
    proof {
        assert(cs0.funcs@[cs0.funcs@.len() - 1].wf());
        FuncStack::lemma_depth(cs0.top_frame());
    }
    let entered = cs.add_block_stack(&bt.ty);
    let ghost cs1 = *cs;
    proof {
        lemma_entered(cs0, cs1, bt.ty, entered);
    }
    match entered {
        Ok(()) => {},
        Err(e) => return (Err(e), Ghost(Seq::empty())),
    }
    match charge(fuel) {
        Ok(()) => {},
        Err(e) => return (Err(e), Ghost(Seq::empty())),
    }
    let (body_r, Ghost(ans)) = execute_expr(h, funcs, cs, body, fuel);
    let mut response = match body_r {
        Ok(resp) => resp,
        Err(e) => return (Err(e), Ghost(ans)),
    };
    let ghost cs2 = *cs;
    let left = cs.remove_block_stack(&bt.ty, response.requires_empty);
    proof {
        lemma_left(cs2, *cs, bt.ty, response.requires_empty, left);
    }
    match left {
        Ok(()) => {},
        Err(e) => return (Err(e), Ghost(ans)),
    }
    proof {
        lemma_block_shape(cs0, cs1, cs2, *cs);
    }
    let ghost c = response.control;
    let control = match response.control {
        Control::Branch(Index::Num(n)) => if n == 0 {
            Control::Proceed
        } else {
            Control::Branch(Index::Num(n - 1))
        },
        Control::Branch(Index::Id(id)) => if targets(&id, &bt.label) {
            Control::Proceed
        } else {
            Control::Branch(Index::Id(id))
        },
        other => other,
    };
    proof {
        assert(control == block_control(c, bt.label));
    }
    response.control = control;
    response.requires_empty = true;
    (Ok(response), Ghost(ans))
}

/// Entering a block and leaving it again keeps the shape of the call stack.
proof fn lemma_block_shape(cs0: CallStack, cs1: CallStack, cs2: CallStack, cs3: CallStack)
    requires
        cs0.wf(),
        cs1.wf(),
        cs2.wf(),
        cs1.funcs@.len() == cs0.funcs@.len(),
        cs1.funcs@.drop_last() == cs0.funcs@.drop_last(),
        cs1.top_frame().blocks_view().len() == cs0.top_frame().blocks_view().len() + 1,
        same_shape(cs1, cs2),
        cs3.funcs@.len() == cs2.funcs@.len(),
        cs3.funcs@.drop_last() == cs2.funcs@.drop_last(),
        cs3.top_frame().blocks_view().len() + 1 == cs2.top_frame().blocks_view().len(),
    ensures
        same_shape(cs0, cs3),
{
    let n = cs0.funcs@.len();
    assert forall|i: int| 0 <= i < n implies #[trigger] depth_of(cs0, i) == depth_of(cs3, i) by {
        assert(depth_of(cs1, i) == depth_of(cs2, i));
        if i < n - 1 {
            assert(cs1.funcs@.drop_last()[i] == cs1.funcs@[i]);
            assert(cs0.funcs@.drop_last()[i] == cs0.funcs@[i]);
            assert(cs2.funcs@.drop_last()[i] == cs2.funcs@[i]);
            assert(cs3.funcs@.drop_last()[i] == cs3.funcs@[i]);
        }
    }
}

/// Runs a loop: like a block, but a branch to the loop runs its body again.
/// Also gives the answers the body got from the float arithmetic, over all
/// its runs.
fn execute_loop<F: FloatOps>(h: &Handler<F>, funcs: &Elements<Func>, cs: &mut CallStack, bt: &BlockType, body: &Expression, fuel: &mut u64) -> (out: (Result<Response, Error>, Ghost<Seq<FloatCall>>))
    requires
        old(cs).wf(),
        funcs.wf(),
        funcs_grouped(funcs.current()),
        grouped_expr(*body),
    ensures
        ran(*old(cs), *final(cs), out.0),
        *final(fuel) <= *old(fuel),
        forall|fl: Seq<FloatCall>, k: nat| #[trigger] answers_at(fl, k, out.1@) ==>
            follows(eval_loop(env_of(*funcs, fl), frames_of(*old(cs)), *old(fuel) as nat, k, *bt, *body),
                frames_of(*final(cs)), *final(fuel) as nat, k + out.1@.len(), out.0),
    decreases *old(fuel), 2nat,
{
    let ghost cs0 = *cs;
    let ghost fuel0 = *fuel;
    let ghost mut acc: Seq<FloatCall> = Seq::empty();
    proof {
        lemma_same_shape_refl(cs0);
    }
    loop
        invariant
            cs.wf(),
            cs.same_committed(&cs0),
            same_shape(cs0, *cs),
            *fuel <= fuel0,
            fuel0 == *old(fuel),
            cs0 == *old(cs),
            funcs.wf(),
            funcs_grouped(funcs.current()),
            grouped_expr(*body),
            forall|fl: Seq<FloatCall>, k: nat| #[trigger] answers_at(fl, k, acc) ==>
                eval_loop(env_of(*funcs, fl), frames_of(cs0), fuel0 as nat, k, *bt, *body)
                    == eval_loop(env_of(*funcs, fl), frames_of(*cs), *fuel as nat, k + acc.len(), *bt, *body),
        decreases *fuel,
    {
        let ghost csa = *cs;
        let ghost fa = *fuel;
        proof {
            assert(csa.funcs@[csa.funcs@.len() - 1].wf());
            FuncStack::lemma_depth(csa.top_frame());
        }
        let entered = cs.add_block_stack(&bt.ty);
        let ghost cs1 = *cs;
        proof {
            lemma_entered(csa, cs1, bt.ty, entered);
        }
        match entered {
            Ok(()) => {},
            Err(e) => {
                proof {
                    assert forall|fl: Seq<FloatCall>, k: nat| #[trigger] answers_at(fl, k, acc) implies
                        follows(eval_loop(env_of(*funcs, fl), frames_of(cs0), fuel0 as nat, k, *bt, *body),
                            frames_of(*cs), *fuel as nat, k + acc.len(), Err::<Response, Error>(e)) by {
                    }
                }
                return (Err(e), Ghost(acc));
            },
        }
        match charge(fuel) {
            Ok(()) => {},
            Err(e) => {
                proof {
                    assert forall|fl: Seq<FloatCall>, k: nat| #[trigger] answers_at(fl, k, acc) implies
                        follows(eval_loop(env_of(*funcs, fl), frames_of(cs0), fuel0 as nat, k, *bt, *body),
                            frames_of(*cs), *fuel as nat, k + acc.len(), Err::<Response, Error>(e)) by {
                    }
                }
                return (Err(e), Ghost(acc));
            },
        }
        let (body_r, Ghost(a1)) = execute_expr(h, funcs, cs, body, fuel);
        let ghost acc1 = acc + a1;
        let mut response = match body_r {
            Ok(resp) => resp,
            Err(e) => {
                proof {
                    assert forall|fl: Seq<FloatCall>, k: nat| #[trigger] answers_at(fl, k, acc1) implies
                        follows(eval_loop(env_of(*funcs, fl), frames_of(cs0), fuel0 as nat, k, *bt, *body),
                            frames_of(*cs), *fuel as nat, k + acc1.len(), Err::<Response, Error>(e)) by {
                        lemma_answers_split(fl, k, acc, a1);
                        assert(answers_at(fl, k + acc.len(), a1));
                    }
                }
                return (Err(e), Ghost(acc1));
            },
        };
        let ghost cs2 = *cs;
        let left = cs.remove_block_stack(&bt.ty, response.requires_empty);
        proof {
            lemma_left(cs2, *cs, bt.ty, response.requires_empty, left);
        }
        match left {
            Ok(()) => {},
            Err(e) => {
                proof {
                    assert forall|fl: Seq<FloatCall>, k: nat| #[trigger] answers_at(fl, k, acc1) implies
                        follows(eval_loop(env_of(*funcs, fl), frames_of(cs0), fuel0 as nat, k, *bt, *body),
                            frames_of(*cs), *fuel as nat, k + acc1.len(), Err::<Response, Error>(e)) by {
                        lemma_answers_split(fl, k, acc, a1);
                        assert(answers_at(fl, k + acc.len(), a1));
                    }
                }
                return (Err(e), Ghost(acc1));
            },
        }
        proof {
            lemma_block_shape(csa, cs1, cs2, *cs);
            lemma_same_shape_trans(cs0, csa, *cs);
        }
        let ghost c = response.control;
        let again = match &response.control {
            Control::Branch(Index::Num(n)) => *n == 0,
            Control::Branch(Index::Id(id)) => targets(id, &bt.label),
            _ => false,
        };
        if again {
            proof {
                assert(loops_again(c, bt.label));
                assert forall|fl: Seq<FloatCall>, k: nat| #[trigger] answers_at(fl, k, acc1) implies
                    eval_loop(env_of(*funcs, fl), frames_of(cs0), fuel0 as nat, k, *bt, *body)
                        == eval_loop(env_of(*funcs, fl), frames_of(*cs), *fuel as nat, k + acc1.len(), *bt, *body) by {
                    lemma_answers_split(fl, k, acc, a1);
                    assert(answers_at(fl, k + acc.len(), a1));
                }
                acc = acc1;
            }
            continue;
        }
        let control = match response.control {
            Control::Branch(Index::Num(n)) => Control::Branch(Index::Num(n - 1)),
            other => other,
        };
        proof {
            assert(!loops_again(c, bt.label));
            assert(control == block_control(c, bt.label));
        }
        response.control = control;
        response.requires_empty = true;
        proof {
            assert forall|fl: Seq<FloatCall>, k: nat| #[trigger] answers_at(fl, k, acc1) implies
                follows(eval_loop(env_of(*funcs, fl), frames_of(cs0), fuel0 as nat, k, *bt, *body),
                    frames_of(*cs), *fuel as nat, k + acc1.len(), Ok::<Response, Error>(response)) by {
                lemma_answers_split(fl, k, acc, a1);
                assert(answers_at(fl, k + acc.len(), a1));
            }
        }
        return (Ok(response), Ghost(acc1));
    }
}

/// A function body may end with a branch out of its outermost block only.
fn verify_func_response(response: &Response) -> (r: Result<(), Error>)
    ensures
        r is Err <==> (response.control matches Control::Branch(i) && i != Index::Num(0)),
        r is Err ==> r == Err::<(), Error>(Error::BranchLeak),
{
    match &response.control {
        Control::Branch(Index::Num(n)) => if *n == 0 {
            Ok(())
        } else {
            Err(Error::BranchLeak)
        },
        Control::Branch(_) => Err(Error::BranchLeak),
        _ => Ok(()),
    }
}

/// Entering a call is the machine's `enter_call`.
proof fn lemma_called(cs0: CallStack, cs1: CallStack, ty: crate::model::FuncType, r: Result<(), Error>)
    requires
        cs0.wf(),
        cs1.wf(),
        r is Ok ==> cs1.funcs@.subrange(0, cs0.funcs@.len() - 1) == cs0.funcs@.subrange(0, cs0.funcs@.len() - 1),
        ({
            let k = ty.params@.len() as int;
            let t = cs0.top_frame().top();
            let ok = k <= t.len() && crate::call_stack::types_match(crate::call_stack::top_n(t, k), crate::call_stack::param_types(ty.params@));
            &&& !ok ==> r == Err::<(), Error>(crate::call_stack::take_failure(t, crate::call_stack::param_types(ty.params@)))
            &&& ok && crate::call_stack::dup_name(ty.params@) is None ==> r is Ok
            &&& ok && crate::call_stack::dup_name(ty.params@) is Some ==> (r matches Err(Error::KeyExists(k)) && k@ == crate::call_stack::dup_name(ty.params@)->0@)
            &&& r is Ok ==> ok
                && cs1.funcs@.len() == cs0.funcs@.len() + 1
                && cs1.funcs@[cs0.funcs@.len() - 1].locals == cs0.top_frame().locals
                && cs1.funcs@[cs0.funcs@.len() - 1].blocks_view() == cs0.top_frame().blocks_view()
                    .update(cs0.top_frame().blocks_view().len() - 1, t.subrange(0, t.len() - k))
                && cs1.top_frame().blocks_view() == seq![Seq::<Value>::empty()]
                && cs1.top_frame().locals.current() == crate::call_stack::top_n(t, k)
                && cs1.top_frame().locals.current_ids() == crate::call_stack::param_ids(ty.params@)
        }),
    ensures
        match r {
            Ok(_) => enter_call(frames_of(cs0), ty) == Ok::<Seq<Frame>, Error>(frames_of(cs1)),
            Err(e) => enter_call(frames_of(cs0), ty) matches Err(e2) && same_error(e, e2),
        },
{
    lemma_frames_len(cs0);
    if r is Ok {
        let n = cs0.funcs@.len();
        lemma_frames_len(cs1);
        let s0 = frames_of(cs0);
        let fr = s0.last();
        let t = fr.blocks.last();
        let k = ty.params@.len() as int;
        let expected = with_last(s0, with_top(fr, t.subrange(0, t.len() - k))).push(Frame {
            blocks: seq![Seq::<Value>::empty()],
            locals: crate::call_stack::top_n(t, k),
            ids: crate::call_stack::param_ids(ty.params@),
        });
        assert forall|i: int| 0 <= i < n - 1 implies cs1.funcs@[i] == cs0.funcs@[i] by {
            assert(cs1.funcs@.subrange(0, n - 1)[i] == cs1.funcs@[i]);
            assert(cs0.funcs@.subrange(0, n - 1)[i] == cs0.funcs@[i]);
        }
        assert(frames_of(cs1) =~= expected);
    }
}

/// Returning from a call is the machine's `leave_call`.
proof fn lemma_returned(cs0: CallStack, cs1: CallStack, ty: crate::model::FuncType, exact: bool, r: Result<(), Error>)
    requires
        cs0.wf(),
        cs1.wf(),
        r is Ok ==> cs1.funcs@.subrange(0, cs0.funcs@.len() - 2) == cs0.funcs@.subrange(0, cs0.funcs@.len() - 2),
        ({
            let k = ty.results@.len() as int;
            let fs = cs0.funcs@;
            let t = cs0.top_frame().top();
            let ok = fs.len() >= 2 && k <= t.len() && crate::call_stack::types_match(crate::call_stack::top_n(t, k), ty.results@)
                && (exact ==> t.len() == k);
            let caller = fs[fs.len() - 2];
            &&& ok ==> r is Ok && cs1.funcs@.len() == fs.len() - 1
                && cs1.top_frame().blocks_view() == caller.blocks_view()
                    .update(caller.blocks_view().len() - 1, caller.top() + crate::call_stack::top_n(t, k))
                && cs1.top_frame().locals == caller.locals
            &&& fs.len() < 2 ==> r == Err::<(), Error>(Error::NoFunctionInStack)
            &&& fs.len() >= 2 && !crate::call_stack::take_ok(t, ty.results@) ==> r == Err::<(), Error>(crate::call_stack::take_failure(t, ty.results@))
            &&& fs.len() >= 2 && crate::call_stack::take_ok(t, ty.results@) && exact && t.len() != k ==> r == Err::<(), Error>(Error::TooManyReturns)
        }),
    ensures
        match r {
            Ok(_) => leave_call(frames_of(cs0), ty, exact) == Ok::<Seq<Frame>, Error>(frames_of(cs1)),
            Err(e) => leave_call(frames_of(cs0), ty, exact) == Err::<Seq<Frame>, Error>(e),
        },
{
    lemma_frames_len(cs0);
    if r is Ok {
        let n = cs0.funcs@.len();
        lemma_frames_len(cs1);
        let s0 = frames_of(cs0);
        let t = s0.last().blocks.last();
        let k = ty.results@.len() as int;
        let caller = s0[n - 2];
        let expected = s0.subrange(0, n - 2).push(with_top(caller, caller.blocks.last() + crate::call_stack::top_n(t, k)));
        assert forall|i: int| 0 <= i < n - 2 implies cs1.funcs@[i] == cs0.funcs@[i] by {
            assert(cs1.funcs@.subrange(0, n - 2)[i] == cs1.funcs@[i]);
            assert(cs0.funcs@.subrange(0, n - 2)[i] == cs0.funcs@[i]);
        }
        assert(frames_of(cs1) =~= expected);
    }
}

/// Calls a function: its arguments move into a new frame, its body runs, its
/// results move back to the caller. Also gives the answers the body got
/// from the float arithmetic.
fn execute_func<F: FloatOps>(h: &Handler<F>, funcs: &Elements<Func>, cs: &mut CallStack, index: &Index, fuel: &mut u64) -> (out: (Result<Response, Error>, Ghost<Seq<FloatCall>>))
    requires
        old(cs).wf(),
        funcs.wf(),
        funcs_grouped(funcs.current()),
    ensures
        ran(*old(cs), *final(cs), out.0),
        *final(fuel) <= *old(fuel),
        forall|fl: Seq<FloatCall>, k: nat| #[trigger] answers_at(fl, k, out.1@) ==>
            follows(eval_call(env_of(*funcs, fl), frames_of(*old(cs)), *old(fuel) as nat, k, *index),
                frames_of(*final(cs)), *final(fuel) as nat, k + out.1@.len(), out.0),
    decreases *old(fuel), 2nat,
{
    let ghost cs0 = *cs;
    proof {
        lemma_frames_len(cs0);
    }
    if cs.len() > MAX_STACK_SIZE {
        return (Err(Error::StackOverflow), Ghost(Seq::empty()));
    }
    let func = match funcs.get(index) {
        Ok(f) => f,
        Err(e) => return (Err(e), Ghost(Seq::empty())),
    };
    proof {
        match resolve(funcs.current_ids(), *index) {
            Some(k) => {
                assert(0 <= k);
                assert(k < funcs.current().len());
                assert(*func == funcs.current()[k]);
                assert(grouped_expr(funcs.current()[k].line_expression.expr));
            },
            None => {},
        }
    }
    let called = cs.add_func_stack(&func.ty);
    let ghost cs1 = *cs;
    proof {
        lemma_called(cs0, cs1, func.ty, called);
    }
    match called {
        Ok(()) => {},
        Err(e) => return (Err(e), Ghost(Seq::empty())),
    }
    match charge(fuel) {
        Ok(()) => {},
        Err(e) => return (Err(e), Ghost(Seq::empty())),
    }
    let (body_r, Ghost(ans)) = execute_line_expression(h, funcs, cs, &func.line_expression, fuel);
    let response = match body_r {
        Ok(resp) => resp,
        Err(e) => return (Err(e), Ghost(ans)),
    };
    let ghost cs2 = *cs;
    match verify_func_response(&response) {
        Ok(()) => {},
        Err(e) => return (Err(e), Ghost(ans)),
    }
    let returned = cs.remove_func_stack(&func.ty, response.requires_empty);
    proof {
        lemma_returned(cs2, *cs, func.ty, response.requires_empty, returned);
    }
    match returned {
        Ok(()) => {},
        Err(e) => return (Err(e), Ghost(ans)),
    }
    proof {
        let n = cs0.funcs@.len();
        assert(cs2.funcs@.len() == n + 1);
        assert(cs2.funcs@[n - 1].wf());
        FuncStack::lemma_depth(cs2.funcs@[n - 1]);
        assert(cs0.funcs@[n - 1].wf());
        FuncStack::lemma_depth(cs0.funcs@[n - 1]);
        assert(depth_of(cs1, n - 1) == depth_of(cs2, n - 1));
        assert forall|i: int| 0 <= i < n implies #[trigger] depth_of(cs0, i) == depth_of(*cs, i) by {
            assert(depth_of(cs1, i) == depth_of(cs2, i));
            if i < n - 1 {
                assert(cs1.funcs@.subrange(0, n - 1)[i] == cs1.funcs@[i]);
                assert(cs0.funcs@.subrange(0, n - 1)[i] == cs0.funcs@[i]);
                assert(cs2.funcs@.subrange(0, n - 1)[i] == cs2.funcs@[i]);
                assert(cs.funcs@.subrange(0, n - 1)[i] == cs.funcs@[i]);
            }
        }
    }
    (Ok(Response::new()), Ghost(ans))
}

/// The text of an optional name.
pub open spec fn name_text(id: Option<String>) -> Option<Seq<char>> {
    match id {
        Some(s) => Some(s@),
        None => None,
    }
}

/// Declares a local of the innermost frame, holding the zero of its type.
fn execute_local(cs: &mut CallStack, lc: &Local) -> (r: Result<Response, Error>)
    requires
        old(cs).wf(),
    ensures
        final(cs).wf(),
        final(cs).same_committed(old(cs)),
        final(cs).funcs@.len() == old(cs).funcs@.len(),
        final(cs).funcs@.drop_last() == old(cs).funcs@.drop_last(),
        final(cs).top_frame().blocks_view() == old(cs).top_frame().blocks_view(),
        ({
            let ls = old(cs).top_frame().locals;
            r matches Ok(resp) ==> resp.messages() == seq![index_message("local"@, ls.current().len(), name_text(lc.id))]
                && resp.control == Control::Proceed
                && resp.requires_empty
        }),
        match r {
            Ok(_) => declare(frames_of(*old(cs)), *lc) == Ok::<Seq<Frame>, Error>(frames_of(*final(cs))),
            Err(e) => declare(frames_of(*old(cs)), *lc) matches Err(e2) && same_error(e, e2),
        },
{
    let ghost cs0 = *cs;
    proof {
        assert(cs0.funcs@[cs0.funcs@.len() - 1].wf());
        lemma_frames_len(cs0);
    }
    let frame = match cs.get_func_stack() {
        Ok(f) => f,
        Err(e) => return Err(e),
    };
    let ghost f0 = *frame;
    if frame.locals.is_full() {
        proof {
            FuncStack::lemma_same_blocks(f0, *frame);
            assert(cs.funcs@.drop_last() =~= cs0.funcs@.drop_last());
        }
        return Err(Error::StackOverflow);
    }
    let print_id = match &lc.id {
        Some(s) => Some(s.clone()),
        None => None,
    };
    let id = match &lc.id {
        Some(s) => Some(s.clone()),
        None => None,
    };
    let r = frame.locals.grow_with_id(id, Value::default_of(&lc.val_type));
    proof {
        FuncStack::lemma_same_blocks(f0, *frame);
        assert(cs.funcs@.drop_last() =~= cs0.funcs@.drop_last());
        lemma_frames_last(cs0, *cs);
    }
    let answer = match r {
        Ok(i) => Ok(Response::new_index("local", i, print_id)),
        Err(e) => Err(e),
    };
    proof {
        let n = cs0.funcs@.len();
        assert(cs.funcs@.drop_last() =~= cs0.funcs@.drop_last());
        assert forall|i: int| 0 <= i < n implies #[trigger] cs.funcs@[i].wf() by {
            if i < n - 1 {
                assert(cs.funcs@[i] == cs0.funcs@[i]);
            }
        }
        if n > 1 {
            assert(cs.funcs@[0] == cs0.funcs@[0]);
        }
    }
    answer
}

/// Once declaring a prefix of the locals fails, declaring them all fails the
/// same way.
proof fn lemma_declare_err(s: Seq<Frame>, lcs: Seq<Local>, m: int)
    requires
        0 <= m <= lcs.len(),
        declare_all(s, lcs.subrange(0, m)) is Err,
    ensures
        declare_all(s, lcs) == declare_all(s, lcs.subrange(0, m)),
    decreases lcs.len() - m,
{
    if m < lcs.len() {
        assert(lcs.subrange(0, m + 1).drop_last() =~= lcs.subrange(0, m));
        lemma_declare_err(s, lcs, m + 1);
    } else {
        assert(lcs.subrange(0, m) =~= lcs);
    }
}

/// Declares the locals of a line (or of a function body) in order, then runs
/// its expression. The answer holds one message per local declared. Also
/// gives the answers the expression got from the float arithmetic.
fn execute_line_expression<F: FloatOps>(h: &Handler<F>, funcs: &Elements<Func>, cs: &mut CallStack, le: &LineExpression, fuel: &mut u64) -> (out: (Result<Response, Error>, Ghost<Seq<FloatCall>>))
    requires
        old(cs).wf(),
        funcs.wf(),
        funcs_grouped(funcs.current()),
        grouped_expr(le.expr),
    ensures
        final(cs).wf(),
        final(cs).same_committed(old(cs)),
        *final(fuel) <= *old(fuel),
        out.0 matches Ok(resp) ==> same_shape(*old(cs), *final(cs))
            && resp.messages().len() == le.locals@.len()
            && forall|k: int| 0 <= k < le.locals@.len() ==> #[trigger] resp.messages()[k]
                == index_message("local"@, (old(cs).top_frame().locals.current().len() + k) as nat, name_text(le.locals@[k].id)),
        forall|fl: Seq<FloatCall>, k: nat| #[trigger] answers_at(fl, k, out.1@) ==>
            follows(eval_body(env_of(*funcs, fl), frames_of(*old(cs)), *old(fuel) as nat, k, *le),
                frames_of(*final(cs)), *final(fuel) as nat, k + out.1@.len(), out.0),
    decreases *old(fuel), 5nat,
{
    let ghost cs0 = *cs;
    let ghost s0 = frames_of(cs0);
    let ghost base = cs0.top_frame().locals.current().len();
    let mut response = Response::new();
    proof {
        lemma_same_shape_refl(cs0);
        assert(le.locals@.subrange(0, 0) =~= Seq::<Local>::empty());
    }
    let mut j: usize = 0;
    while j < le.locals.len()
        invariant
            cs.wf(),
            cs.same_committed(&cs0),
            same_shape(cs0, *cs),
            cs0 == *old(cs),
            s0 == frames_of(cs0),
            base == cs0.top_frame().locals.current().len(),
            j <= le.locals@.len(),
            cs.top_frame().locals.current().len() == base + j,
            response.messages().len() == j,
            forall|k: int| 0 <= k < j ==> #[trigger] response.messages()[k]
                == index_message("local"@, (base + k) as nat, name_text(le.locals@[k].id)),
            declare_all(s0, le.locals@.subrange(0, j as int)) == Ok::<Seq<Frame>, Error>(frames_of(*cs)),
        decreases le.locals@.len() - j,
    {
        let ghost csb = *cs;
        let ghost before = response.messages();
        proof {
            lemma_frames_len(csb);
            assert(le.locals@.subrange(0, j + 1).drop_last() =~= le.locals@.subrange(0, j as int));
        }
        match execute_local(cs, &le.locals[j]) {
            Ok(resp) => response.extend(resp),
            Err(e) => {
                proof {
                    lemma_declare_err(s0, le.locals@, j + 1);
                }
                return (Err(e), Ghost(Seq::empty()));
            },
        }
        proof {
            let n = csb.funcs@.len();
            lemma_frames_len(*cs);
            assert(cs.top_frame().locals.current() == csb.top_frame().locals.current().push(zero_of(le.locals@[j as int].val_type)));
            assert forall|i: int| 0 <= i < n implies #[trigger] depth_of(csb, i) == depth_of(*cs, i) by {
                if i < n - 1 {
                    assert(cs.funcs@.drop_last()[i] == cs.funcs@[i]);
                    assert(csb.funcs@.drop_last()[i] == csb.funcs@[i]);
                }
            }
            lemma_same_shape_trans(cs0, csb, *cs);
            assert(response.messages() == before.push(response.messages()[j as int]));
        }
        j = j + 1;
    }
    let ghost csm = *cs;
    let ghost kept = response.messages();
    proof {
        assert(le.locals@.subrange(0, le.locals@.len() as int) =~= le.locals@);
    }
    let (expr_r, Ghost(ans)) = execute_expr(h, funcs, cs, &le.expr, fuel);
    match expr_r {
        Ok(resp) => response.extend(resp),
        Err(e) => return (Err(e), Ghost(ans)),
    }
    proof {
        lemma_same_shape_trans(cs0, csm, *cs);
        assert(response.messages() =~= kept);
    }
    (Ok(response), Ghost(ans))
}

/// A line may not end with `return` or with a branch out of it.
fn verify_repl_result(result: Result<Response, Error>) -> (r: Result<Response, Error>)
    ensures
        result is Err ==> r == result,
        result matches Ok(resp) ==> match resp.control {
            Control::Return => r == Err::<Response, Error>(Error::ReturnOutsideFunc),
            Control::Branch(_) => r == Err::<Response, Error>(Error::BranchLeak),
            _ => r == result,
        },
{
    match result {
        Ok(response) => match response.control {
            Control::Return => Err(Error::ReturnOutsideFunc),
            Control::Branch(_) => Err(Error::BranchLeak),
            _ => Ok(response),
        },
        Err(err) => Err(err),
    }
}

/// The REPL engine: the call stack, whose outermost frame holds the line's
/// values and locals, and the functions defined so far.
pub struct Executor {
    call_stack: CallStack,
    funcs: Elements<Func>,
    calls: Ghost<Seq<FloatCall>>,
    text_calls: Ghost<Seq<Option<FloatCall>>>,
}

impl Executor {
    /// Between lines: one frame with one block, nothing pending, every
    /// function body ready to run.
    pub closed spec fn wf(&self) -> bool {
        &&& self.call_stack.wf()
        &&& self.call_stack.settled()
        &&& self.funcs.wf()
        &&& funcs_grouped(self.funcs.current())
    }

    /// The call stack.
    pub closed spec fn state(&self) -> CallStack {
        self.call_stack
    }

    /// The values on the stack, bottom first.
    pub closed spec fn values(&self) -> Seq<Value> {
        self.call_stack.funcs@[0].committed_values()
    }

    /// The values of the locals the lines declared.
    pub closed spec fn locals(&self) -> Seq<Value> {
        self.call_stack.funcs@[0].locals.committed()
    }

    /// The names of those locals, with their positions.
    pub closed spec fn local_ids(&self) -> Map<Seq<char>, usize> {
        self.call_stack.funcs@[0].locals.committed_ids()
    }

    /// The machine state between lines: one frame of one block, holding the
    /// values, with the locals and their names.
    pub open spec fn machine(&self) -> Seq<Frame> {
        seq![Frame { blocks: seq![self.values()], locals: self.locals(), ids: self.local_ids() }]
    }

    /// The requests the last line run made of the float arithmetic, in
    /// order, with the answers it gave.
    pub closed spec fn float_calls(&self) -> Seq<FloatCall> {
        self.calls@
    }

    /// The requests made of the float arithmetic for the text of each value
    /// of the stack that the last line answered with, with its answers.
    pub closed spec fn text_calls(&self) -> Seq<Option<FloatCall>> {
        self.text_calls@
    }

    /// The functions defined, in order.
    pub closed spec fn funcs(&self) -> Seq<Func> {
        self.funcs.current()
    }

    /// The names of the functions, with their positions.
    pub closed spec fn func_ids(&self) -> Map<Seq<char>, usize> {
        self.funcs.current_ids()
    }

    /// No values, no locals, no functions.
    pub fn new() -> (e: Executor)
        ensures
            e.wf(),
            e.values() == Seq::<Value>::empty(),
            e.locals() == Seq::<Value>::empty(),
            e.local_ids() == Map::<Seq<char>, usize>::empty(),
            e.funcs() == Seq::<Func>::empty(),
            e.func_ids() == Map::<Seq<char>, usize>::empty(),
    {
        Executor { call_stack: CallStack::new(), funcs: Elements::new(), calls: Ghost(Seq::empty()), text_calls: Ghost(Seq::empty()) }
    }

    /// The call stack, between lines.
    pub fn call_stack(&self) -> (c: &CallStack)
        ensures
            *c == self.state(),
    {
        &self.call_stack
    }

    /// Runs a line: defines a function, or runs an expression (see
    /// `line_done` and `func_added`).
    pub fn execute_line<F: FloatOps>(&mut self, line: Line, floats: &F) -> (r: Result<Response, Error>)
        requires
            old(self).wf(),
            grouped_line(line),
        ensures
            final(self).wf(),
            match line {
                Line::Expression(le) => line_done(*old(self), *final(self), le, r),
                Line::Func(f) => func_added(*old(self), *final(self), f, r),
            },
    {
        match line {
            Line::Expression(le) => self.execute_repl_line(le, floats),
            Line::Func(func) => self.execute_add_func(func),
        }
    }

    fn execute_add_func(&mut self, func: Func) -> (r: Result<Response, Error>)
        requires
            old(self).wf(),
            grouped_expr(func.line_expression.expr),
        ensures
            final(self).wf(),
            func_added(*old(self), *final(self), func, r),
    {
        if self.funcs.is_full() {
            return Err(Error::StackOverflow);
        }
        let id = match &func.id {
            Some(s) => Some(s.clone()),
            None => None,
        };
        let name = match &func.id {
            Some(s) => Some(s.clone()),
            None => None,
        };
        let ghost f = func;
        let ghost before = self.funcs.current();
        let r = self.funcs.grow_with_id(name, func);
        proof {
            assert forall|k: int| 0 <= k < self.funcs.current().len() implies #[trigger] grouped_expr(self.funcs.current()[k].line_expression.expr) by {
                if k < before.len() {
                    assert(self.funcs.current()[k] == before[k]);
                }
            }
        }
        match r {
            Ok(i) => Ok(Response::new_index("func", i, id)),
            Err(e) => Err(e),
        }
    }

    fn execute_repl_line<F: FloatOps>(&mut self, line: LineExpression, floats: &F) -> (r: Result<Response, Error>)
        requires
            old(self).wf(),
            grouped_expr(line.expr),
        ensures
            final(self).wf(),
            line_done(*old(self), *final(self), line, r),
    {
        let h = Handler::new(floats);
        let mut fuel: u64 = STEP_LIMIT;
        let ghost cs0 = self.call_stack;
        proof {
            cs0.funcs@[0].lemma_settled();
            lemma_frames_len(cs0);
            assert(frames_of(cs0) =~= old(self).machine());
        }
        let (result, Ghost(ans)) = execute_line_expression(&h, &self.funcs, &mut self.call_stack, &line, &mut fuel);
        let ghost cs1 = self.call_stack;
        proof {
            assert(answers_at(ans, 0, ans)) by {
                assert(ans.subrange(0, ans.len() as int) =~= ans);
            }
        }
        let ghost run = line_run(*old(self), line, ans);
        proof {
            assert(env_of(self.funcs, ans) == Env { funcs: old(self).funcs(), fids: old(self).func_ids(), answers: ans });
            assert(follows(run, frames_of(cs1), fuel as nat, ans.len(), result));
        }
        self.calls = Ghost(ans);
        let r = match verify_repl_result(result) {
            Ok(mut response) => {
                proof {
                    assert(depth_of(cs0, 0) == depth_of(cs1, 0));
                    lemma_frames_len(cs1);
                    FuncStack::lemma_depth(cs1.funcs@[0]);
                    assert(cs1.funcs@[0].blocks_view() =~= seq![cs1.funcs@[0].blocks_view()[0]]);
                    assert(frames_of(cs1) =~= seq![frame_of(cs1.funcs@[0])]);
                }
                self.call_stack.commit();
                let (text, Ghost(tc)) = self.call_stack.to_string(floats);
                self.text_calls = Ghost(tc);
                response.add_message(text);
                Ok(response)
            },
            Err(err) => {
                self.call_stack.rollback();
                Err(err)
            },
        };
        proof {
            assert(line_result(run, ans, *self, r));
        }
        r
    }
}

/// What defining the function `f` does: a function with a fresh name (or
/// none) is appended and announced as `func ;i;` followed by its name; a
/// name already in use fails with `KeyExists`. The stack and the locals are
/// not touched.
pub open spec fn func_added(before: Executor, after: Executor, f: Func, r: Result<Response, Error>) -> bool {
    let fresh = !(f.id matches Some(s) && before.func_ids().dom().contains(s@));
    let room = before.funcs().len() < usize::MAX;
    &&& after.values() == before.values()
    &&& after.locals() == before.locals()
    &&& after.local_ids() == before.local_ids()
    &&& (fresh && room) ==> (r matches Ok(resp)
        && resp.messages() == seq![index_message("func"@, before.funcs().len(), name_text(f.id))]
        && resp.control == Control::Proceed
        && after.funcs() == before.funcs().push(f)
        && after.func_ids() == match f.id {
            Some(s) => before.func_ids().insert(s@, before.funcs().len() as usize),
            None => before.func_ids(),
        })
    &&& (!fresh && room) ==> (r matches Err(Error::KeyExists(k)) && k@ == f.id->0@)
    &&& !(fresh && room) ==> r is Err && after.funcs() == before.funcs() && after.func_ids() == before.func_ids()
}

/// How the run of a line decides its answer: a failure of the run fails the
/// line; so does a `return`, or a branch out of the line; otherwise the line
/// succeeds, after using all of the float answers `answers`, and the machine
/// is left with one frame of one block, holding the values, the locals and
/// their names that the engine keeps.
pub open spec fn line_result(run: Run, answers: Seq<FloatCall>, after: Executor, r: Result<Response, Error>) -> bool {
    match run {
        Some((s2, _f2, k2, res)) => match res {
            Err(e) => r matches Err(e2) && same_error(e2, e),
            Ok((Control::Return, _)) => r == Err::<Response, Error>(Error::ReturnOutsideFunc),
            Ok((Control::Branch(_), _)) => r == Err::<Response, Error>(Error::BranchLeak),
            Ok(_) => r is Ok && s2 == after.machine() && k2 == answers.len(),
        },
        None => false,
    }
}

/// The run of the line `le` on the engine `e`, with the float answers
/// `answers`.
pub open spec fn line_run(e: Executor, le: LineExpression, answers: Seq<FloatCall>) -> Run {
    eval_body(Env { funcs: e.funcs(), fids: e.func_ids(), answers }, e.machine(), STEP_LIMIT as nat, 0, le)
}

/// What running the line `le` does. Its outcome is that of its run on the
/// machine (`line_run`), with the requests the line made of the float
/// arithmetic and the answers it gave (`float_calls`). A line
/// that fails leaves the stack and the locals as they were. A line that runs
/// to its end makes its effect permanent and answers one message per local it
/// declares (`local ;i;` followed by its name), then the text of the new
/// stack (made with the requests `text_calls`). Functions are not touched.
pub open spec fn line_done(before: Executor, after: Executor, le: LineExpression, r: Result<Response, Error>) -> bool {
    &&& after.funcs() == before.funcs()
    &&& after.func_ids() == before.func_ids()
    &&& r is Err ==> after.values() == before.values()
        && after.locals() == before.locals()
        && after.local_ids() == before.local_ids()
    &&& line_result(line_run(before, le, after.float_calls()), after.float_calls(), after, r)
    &&& r matches Ok(resp) ==> resp.messages().len() == le.locals@.len() + 1
        && (forall|k: int| 0 <= k < le.locals@.len() ==> #[trigger] resp.messages()[k]
            == index_message("local"@, (before.locals().len() + k) as nat, name_text(le.locals@[k].id)))
        && exists|parts: Seq<Seq<char>>| texts_of(after.values(), parts, after.text_calls()) && resp.messages().last() == bracket_list(parts)
}

/// Running the same line on the same engine twice, with the same answers of
/// the float arithmetic, answers alike: both runs succeed or both fail, and
/// they leave the same values, locals and names.
pub proof fn law_line_deterministic(before: Executor, a1: Executor, a2: Executor, le: LineExpression, answers: Seq<FloatCall>, r1: Result<Response, Error>, r2: Result<Response, Error>)
    requires
        line_done(before, a1, le, r1),
        line_done(before, a2, le, r2),
        line_result(line_run(before, le, answers), answers, a1, r1),
        line_result(line_run(before, le, answers), answers, a2, r2),
    ensures
        r1 is Ok <==> r2 is Ok,
        a1.values() == a2.values(),
        a1.locals() == a2.locals(),
        a1.local_ids() == a2.local_ids(),
{
    if r1 is Ok && r2 is Ok {
        assert(a1.machine()[0].blocks[0] == a1.values());
        assert(a2.machine()[0].blocks[0] == a2.values());
    }
}

} // verus!
