//! Frames of function calls, each a stack of blocks over typed locals.
//! Changes are transactional: `commit` makes the state of the outermost
//! frame permanent, `rollback` returns to it.
use vstd::prelude::*;
use crate::error::Error;
use crate::locals::Locals;
use crate::model::{FuncType, Local, ValType};
use crate::ops::{FloatCall, FloatOps};
use crate::stack::{bracket_list, texts_of, Stack};
use crate::value::{type_of, Value};

verus! {

/// The values of `vals` have the types `tys`, one for one.
pub open spec fn types_match(vals: Seq<Value>, tys: Seq<ValType>) -> bool {
    &&& vals.len() == tys.len()
    &&& forall|i: int| 0 <= i < vals.len() ==> #[trigger] type_of(vals[i]) == tys[i]
}

/// The types of a parameter list.
pub open spec fn param_types(params: Seq<Local>) -> Seq<ValType> {
    params.map_values(|l: Local| l.val_type)
}

/// The values on top of `s` that a block or function of `n` inputs takes:
/// the last `n` of them, in order.
pub open spec fn top_n(s: Seq<Value>, n: int) -> Seq<Value> {
    s.subrange(s.len() - n, s.len() as int)
}

/// Why taking values of the types `tys` from the top of `t` fails: they are
/// checked from the top down, and the first value missing (stack underflow)
/// or of another type (type mismatch) decides.
pub open spec fn take_failure(t: Seq<Value>, tys: Seq<ValType>) -> Error
    decreases tys.len(),
{
    if tys.len() == 0 || t.len() == 0 {
        Error::StackUnderflow
    } else if type_of(t.last()) != tys.last() {
        Error::TypeMismatch
    } else {
        take_failure(t.drop_last(), tys.drop_last())
    }
}

/// Values of the types `tys` can be taken from the top of `t`.
pub open spec fn take_ok(t: Seq<Value>, tys: Seq<ValType>) -> bool {
    tys.len() <= t.len() && types_match(top_n(t, tys.len() as int), tys)
}

/// The parameter has the name `x`.
pub open spec fn names(p: Local, x: Seq<char>) -> bool {
    p.id is Some && p.id->0@ == x
}

/// Names given to two different parameters are different.
pub open spec fn distinct_names(params: Seq<Local>) -> bool {
    forall|i: int, j: int| 0 <= i < j < params.len() && (#[trigger] params[i]).id is Some && (#[trigger] params[j]).id is Some
        ==> params[i].id->0@ != params[j].id->0@
}

/// The name of the first parameter that repeats the name of an earlier one.
pub open spec fn dup_name(params: Seq<Local>) -> Option<String>
    decreases params.len(),
{
    if params.len() == 0 {
        None
    } else {
        match dup_name(params.drop_last()) {
            Some(x) => Some(x),
            None => match params.last().id {
                Some(x) => if exists|j: int| 0 <= j < params.len() - 1 && #[trigger] names(params[j], x@) { Some(x) } else { None },
                None => None,
            },
        }
    }
}

/// No parameter repeats a name exactly when all names differ.
pub proof fn lemma_dup_distinct(p: Seq<Local>)
    ensures
        dup_name(p) is None <==> distinct_names(p),
    decreases p.len(),
{
    if p.len() > 0 {
        let d = p.drop_last();
        lemma_dup_distinct(d);
        if distinct_names(p) {
            assert forall|i: int, j: int| 0 <= i < j < d.len() && (#[trigger] d[i]).id is Some && (#[trigger] d[j]).id is Some
                implies d[i].id->0@ != d[j].id->0@ by {
                assert(d[i] == p[i] && d[j] == p[j]);
            }
            if let Some(x) = p.last().id {
                if exists|j: int| 0 <= j < p.len() - 1 && #[trigger] names(p[j], x@) {
                    let j = choose|j: int| 0 <= j < p.len() - 1 && #[trigger] names(p[j], x@);
                    assert(p[j].id is Some && p[p.len() - 1].id is Some);
                }
            }
        }
        if dup_name(p) is None {
            assert forall|i: int, j: int| 0 <= i < j < p.len() && (#[trigger] p[i]).id is Some && (#[trigger] p[j]).id is Some
                implies p[i].id->0@ != p[j].id->0@ by {
                if j < p.len() - 1 {
                    assert(d[i] == p[i] && d[j] == p[j]);
                } else {
                    if p[i].id->0@ == p[j].id->0@ {
                        assert(names(p[i], p.last().id->0@));
                    }
                }
            }
        }
    }
}

/// A repeated name in a prefix is the first repeated name of the whole list.
pub proof fn lemma_dup_prefix(p: Seq<Local>, m: int)
    requires
        0 <= m <= p.len(),
        dup_name(p.subrange(0, m)) is Some,
    ensures
        dup_name(p) == dup_name(p.subrange(0, m)),
    decreases p.len() - m,
{
    if m < p.len() {
        let q = p.subrange(0, m + 1);
        assert(q.drop_last() =~= p.subrange(0, m));
        lemma_dup_prefix(p, m + 1);
    } else {
        assert(p.subrange(0, m) =~= p);
    }
}

/// The names a parameter list gives its locals, with their positions.
pub open spec fn param_ids(params: Seq<Local>) -> Map<Seq<char>, usize>
    decreases params.len(),
{
    if params.len() == 0 {
        Map::empty()
    } else {
        let m = param_ids(params.drop_last());
        match params.last().id {
            Some(x) => m.insert(x@, (params.len() - 1) as usize),
            None => m,
        }
    }
}

/// The types of a parameter list, in order.
pub fn local_types(params: &Vec<Local>) -> (r: Vec<ValType>)
    ensures
        r@ == param_types(params@),
{
    let mut r: Vec<ValType> = Vec::new();
    let mut i: usize = 0;
    while i < params.len()
        invariant
            i <= params@.len(),
            r@ == param_types(params@).subrange(0, i as int),
        decreases params@.len() - i,
    {
        r.push(params[i].val_type);
        assert(param_types(params@).subrange(0, i + 1) == param_types(params@).subrange(0, i as int).push(params@[i as int].val_type));
        i = i + 1;
    }
    assert(param_types(params@).subrange(0, params@.len() as int) == param_types(params@));
    r
}

/// A frame: the value stacks of the blocks entered, innermost last, and the
/// locals.
pub struct FuncStack {
    pub blocks: Vec<Stack>,
    pub locals: Locals,
}

impl FuncStack {
    pub open spec fn wf(&self) -> bool {
        &&& self.blocks@.len() >= 1
        &&& forall|i: int| 0 <= i < self.blocks@.len() ==> #[trigger] self.blocks@[i].wf()
        &&& self.locals.wf()
    }

    /// The current values of each block, outermost first.
    pub closed spec fn blocks_view(&self) -> Seq<Seq<Value>> {
        Seq::new(self.blocks@.len(), |i: int| self.blocks@[i].current())
    }

    /// The current values of the innermost block.
    pub open spec fn top(&self) -> Seq<Value> {
        self.blocks_view().last()
    }

    /// The committed values of the outermost block.
    pub closed spec fn committed_values(&self) -> Seq<Value> {
        self.blocks@[0].committed()
    }

    /// No change is pending and no block is entered.
    pub closed spec fn settled(&self) -> bool {
        &&& self.blocks@.len() == 1
        &&& self.blocks@[0].settled()
        &&& self.locals.settled()
    }

    /// The state that survives a rollback: the committed outermost values
    /// and the committed locals.
    pub open spec fn same_committed(&self, other: &FuncStack) -> bool {
        &&& self.committed_values() == other.committed_values()
        &&& self.locals.committed() == other.locals.committed()
        &&& self.locals.committed_ids() == other.locals.committed_ids()
    }

    /// A settled frame has one block, holding the committed values, and its
    /// committed locals.
    pub proof fn lemma_settled(&self)
        requires
            self.wf(),
            self.settled(),
        ensures
            self.blocks_view() == seq![self.committed_values()],
            self.locals.current() == self.locals.committed(),
            self.locals.current_ids() == self.locals.committed_ids(),
    {
        self.blocks@[0].lemma_settled();
        self.locals.lemma_settled();
        assert(self.blocks_view() =~= seq![self.committed_values()]);
    }

    /// `next` is this frame with the values of the innermost block replaced
    /// by `t`: the outer blocks, the locals and the committed state are kept.
    pub open spec fn moved_to(&self, next: FuncStack, t: Seq<Value>) -> bool {
        &&& next.wf()
        &&& next.blocks_view() == self.blocks_view().update(self.blocks_view().len() - 1, t)
        &&& next.locals == self.locals
        &&& next.same_committed(self)
    }

    /// Two moves of the innermost block are one move; after a move the
    /// innermost block holds what it was moved to.
    pub proof fn lemma_moved_trans(a: FuncStack, b: FuncStack, c: FuncStack, t1: Seq<Value>, t2: Seq<Value>)
        requires
            a.wf(),
            a.moved_to(b, t1),
            b.moved_to(c, t2),
        ensures
            b.top() == t1,
            c.top() == t2,
            a.moved_to(c, t2),
    {
        assert(c.blocks_view() =~= a.blocks_view().update(a.blocks_view().len() - 1, t2));
    }

    /// Frames with the same blocks have the same block values.
    pub proof fn lemma_same_blocks(a: FuncStack, b: FuncStack)
        requires
            a.blocks == b.blocks,
        ensures
            a.blocks_view() == b.blocks_view(),
            a.committed_values() == b.committed_values(),
    {
        assert(a.blocks_view() =~= b.blocks_view());
    }

    /// After a move to `t` the innermost block holds `t`.
    pub proof fn lemma_moved_top(a: FuncStack, b: FuncStack, t: Seq<Value>)
        requires
            a.wf(),
            a.moved_to(b, t),
        ensures
            b.top() == t,
    {
    }

    /// A well-formed frame has entered at least its outermost block.
    pub proof fn lemma_depth(a: FuncStack)
        requires
            a.wf(),
        ensures
            a.blocks_view().len() == a.blocks@.len(),
            a.blocks_view().len() >= 1,
    {
    }

    /// Leaving the innermost block as it is, is a move.
    pub proof fn lemma_moved_refl(a: FuncStack)
        requires
            a.wf(),
        ensures
            a.moved_to(a, a.top()),
    {
        assert(a.blocks_view().update(a.blocks_view().len() - 1, a.top()) =~= a.blocks_view());
    }

    /// A frame with one empty block and no locals.
    pub fn new() -> (f: FuncStack)
        ensures
            f.wf(),
            f.settled(),
            f.blocks_view() == seq![Seq::<Value>::empty()],
            f.committed_values() == Seq::<Value>::empty(),
            f.locals.current() == Seq::<Value>::empty(),
            f.locals.committed() == Seq::<Value>::empty(),
            f.locals.current_ids() == Map::<Seq<char>, usize>::empty(),
            f.locals.committed_ids() == Map::<Seq<char>, usize>::empty(),
    {
        let mut blocks: Vec<Stack> = Vec::new();
        blocks.push(Stack::new());
        let f = FuncStack { blocks, locals: Locals::new() };
        assert(f.blocks_view() =~= seq![Seq::<Value>::empty()]);
        f
    }

    /// Pushes a value on the innermost block.
    pub fn push(&mut self, value: Value) -> (r: Result<(), Error>)
        requires
            old(self).wf(),
        ensures
            final(self).wf(),
            r is Ok,
            final(self).blocks_view() == old(self).blocks_view().update(old(self).blocks_view().len() - 1, old(self).top().push(value)),
            final(self).locals == old(self).locals,
            final(self).same_committed(old(self)),
    {
        let n = self.blocks.len();
        self.blocks[n - 1].push(value);
        assert(self.blocks_view() =~= old(self).blocks_view().update(n - 1, old(self).top().push(value)));
        Ok(())
    }

    /// Removes and returns the top value of the innermost block; fails, with
    /// nothing changed, when that block is empty.
    pub fn pop(&mut self) -> (r: Result<Value, Error>)
        requires
            old(self).wf(),
        ensures
            final(self).wf(),
            final(self).locals == old(self).locals,
            final(self).same_committed(old(self)),
            old(self).top().len() == 0 ==> r == Err::<Value, Error>(Error::StackUnderflow) && final(self).blocks_view() == old(self).blocks_view(),
            old(self).top().len() > 0 ==> r == Ok::<Value, Error>(old(self).top().last())
                && final(self).blocks_view() == old(self).blocks_view().update(old(self).blocks_view().len() - 1, old(self).top().drop_last()),
    {
        let n = self.blocks.len();
        let r = self.blocks[n - 1].pop();
        assert(self.blocks_view() =~= old(self).blocks_view().update(n - 1, self.blocks@[n - 1].current()));
        r
    }

    /// The top value of the innermost block; fails when that block is empty.
    pub fn peek(&self) -> (r: Result<Value, Error>)
        requires
            self.wf(),
        ensures
            self.top().len() == 0 ==> r == Err::<Value, Error>(Error::StackUnderflow),
            self.top().len() > 0 ==> r == Ok::<Value, Error>(self.top().last()),
    {
        let n = self.blocks.len();
        self.blocks[n - 1].peek()
    }

    /// Whether the innermost block holds no value.
    pub fn is_empty(&self) -> (r: bool)
        requires
            self.wf(),
        ensures
            r == (self.top().len() == 0),
    {
        let n = self.blocks.len();
        self.blocks[n - 1].is_empty()
    }

    /// Enters a block of type `ty`: its parameters move, in order, from the
    /// top of the current block to the new block. Fails when the current
    /// block has too few values or they have other types.
    pub fn add_block_stack(&mut self, ty: &FuncType) -> (r: Result<(), Error>)
        requires
            old(self).wf(),
        ensures
            final(self).wf(),
            final(self).same_committed(old(self)),
            final(self).locals == old(self).locals,
            ({
                let k = ty.params@.len() as int;
                let t = old(self).top();
                let ok = k <= t.len() && types_match(top_n(t, k), param_types(ty.params@));
                &&& ok ==> r is Ok && final(self).blocks_view() == old(self).blocks_view()
                        .update(old(self).blocks_view().len() - 1, t.subrange(0, t.len() - k))
                        .push(top_n(t, k))
                &&& !ok ==> r == Err::<(), Error>(take_failure(t, param_types(ty.params@)))
            }),
    {
        let tys = local_types(&ty.params);
        let inputs = self.take_values(&tys);
        match inputs {
            Err(e) => Err(e),
            Ok(vals) => {
                let mut block = Stack::new();
                let mut i: usize = 0;
                while i < vals.len()
                    invariant
                        block.wf(),
                        i <= vals@.len(),
                        block.current() == vals@.subrange(0, i as int),
                        block.committed() == Seq::<Value>::empty(),
                    decreases vals@.len() - i,
                {
                    block.push(vals[i]);
                    assert(vals@.subrange(0, i + 1) == vals@.subrange(0, i as int).push(vals@[i as int]));
                    i = i + 1;
                }
                assert(vals@.subrange(0, vals@.len() as int) == vals@);
                let ghost before = self.blocks_view();
                self.blocks.push(block);
                assert(self.blocks_view() =~= before.push(vals@));
                Ok(())
            },
        }
    }

    /// Leaves the innermost block, whose type is `ty`: its results move, in
    /// order, from its top to the enclosing block. Fails when there is no
    /// enclosing block, when the results are missing or of other types, and,
    /// if `requires_empty`, when values beyond the results remain.
    pub fn remove_block_stack(&mut self, ty: &FuncType, requires_empty: bool) -> (r: Result<(), Error>)
        requires
            old(self).wf(),
        ensures
            final(self).wf(),
            final(self).same_committed(old(self)),
            final(self).locals == old(self).locals,
            ({
                let k = ty.results@.len() as int;
                let t = old(self).top();
                let bv = old(self).blocks_view();
                let ok = bv.len() >= 2 && k <= t.len() && types_match(top_n(t, k), ty.results@)
                    && (requires_empty ==> t.len() == k);
                &&& ok ==> r is Ok && final(self).blocks_view() == bv.drop_last().update(bv.len() - 2, bv[bv.len() - 2] + top_n(t, k))
                &&& bv.len() < 2 ==> r == Err::<(), Error>(Error::NoBlockInStack)
                &&& bv.len() >= 2 && !take_ok(t, ty.results@) ==> r == Err::<(), Error>(take_failure(t, ty.results@))
                &&& bv.len() >= 2 && take_ok(t, ty.results@) && requires_empty && t.len() != k ==> r == Err::<(), Error>(Error::TooManyReturns)
            }),
    {
        if self.blocks.len() < 2 {
            return Err(Error::NoBlockInStack);
        }
        let results = self.take_values(&ty.results);
        match results {
            Err(e) => Err(e),
            Ok(vals) => {
                if requires_empty && !self.is_empty() {
                    return Err(Error::TooManyReturns);
                }
                let ghost mid = self.blocks_view();
                let popped = self.blocks.pop();
                assert(self.blocks_view() =~= mid.drop_last());
                let n = self.blocks.len();
                let mut i: usize = 0;
                let ghost base = self.blocks_view();
                while i < vals.len()
                    invariant
                        self.wf(),
                        self.same_committed(old(self)),
                        self.locals == old(self).locals,
                        n == self.blocks@.len(),
                        n >= 1,
                        base.len() == n,
                        i <= vals@.len(),
                        self.blocks_view() == base.update(n - 1, base[n - 1] + vals@.subrange(0, i as int)),
                    decreases vals@.len() - i,
                {
                    let ghost before = self.blocks_view();
                    self.push(vals[i]);
                    assert(base[n - 1] + vals@.subrange(0, i + 1) == (base[n - 1] + vals@.subrange(0, i as int)).push(vals@[i as int]));
                    assert(self.blocks_view() =~= base.update(n - 1, base[n - 1] + vals@.subrange(0, i + 1)));
                    i = i + 1;
                }
                assert(vals@.subrange(0, vals@.len() as int) == vals@);
                Ok(())
            },
        }
    }

    /// Makes the current state of every block and of the locals permanent.
    pub fn commit(&mut self)
        requires
            old(self).wf(),
        ensures
            final(self).wf(),
            final(self).blocks_view() == old(self).blocks_view(),
            final(self).committed_values() == old(self).blocks_view()[0],
            final(self).locals.committed() == old(self).locals.current(),
            final(self).locals.committed_ids() == old(self).locals.current_ids(),
            final(self).locals.current() == old(self).locals.current(),
            final(self).locals.current_ids() == old(self).locals.current_ids(),
            old(self).blocks_view().len() == 1 ==> final(self).settled(),
    {
        let n = self.blocks.len();
        let mut i: usize = 0;
        while i < n
            invariant
                n == self.blocks@.len(),
                i <= n,
                n >= 1,
                self.locals == old(self).locals,
                self.locals.wf(),
                forall|j: int| 0 <= j < n ==> #[trigger] self.blocks@[j].wf(),
                forall|j: int| 0 <= j < n ==> #[trigger] self.blocks@[j].current() == old(self).blocks@[j].current(),
                forall|j: int| 0 <= j < i ==> #[trigger] self.blocks@[j].settled(),
                i > 0 ==> self.blocks@[0].committed() == old(self).blocks@[0].current(),
            decreases n - i,
        {
            self.blocks[i].commit();
            i = i + 1;
        }
        self.locals.commit();
        assert(self.blocks_view() =~= old(self).blocks_view());
    }

    /// Returns to the committed state: leaves every block but the outermost
    /// and drops the pending changes of that block and of the locals.
    pub fn rollback(&mut self)
        requires
            old(self).wf(),
        ensures
            final(self).wf(),
            final(self).settled(),
            final(self).same_committed(old(self)),
            final(self).blocks_view() == seq![old(self).committed_values()],
            final(self).locals.current() == old(self).locals.committed(),
            final(self).locals.current_ids() == old(self).locals.committed_ids(),
    {
        self.blocks.truncate(1);
        self.blocks[0].rollback();
        self.locals.rollback();
        assert(self.blocks_view() =~= seq![old(self).committed_values()]);
    }

    /// The text `[v0, v1, ...]` of the current values of the innermost block,
    /// with the request made for the text of each.
    pub fn to_soft_string<F: FloatOps>(&self, floats: &F) -> (r: Result<(String, Ghost<Seq<Option<FloatCall>>>), Error>)
        requires
            self.wf(),
        ensures
            r matches Ok(t) && exists|parts: Seq<Seq<char>>| texts_of(self.top(), parts, t.1@) && t.0@ == bracket_list(parts),
    {
        let n = self.blocks.len();
        self.blocks[n - 1].to_soft_string(floats)
    }

    /// Takes values of the types `tys` from the top of the innermost block;
    /// returns them in order.
    fn take_values(&mut self, tys: &Vec<ValType>) -> (r: Result<Vec<Value>, Error>)
        requires
            old(self).wf(),
        ensures
            final(self).wf(),
            final(self).same_committed(old(self)),
            final(self).locals == old(self).locals,
            final(self).blocks_view().len() == old(self).blocks_view().len(),
            ({
                let k = tys@.len() as int;
                let t = old(self).top();
                let ok = k <= t.len() && types_match(top_n(t, k), tys@);
                &&& ok ==> (r matches Ok(vals) && vals@ == top_n(t, k)
                        && final(self).blocks_view() == old(self).blocks_view()
                        .update(old(self).blocks_view().len() - 1, t.subrange(0, t.len() - k)))
                &&& !ok ==> r == Err::<Vec<Value>, Error>(take_failure(t, tys@))
            }),
    {
        let mut rev: Vec<Value> = Vec::new();
        let k = tys.len();
        let ghost t = old(self).top();
        let ghost bv = old(self).blocks_view();
        let ghost last = bv.len() - 1;
        let mut i: usize = k;
        assert(t.subrange(0, t.len() as int) == t);
        assert(tys@.subrange(0, k as int) =~= tys@);
        assert(bv.update(last, t) =~= bv);
        while i > 0
            invariant
                i <= k,
                k == tys@.len(),
                self.wf(),
                self.same_committed(old(self)),
                self.locals == old(self).locals,
                t == old(self).top(),
                bv == old(self).blocks_view(),
                last == bv.len() - 1,
                self.blocks_view().len() == bv.len(),
                rev@.len() == k - i,
                k - i <= t.len(),
                self.blocks_view() == bv.update(last, t.subrange(0, t.len() - (k - i))),
                forall|j: int| 0 <= j < k - i ==> #[trigger] rev@[j] == t[t.len() - 1 - j],
                forall|j: int| 0 <= j < k - i ==> type_of(#[trigger] t[t.len() - 1 - j]) == tys@[k - 1 - j],
                take_failure(t, tys@) == take_failure(t.subrange(0, t.len() - (k - i)), tys@.subrange(0, i as int)),
            decreases i,
        {
            proof {
                let t1 = t.subrange(0, t.len() - (k - i));
                let y1 = tys@.subrange(0, i as int);
                assert(y1.len() > 0);
                if t1.len() > 0 {
                    assert(t1.drop_last() =~= t.subrange(0, t.len() - (k - i) - 1));
                    assert(y1.drop_last() =~= tys@.subrange(0, i - 1));
                    assert(y1.last() == tys@[i - 1]);
                }
            }
            i = i - 1;
            let v = self.pop();
            match v {
                Err(e) => {
                    proof {
                        assert(!(k <= t.len()));
                    }
                    return Err(e);
                },
                Ok(v) => {
                    if v.val_type() != tys[i] {
                        proof {
                            if k <= t.len() {
                                let j = t.len() - 1 - (k - 1 - i);
                                assert(top_n(t, k as int)[i as int] == t[j]);
                                assert(!types_match(top_n(t, k as int), tys@));
                            }
                        }
                        return Err(Error::TypeMismatch);
                    }
                    rev.push(v);
                    assert(t.subrange(0, t.len() - (k - i - 1)).drop_last() == t.subrange(0, t.len() - (k - i)));
                }
            }
        }
        let mut vals: Vec<Value> = Vec::new();
        let mut j: usize = k;
        while j > 0
            invariant
                j <= k,
                rev@.len() == k,
                k <= t.len(),
                vals@.len() == k - j,
                forall|m: int| 0 <= m < k ==> #[trigger] rev@[m] == t[t.len() - 1 - m],
                forall|m: int| 0 <= m < k - j ==> #[trigger] vals@[m] == t[t.len() - k + m],
            decreases j,
        {
            j = j - 1;
            vals.push(rev[j]);
        }
        proof {
            assert(vals@ =~= top_n(t, k as int));
            assert forall|m: int| 0 <= m < k implies #[trigger] type_of(top_n(t, k as int)[m]) == tys@[m] by {
                let j = k - 1 - m;
                assert(type_of(t[t.len() - 1 - j]) == tys@[k - 1 - j]);
                assert(top_n(t, k as int)[m] == t[t.len() - 1 - j]);
            }
            assert(types_match(top_n(t, k as int), tys@));
        }
        Ok(vals)
    }
}

/// The frames of the calls in progress, outermost first. The outermost
/// frame belongs to the REPL itself.
pub struct CallStack {
    pub funcs: Vec<FuncStack>,
}

impl CallStack {
    pub open spec fn wf(&self) -> bool {
        &&& self.funcs@.len() >= 1
        &&& forall|i: int| 0 <= i < self.funcs@.len() ==> #[trigger] self.funcs@[i].wf()
    }

    /// The innermost frame.
    pub open spec fn top_frame(&self) -> FuncStack {
        self.funcs@.last()
    }

    /// Only the outermost frame exists, with no block entered and no change
    /// pending.
    pub open spec fn settled(&self) -> bool {
        self.funcs@.len() == 1 && self.funcs@[0].settled()
    }

    /// The state that survives a rollback is the same in both.
    pub open spec fn same_committed(&self, other: &CallStack) -> bool {
        self.funcs@[0].same_committed(&other.funcs@[0])
    }

    /// The outermost frame only, empty.
    pub fn new() -> (c: CallStack)
        ensures
            c.wf(),
            c.settled(),
            c.funcs@[0].blocks_view() == seq![Seq::<Value>::empty()],
            c.funcs@[0].committed_values() == Seq::<Value>::empty(),
            c.funcs@[0].locals.committed() == Seq::<Value>::empty(),
            c.funcs@[0].locals.committed_ids() == Map::<Seq<char>, usize>::empty(),
    {
        let mut funcs: Vec<FuncStack> = Vec::new();
        funcs.push(FuncStack::new());
        CallStack { funcs }
    }

    /// The number of frames.
    pub fn len(&self) -> (r: usize)
        ensures
            r == self.funcs@.len(),
    {
        self.funcs.len()
    }

    /// Pushes a value on the innermost block of the innermost frame.
    pub fn push(&mut self, value: Value) -> (r: Result<(), Error>)
        requires
            old(self).wf(),
        ensures
            r is Ok,
            final(self).wf(),
            final(self).same_committed(old(self)),
            final(self).funcs@.len() == old(self).funcs@.len(),
            final(self).funcs@.drop_last() == old(self).funcs@.drop_last(),
            old(self).top_frame().moved_to(final(self).top_frame(), old(self).top_frame().top().push(value)),
    {
        let n = self.funcs.len();
        assert(self.funcs@[n - 1].wf());
        let r = self.funcs[n - 1].push(value);
        proof {
            assert(self.funcs@.drop_last() =~= old(self).funcs@.drop_last());
            assert forall|i: int| 0 <= i < n implies #[trigger] self.funcs@[i].wf() by {
                if i < n - 1 {
                    assert(self.funcs@[i] == old(self).funcs@[i]);
                }
            }
            if n > 1 {
                assert(self.funcs@[0] == old(self).funcs@[0]);
            }
        }
        r
    }

    /// Removes and returns the top value of the innermost block of the
    /// innermost frame; fails, with nothing changed, when that block is empty.
    pub fn pop(&mut self) -> (r: Result<Value, Error>)
        requires
            old(self).wf(),
        ensures
            final(self).wf(),
            final(self).same_committed(old(self)),
            final(self).funcs@.len() == old(self).funcs@.len(),
            final(self).funcs@.drop_last() == old(self).funcs@.drop_last(),
            ({
                let t = old(self).top_frame().top();
                &&& t.len() == 0 ==> r == Err::<Value, Error>(Error::StackUnderflow)
                    && old(self).top_frame().moved_to(final(self).top_frame(), t)
                &&& t.len() > 0 ==> r == Ok::<Value, Error>(t.last())
                    && old(self).top_frame().moved_to(final(self).top_frame(), t.drop_last())
            }),
    {
        let n = self.funcs.len();
        assert(self.funcs@[n - 1].wf());
        let ghost f0 = self.funcs@[n - 1];
        let r = self.funcs[n - 1].pop();
        proof {
            FuncStack::lemma_moved_refl(f0);
            assert(self.funcs@.drop_last() =~= old(self).funcs@.drop_last());
            assert forall|i: int| 0 <= i < n implies #[trigger] self.funcs@[i].wf() by {
                if i < n - 1 {
                    assert(self.funcs@[i] == old(self).funcs@[i]);
                }
            }
            if n > 1 {
                assert(self.funcs@[0] == old(self).funcs@[0]);
            }
        }
        r
    }

    /// The innermost frame, to work on.
    pub fn get_func_stack(&mut self) -> (r: Result<&mut FuncStack, Error>)
        requires
            old(self).wf(),
        ensures
            r matches Ok(f) && *f == old(self).top_frame()
                && final(self).funcs@ == old(self).funcs@.update(old(self).funcs@.len() - 1, *final(f)),
    {
        let n = self.funcs.len();
        Ok(&mut self.funcs[n - 1])
    }

    /// Calls a function of type `ty`: its parameters move, in order, from
    /// the innermost block of the current frame to the locals of a new
    /// frame, named as the parameters are. Fails when values are missing or
    /// of other types, or when two parameters have the same name.
    pub fn add_func_stack(&mut self, ty: &FuncType) -> (r: Result<(), Error>)
        requires
            old(self).wf(),
        ensures
            final(self).wf(),
            final(self).same_committed(old(self)),
            final(self).funcs@.subrange(0, old(self).funcs@.len() - 1) == old(self).funcs@.subrange(0, old(self).funcs@.len() - 1),
            ({
                let k = ty.params@.len() as int;
                let t = old(self).top_frame().top();
                let ok = k <= t.len() && types_match(top_n(t, k), param_types(ty.params@));
                &&& !ok ==> r == Err::<(), Error>(take_failure(t, param_types(ty.params@)))
                &&& ok && dup_name(ty.params@) is None ==> r is Ok
                &&& ok && dup_name(ty.params@) is Some ==> (r matches Err(Error::KeyExists(k)) && k@ == dup_name(ty.params@)->0@)
                &&& r is Ok ==> ok
                    && final(self).funcs@.len() == old(self).funcs@.len() + 1
                    && final(self).funcs@[old(self).funcs@.len() - 1].blocks_view() == old(self).top_frame().blocks_view()
                        .update(old(self).top_frame().blocks_view().len() - 1, t.subrange(0, t.len() - k))
                    && final(self).funcs@[old(self).funcs@.len() - 1].locals == old(self).top_frame().locals
                    && final(self).top_frame().blocks_view() == seq![Seq::<Value>::empty()]
                    && final(self).top_frame().locals.current() == top_n(t, k)
                    && final(self).top_frame().locals.current_ids() == param_ids(ty.params@)
            }),
    {
        let n = self.funcs.len();
        let tys = local_types(&ty.params);
        assert(tys@.len() == ty.params@.len());
        assert(self.funcs@[n - 1] == old(self).top_frame());
        let taken = self.funcs[n - 1].take_values(&tys);
        assert(self.funcs@.subrange(0, n - 1) =~= old(self).funcs@.subrange(0, n - 1));
        match taken {
            Err(e) => Err(e),
            Ok(vals) => {
                let mut frame = FuncStack::new();
                let mut i: usize = 0;
                while i < vals.len()
                    invariant
                        frame.wf(),
                        self.wf(),
                        n == old(self).funcs@.len(),
                        self.funcs@.subrange(0, n - 1) == old(self).funcs@.subrange(0, n - 1),
                        self.same_committed(old(self)),
                        frame.blocks_view() == seq![Seq::<Value>::empty()],
                        i <= vals@.len(),
                        vals@.len() == ty.params@.len(),
                        frame.locals.current() == vals@.subrange(0, i as int),
                        frame.locals.current_ids() == param_ids(ty.params@.subrange(0, i as int)),
                        self.funcs@[n - 1].locals == old(self).top_frame().locals,
                        forall|x: Seq<char>| #[trigger] frame.locals.current_ids().dom().contains(x) <==>
                            exists|j: int| 0 <= j < i && names(#[trigger] ty.params@[j], x),
                        distinct_names(ty.params@.subrange(0, i as int)),
                        ty.params@.len() <= old(self).top_frame().top().len(),
                        types_match(top_n(old(self).top_frame().top(), ty.params@.len() as int), param_types(ty.params@)),
                    decreases vals@.len() - i,
                {
                    let name = match &ty.params[i].id {
                        Some(s) => Some(s.clone()),
                        None => None,
                    };
                    let ghost ids0 = frame.locals.current_ids();
                    match frame.locals.grow_with_id(name, vals[i]) {
                        Ok(_) => {},
                        Err(e) => {
                            proof {
                                let nm = ty.params@[i as int].id->0@;
                                assert(ids0.dom().contains(nm));
                                let j = choose|j: int| 0 <= j < i && names(#[trigger] ty.params@[j], nm);
                                let q = ty.params@.subrange(0, i + 1);
                                assert(q.drop_last() =~= ty.params@.subrange(0, i as int));
                                lemma_dup_distinct(ty.params@.subrange(0, i as int));
                                assert(q[j] == ty.params@[j]);
                                assert(names(q[j], nm));
                                assert(dup_name(q) == ty.params@[i as int].id);
                                lemma_dup_prefix(ty.params@, i + 1);
                            }
                            return Err(e);
                        },
                    }
                    proof {
                        let p = ty.params@.subrange(0, i + 1);
                        assert forall|a: int, b: int| 0 <= a < b < p.len() && (#[trigger] p[a]).id is Some && (#[trigger] p[b]).id is Some
                            implies p[a].id->0@ != p[b].id->0@ by {
                            if b == i {
                                assert(ids0.dom().contains(p[a].id->0@)) by {
                                    assert(ty.params@[a] == p[a]);
                                }
                            } else {
                                assert(ty.params@.subrange(0, i as int)[a] == p[a]);
                                assert(ty.params@.subrange(0, i as int)[b] == p[b]);
                            }
                        }
                        assert forall|x: Seq<char>| #[trigger] frame.locals.current_ids().dom().contains(x) <==>
                            exists|j: int| 0 <= j < i + 1 && names(#[trigger] ty.params@[j], x) by {
                            if frame.locals.current_ids().dom().contains(x) && !ids0.dom().contains(x) {
                                assert(names(ty.params@[i as int], x));
                            }
                            if exists|j: int| 0 <= j < i + 1 && names(#[trigger] ty.params@[j], x) {
                                if !(exists|j: int| 0 <= j < i && names(#[trigger] ty.params@[j], x)) {
                                    assert(names(ty.params@[i as int], x));
                                }
                            }
                        }
                    }
                    assert(vals@.subrange(0, i + 1) == vals@.subrange(0, i as int).push(vals@[i as int]));
                    assert(ty.params@.subrange(0, i + 1).drop_last() =~= ty.params@.subrange(0, i as int));
                    i = i + 1;
                }
                assert(vals@.subrange(0, vals@.len() as int) == vals@);
                assert(ty.params@.subrange(0, ty.params@.len() as int) =~= ty.params@);
                proof {
                    lemma_dup_distinct(ty.params@);
                }
                let ghost before = self.funcs@;
                self.funcs.push(frame);
                assert(self.funcs@.subrange(0, n - 1) =~= before.subrange(0, n - 1));
                Ok(())
            },
        }
    }

    /// Returns from the innermost frame, of a function of type `ty`: its
    /// results move, in order, from the frame's innermost block to the
    /// innermost block of the calling frame. Fails when there is no calling
    /// frame, when the results are missing or of other types, and, if
    /// `requires_empty`, when values beyond the results remain.
    pub fn remove_func_stack(&mut self, ty: &FuncType, requires_empty: bool) -> (r: Result<(), Error>)
        requires
            old(self).wf(),
        ensures
            final(self).wf(),
            final(self).same_committed(old(self)),
            r is Ok ==> final(self).funcs@.subrange(0, old(self).funcs@.len() - 2) == old(self).funcs@.subrange(0, old(self).funcs@.len() - 2),
            ({
                let k = ty.results@.len() as int;
                let fs = old(self).funcs@;
                let t = old(self).top_frame().top();
                let ok = fs.len() >= 2 && k <= t.len() && types_match(top_n(t, k), ty.results@)
                    && (requires_empty ==> t.len() == k);
                let caller = fs[fs.len() - 2];
                &&& ok ==> r is Ok && final(self).funcs@.len() == fs.len() - 1
                    && final(self).top_frame().blocks_view() == caller.blocks_view()
                        .update(caller.blocks_view().len() - 1, caller.top() + top_n(t, k))
                    && final(self).top_frame().locals == caller.locals
                &&& fs.len() < 2 ==> r == Err::<(), Error>(Error::NoFunctionInStack)
                &&& fs.len() >= 2 && !take_ok(t, ty.results@) ==> r == Err::<(), Error>(take_failure(t, ty.results@))
                &&& fs.len() >= 2 && take_ok(t, ty.results@) && requires_empty && t.len() != k ==> r == Err::<(), Error>(Error::TooManyReturns)
            }),
    {
        let n = self.funcs.len();
        if n < 2 {
            return Err(Error::NoFunctionInStack);
        }
        let results = self.funcs[n - 1].take_values(&ty.results);
        match results {
            Err(e) => Err(e),
            Ok(vals) => {
                if requires_empty && !self.funcs[n - 1].is_empty() {
                    return Err(Error::TooManyReturns);
                }
                let ghost mid = self.funcs@;
                let _done = self.funcs.pop();
                let m = n - 1;
                assert(self.funcs@.subrange(0, m - 1) =~= old(self).funcs@.subrange(0, m - 1)) by {
                    assert(mid.subrange(0, m - 1) =~= old(self).funcs@.subrange(0, m - 1));
                }
                let ghost caller = self.funcs@[m - 1];
                assert(caller.wf());
                assert(caller.blocks_view().len() >= 1);
                assert(caller.top() + vals@.subrange(0, 0) == caller.top());
                assert(caller.blocks_view().update(caller.blocks_view().len() - 1, caller.top()) =~= caller.blocks_view());
                let mut i: usize = 0;
                while i < vals.len()
                    invariant
                        m == self.funcs@.len(),
                        m >= 1,
                        self.wf(),
                        self.same_committed(old(self)),
                        caller.wf(),
                        i <= vals@.len(),
                        self.funcs@[m - 1].locals == caller.locals,
                        n == old(self).funcs@.len(),
                        self.funcs@.subrange(0, m - 1) == old(self).funcs@.subrange(0, m - 1),
                        self.funcs@[m - 1].blocks_view() == caller.blocks_view()
                            .update(caller.blocks_view().len() - 1, caller.top() + vals@.subrange(0, i as int)),
                        m == 1 ==> self.funcs@[0].same_committed(&caller),
                    decreases vals@.len() - i,
                {
                    let ghost before = self.funcs@;
                    self.funcs[m - 1].push(vals[i]);
                    assert(self.funcs@.subrange(0, m - 1) =~= before.subrange(0, m - 1));
                    assert(caller.top() + vals@.subrange(0, i + 1) == (caller.top() + vals@.subrange(0, i as int)).push(vals@[i as int]));
                    i = i + 1;
                }
                assert(vals@.subrange(0, vals@.len() as int) == vals@);
                Ok(())
            },
        }
    }

    /// Enters a block of type `ty` in the innermost frame.
    pub fn add_block_stack(&mut self, ty: &FuncType) -> (r: Result<(), Error>)
        requires
            old(self).wf(),
        ensures
            final(self).wf(),
            final(self).same_committed(old(self)),
            final(self).funcs@.len() == old(self).funcs@.len(),
            final(self).funcs@.drop_last() == old(self).funcs@.drop_last(),
            final(self).top_frame().locals == old(self).top_frame().locals,
            ({
                let k = ty.params@.len() as int;
                let t = old(self).top_frame().top();
                let ok = k <= t.len() && types_match(top_n(t, k), param_types(ty.params@));
                &&& ok ==> r is Ok && final(self).top_frame().blocks_view() == old(self).top_frame().blocks_view()
                        .update(old(self).top_frame().blocks_view().len() - 1, t.subrange(0, t.len() - k))
                        .push(top_n(t, k))
                &&& !ok ==> r == Err::<(), Error>(take_failure(t, param_types(ty.params@)))
            }),
    {
        let n = self.funcs.len();
        let r = self.funcs[n - 1].add_block_stack(ty);
        assert(self.funcs@.drop_last() =~= old(self).funcs@.drop_last());
        r
    }

    /// Leaves the innermost block of the innermost frame.
    pub fn remove_block_stack(&mut self, ty: &FuncType, requires_empty: bool) -> (r: Result<(), Error>)
        requires
            old(self).wf(),
        ensures
            final(self).wf(),
            final(self).same_committed(old(self)),
            final(self).funcs@.len() == old(self).funcs@.len(),
            final(self).funcs@.drop_last() == old(self).funcs@.drop_last(),
            final(self).top_frame().locals == old(self).top_frame().locals,
            ({
                let k = ty.results@.len() as int;
                let t = old(self).top_frame().top();
                let bv = old(self).top_frame().blocks_view();
                let ok = bv.len() >= 2 && k <= t.len() && types_match(top_n(t, k), ty.results@)
                    && (requires_empty ==> t.len() == k);
                &&& ok ==> r is Ok && final(self).top_frame().blocks_view() == bv.drop_last().update(bv.len() - 2, bv[bv.len() - 2] + top_n(t, k))
                &&& bv.len() < 2 ==> r == Err::<(), Error>(Error::NoBlockInStack)
                &&& bv.len() >= 2 && !take_ok(t, ty.results@) ==> r == Err::<(), Error>(take_failure(t, ty.results@))
                &&& bv.len() >= 2 && take_ok(t, ty.results@) && requires_empty && t.len() != k ==> r == Err::<(), Error>(Error::TooManyReturns)
            }),
    {
        let n = self.funcs.len();
        let r = self.funcs[n - 1].remove_block_stack(ty, requires_empty);
        assert(self.funcs@.drop_last() =~= old(self).funcs@.drop_last());
        r
    }

    /// Makes the current state of the outermost frame permanent (and that
    /// of every other frame).
    pub fn commit(&mut self)
        requires
            old(self).wf(),
        ensures
            final(self).wf(),
            final(self).funcs@.len() == old(self).funcs@.len(),
            final(self).funcs@[0].blocks_view() == old(self).funcs@[0].blocks_view(),
            final(self).funcs@[0].committed_values() == old(self).funcs@[0].blocks_view()[0],
            final(self).funcs@[0].locals.committed() == old(self).funcs@[0].locals.current(),
            final(self).funcs@[0].locals.committed_ids() == old(self).funcs@[0].locals.current_ids(),
            final(self).funcs@[0].locals.current() == old(self).funcs@[0].locals.current(),
            final(self).funcs@[0].locals.current_ids() == old(self).funcs@[0].locals.current_ids(),
            old(self).funcs@.len() == 1 && old(self).funcs@[0].blocks_view().len() == 1 ==> final(self).settled(),
    {
        let n = self.funcs.len();
        let mut i: usize = 0;
        while i < n
            invariant
                n == self.funcs@.len(),
                i <= n,
                n >= 1,
                forall|j: int| 0 <= j < n ==> #[trigger] self.funcs@[j].wf(),
                i == 0 ==> self.funcs@[0] == old(self).funcs@[0],
                i > 0 ==> ({
                    let f = self.funcs@[0];
                    let g = old(self).funcs@[0];
                    &&& f.blocks_view() == g.blocks_view()
                    &&& f.committed_values() == g.blocks_view()[0]
                    &&& f.locals.committed() == g.locals.current()
                    &&& f.locals.committed_ids() == g.locals.current_ids()
                    &&& f.locals.current() == g.locals.current()
                    &&& f.locals.current_ids() == g.locals.current_ids()
                    &&& g.blocks_view().len() == 1 ==> f.settled()
                }),
            decreases n - i,
        {
            self.funcs[i].commit();
            i = i + 1;
        }
    }

    /// Returns to the committed state: only the outermost frame remains,
    /// with its committed values and locals.
    pub fn rollback(&mut self)
        requires
            old(self).wf(),
        ensures
            final(self).wf(),
            final(self).settled(),
            final(self).same_committed(old(self)),
            final(self).funcs@[0].blocks_view() == seq![old(self).funcs@[0].committed_values()],
            final(self).funcs@[0].locals.current() == old(self).funcs@[0].locals.committed(),
            final(self).funcs@[0].locals.current_ids() == old(self).funcs@[0].locals.committed_ids(),
    {
        self.funcs.truncate(1);
        self.funcs[0].rollback();
    }

    /// The text `[v0, v1, ...]` of the committed values of the outermost
    /// frame, with the request made for the text of each.
    pub fn to_string<F: FloatOps>(&self, floats: &F) -> (r: (String, Ghost<Seq<Option<FloatCall>>>))
        requires
            self.wf(),
        ensures
            exists|parts: Seq<Seq<char>>| texts_of(self.funcs@[0].committed_values(), parts, r.1@) && r.0@ == bracket_list(parts),
    {
        assert(self.funcs@[0].wf());
        assert(self.funcs@[0].blocks@[0].wf());
        self.funcs[0].blocks[0].to_string(floats)
    }
}

} // verus!
