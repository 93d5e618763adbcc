//! A value stack whose changes become permanent on `commit` and are undone
//! by `rollback`, both in constant time.
use vstd::prelude::*;
use crate::error::Error;
use crate::fmt::{push_char, push_str};
use crate::ops::{FloatCall, FloatOps};
use crate::value::{text_fits, Value};

verus! {

/// `"[" + p0 + ", " + p1 + ... + "]"`.
pub open spec fn bracket_list(parts: Seq<Seq<char>>) -> Seq<char> {
    seq!['['] + join_parts(parts) + seq![']']
}

/// The parts separated by `", "`.
pub open spec fn join_parts(parts: Seq<Seq<char>>) -> Seq<char>
    decreases parts.len(),
{
    if parts.len() == 0 {
        Seq::empty()
    } else if parts.len() == 1 {
        parts[0]
    } else {
        join_parts(parts.drop_last()) + seq![',', ' '] + parts.last()
    }
}

/// `parts` are the texts of `vals`, one for one, with `calls` the request
/// made for each (see `text_fits`).
pub open spec fn texts_of(vals: Seq<Value>, parts: Seq<Seq<char>>, calls: Seq<Option<FloatCall>>) -> bool {
    &&& parts.len() == vals.len()
    &&& calls.len() == vals.len()
    &&& forall|i: int| #![trigger vals[i]] 0 <= i < vals.len() ==> text_fits(vals[i], parts[i], calls[i])
}

/// Appends the text of `v` to `s`, after `", "` unless it is the first part.
fn push_part<F: FloatOps>(s: &mut String, v: Value, first: bool, floats: &F, Ghost(parts): Ghost<Seq<Seq<char>>>) -> (t: (Ghost<Seq<char>>, Ghost<Option<FloatCall>>))
    requires
        old(s)@ == seq!['['] + join_parts(parts),
        first <==> parts.len() == 0,
    ensures
        final(s)@ == seq!['['] + join_parts(parts.push(t.0@)),
        text_fits(v, t.0@, t.1@),
{
    let (txt, Ghost(call)) = v.to_text(floats);
    if !first {
        push_char(s, ',');
        push_char(s, ' ');
    }
    push_str(s, &txt);
    proof {
        let np = parts.push(txt@);
        assert(np.drop_last() == parts);
        if !first {
            assert(seq!['['] + join_parts(parts) + seq![','] + seq![' '] + txt@ == seq!['['] + (join_parts(parts) + seq![',', ' '] + txt@));
        } else {
            assert(join_parts(np) == txt@);
        }
    }
    (Ghost(txt@), Ghost(call))
}

/// The text `[v0, v1, ...]` of `vals[0..n]` followed by `soft`, with the
/// request made for the text of each value.
pub fn values_text<F: FloatOps>(vals: &Vec<Value>, n: usize, soft: &Vec<Value>, floats: &F) -> (r: (String, Ghost<Seq<Option<FloatCall>>>))
    requires
        n <= vals@.len(),
    ensures
        exists|parts: Seq<Seq<char>>| texts_of(vals@.subrange(0, n as int) + soft@, parts, r.1@) && r.0@ == bracket_list(parts),
{
    let mut s = String::new();
    push_char(&mut s, '[');
    let ghost all = vals@.subrange(0, n as int) + soft@;
    let ghost mut parts: Seq<Seq<char>> = Seq::empty();
    let ghost mut calls: Seq<Option<FloatCall>> = Seq::empty();
    let mut i: usize = 0;
    while i < n
        invariant
            n <= vals@.len(),
            all == vals@.subrange(0, n as int) + soft@,
            i <= n,
            texts_of(all.subrange(0, i as int), parts, calls),
            s@ == seq!['['] + join_parts(parts),
        decreases n - i,
    {
        let v = vals[i];
        assert(v == all[i as int]);
        let (t, c) = push_part(&mut s, v, i == 0, floats, Ghost(parts));
        proof {
            assert(all.subrange(0, i + 1) == all.subrange(0, i as int).push(v));
            parts = parts.push(t@);
            calls = calls.push(c@);
        }
        i = i + 1;
    }
    let mut j: usize = 0;
    while j < soft.len()
        invariant
            n <= vals@.len(),
            all == vals@.subrange(0, n as int) + soft@,
            j <= soft@.len(),
            texts_of(all.subrange(0, n + j), parts, calls),
            s@ == seq!['['] + join_parts(parts),
        decreases soft@.len() - j,
    {
        let v = soft[j];
        assert(v == all[n + j]);
        let (t, c) = push_part(&mut s, v, n == 0 && j == 0, floats, Ghost(parts));
        proof {
            assert(all.subrange(0, n + j + 1) == all.subrange(0, n + j).push(v));
            parts = parts.push(t@);
            calls = calls.push(c@);
        }
        j = j + 1;
    }
    push_char(&mut s, ']');
    assert(all.subrange(0, all.len() as int) == all);
    assert(texts_of(all, parts, calls) && s@ == bracket_list(parts));
    (s, Ghost(calls))
}

/// A stack of values with transactional changes.
pub struct Stack {
    values: Vec<Value>,
    shrink_by: usize,
    soft_values: Vec<Value>,
}

impl Stack {
    /// The internal consistency of a stack.
    pub closed spec fn wf(&self) -> bool {
        self.shrink_by <= self.values@.len()
    }

    /// The values as of the last commit, bottom first.
    pub closed spec fn committed(&self) -> Seq<Value> {
        self.values@
    }

    /// The values as they are now, bottom first.
    pub closed spec fn current(&self) -> Seq<Value> {
        self.values@.subrange(0, self.values@.len() - self.shrink_by) + self.soft_values@
    }

    /// No change is pending: the current values are the committed ones.
    pub closed spec fn settled(&self) -> bool {
        self.shrink_by == 0 && self.soft_values@.len() == 0
    }

    /// A settled stack holds exactly its committed values.
    pub proof fn lemma_settled(&self)
        requires
            self.wf(),
            self.settled(),
        ensures
            self.current() == self.committed(),
    {
        assert(self.current() =~= self.committed());
    }

    /// An empty stack.
    pub fn new() -> (s: Stack)
        ensures
            s.wf(),
            s.settled(),
            s.committed() == Seq::<Value>::empty(),
            s.current() == Seq::<Value>::empty(),
    {
        Stack { values: Vec::new(), shrink_by: 0, soft_values: Vec::new() }
    }

    /// Pushes a value on top.
    pub fn push(&mut self, value: Value)
        requires
            old(self).wf(),
        ensures
            final(self).wf(),
            final(self).current() == old(self).current().push(value),
            final(self).committed() == old(self).committed(),
    {
        self.soft_values.push(value);
        assert(self.current() == old(self).current().push(value));
    }

    /// Removes and returns the top value; fails on an empty stack, which it
    /// leaves as it was.
    pub fn pop(&mut self) -> (r: Result<Value, Error>)
        requires
            old(self).wf(),
        ensures
            final(self).wf(),
            final(self).committed() == old(self).committed(),
            old(self).current().len() == 0 ==> r == Err::<Value, Error>(Error::StackUnderflow) && final(self).current() == old(self).current(),
            old(self).current().len() > 0 ==> r == Ok::<Value, Error>(old(self).current().last()) && final(self).current() == old(self).current().drop_last(),
    {
        if self.soft_values.len() == 0 {
            if self.values.len() - self.shrink_by < 1 {
                return Err(Error::StackUnderflow);
            }
            self.shrink_by = self.shrink_by + 1;
            let idx = self.values.len() - self.shrink_by;
            let v = self.values[idx];
            assert(self.current() == old(self).current().drop_last());
            Ok(v)
        } else {
            let v = self.soft_values.pop();
            match v {
                Some(v) => {
                    assert(self.current() == old(self).current().drop_last());
                    Ok(v)
                },
                None => Err(Error::StackUnderflow),
            }
        }
    }

    /// The top value; fails on an empty stack.
    pub fn peek(&self) -> (r: Result<Value, Error>)
        requires
            self.wf(),
        ensures
            self.current().len() == 0 ==> r == Err::<Value, Error>(Error::StackUnderflow),
            self.current().len() > 0 ==> r == Ok::<Value, Error>(self.current().last()),
    {
        if self.soft_values.len() == 0 {
            if self.values.len() - self.shrink_by < 1 {
                return Err(Error::StackUnderflow);
            }
            let idx = self.values.len() - self.shrink_by - 1;
            Ok(self.values[idx])
        } else {
            let n = self.soft_values.len();
            Ok(self.soft_values[n - 1])
        }
    }

    /// Whether no value is on the stack now.
    pub fn is_empty(&self) -> (r: bool)
        requires
            self.wf(),
        ensures
            r == (self.current().len() == 0),
    {
        self.values.len() - self.shrink_by == 0 && self.soft_values.len() == 0
    }

    /// Makes the current values the committed ones.
    pub fn commit(&mut self)
        requires
            old(self).wf(),
        ensures
            final(self).wf(),
            final(self).settled(),
            final(self).committed() == old(self).current(),
            final(self).current() == old(self).current(),
    {
        let keep = self.values.len() - self.shrink_by;
        self.values.truncate(keep);
        self.values.append(&mut self.soft_values);
        self.shrink_by = 0;
        self.soft_values.clear();
        assert(self.values@.subrange(0, self.values@.len() as int) == self.values@);
    }

    /// Drops every change since the last commit.
    pub fn rollback(&mut self)
        requires
            old(self).wf(),
        ensures
            final(self).wf(),
            final(self).settled(),
            final(self).committed() == old(self).committed(),
            final(self).current() == old(self).committed(),
    {
        self.shrink_by = 0;
        self.soft_values.clear();
        assert(self.values@.subrange(0, self.values@.len() as int) == self.values@);
    }

    /// The text `[v0, v1, ...]` of the current values, with the request made
    /// for the text of each.
    pub fn to_soft_string<F: FloatOps>(&self, floats: &F) -> (r: Result<(String, Ghost<Seq<Option<FloatCall>>>), Error>)
        requires
            self.wf(),
        ensures
            r matches Ok(t) && exists|parts: Seq<Seq<char>>| texts_of(self.current(), parts, t.1@) && t.0@ == bracket_list(parts),
    {
        let keep = self.values.len() - self.shrink_by;
        Ok(values_text(&self.values, keep, &self.soft_values, floats))
    }

    /// The text `[v0, v1, ...]` of the committed values, with the request
    /// made for the text of each.
    pub fn to_string<F: FloatOps>(&self, floats: &F) -> (r: (String, Ghost<Seq<Option<FloatCall>>>))
        requires
            self.wf(),
        ensures
            exists|parts: Seq<Seq<char>>| texts_of(self.committed(), parts, r.1@) && r.0@ == bracket_list(parts),
    {
        let none: Vec<Value> = Vec::new();
        let r = values_text(&self.values, self.values.len(), &none, floats);
        assert(self.values@.subrange(0, self.values@.len() as int) + none@ == self.values@);
        r
    }
}

/// Rollback undoes every change made since the last commit: starting from a
/// settled stack, after any number of operations that keep the committed
/// values (push and pop do), a rollback brings back the values of the start.
pub proof fn law_rollback_undoes(steps: Seq<Stack>, rolled: Stack)
    requires
        steps.len() >= 1,
        steps[0].wf(),
        steps[0].settled(),
        forall|i: int| 1 <= i < steps.len() ==> #[trigger] steps[i].committed() == steps[i - 1].committed(),
        rolled.current() == steps.last().committed(),
    ensures
        rolled.current() == steps[0].current(),
    decreases steps.len(),
{
    if steps.len() == 1 {
        steps[0].lemma_settled();
    } else {
        let shorter = steps.drop_last();
        assert(steps[steps.len() - 1].committed() == steps[steps.len() - 2].committed());
        law_rollback_undoes(shorter, rolled);
    }
}


/// The values hold no float.
pub open spec fn all_integers(vals: Seq<Value>) -> bool {
    forall|i: int| 0 <= i < vals.len() ==> (#[trigger] vals[i] is I32 || vals[i] is I64)
}

/// After a rollback (or a commit) no change is pending: the text of the
/// current values, `soft` (what `to_soft_string` gives), and the text of the
/// committed values, `hard` (what `to_string` gives), are texts of the same
/// values. They make the same requests of the float arithmetic, and they are
/// the same text whenever it gave the same answers to them (always, when
/// every value is an integer, for which nothing is asked).
pub proof fn law_settled_texts(st: Stack, soft_parts: Seq<Seq<char>>, hard_parts: Seq<Seq<char>>, soft_calls: Seq<Option<FloatCall>>,
    hard_calls: Seq<Option<FloatCall>>, soft: Seq<char>, hard: Seq<char>)
    requires
        st.wf(),
        st.settled(),
        texts_of(st.current(), soft_parts, soft_calls) && soft == bracket_list(soft_parts),
        texts_of(st.committed(), hard_parts, hard_calls) && hard == bracket_list(hard_parts),
    ensures
        st.current() == st.committed(),
        forall|i: int| 0 <= i < soft_calls.len() ==> (#[trigger] soft_calls[i] is Some <==> hard_calls[i] is Some)
            && (soft_calls[i] is Some ==> soft_calls[i]->0.request == hard_calls[i]->0.request),
        soft_calls == hard_calls ==> soft == hard,
        all_integers(st.committed()) ==> soft == hard,
{
    st.lemma_settled();
    let vals = st.committed();
    assert forall|i: int| 0 <= i < soft_calls.len() implies (#[trigger] soft_calls[i] is Some <==> hard_calls[i] is Some)
        && (soft_calls[i] is Some ==> soft_calls[i]->0.request == hard_calls[i]->0.request) by {
        assert(text_fits(vals[i], soft_parts[i], soft_calls[i]));
        assert(text_fits(vals[i], hard_parts[i], hard_calls[i]));
    }
    if soft_calls == hard_calls || all_integers(vals) {
        assert forall|i: int| 0 <= i < soft_parts.len() implies soft_parts[i] == hard_parts[i] by {
            assert(text_fits(vals[i], soft_parts[i], soft_calls[i]));
            assert(text_fits(vals[i], hard_parts[i], hard_calls[i]));
            if !all_integers(vals) {
                assert(soft_calls[i] == hard_calls[i]);
            } else {
                assert(vals[i] is I32 || vals[i] is I64);
            }
        }
        assert(soft_parts =~= hard_parts);
    }
}

} // verus!
