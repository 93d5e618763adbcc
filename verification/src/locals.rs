//! The local variables of a frame: typed, reachable by position or name,
//! with transactional changes.
use vstd::prelude::*;
use crate::elements::{lookup_failure, resolve, Elements};
use crate::error::Error;
use crate::model::Index;
use crate::value::{type_of, IsSame, Value};

verus! {

/// The locals of a frame. A local keeps the type of its first value.
pub struct Locals {
    elements: Elements<Value>,
}

impl Locals {
    pub closed spec fn wf(&self) -> bool {
        self.elements.wf()
    }

    /// The values of the locals now.
    pub closed spec fn current(&self) -> Seq<Value> {
        self.elements.current()
    }

    /// The values of the locals as of the last commit.
    pub closed spec fn committed(&self) -> Seq<Value> {
        self.elements.committed()
    }

    /// The names of the locals now.
    pub closed spec fn current_ids(&self) -> Map<Seq<char>, usize> {
        self.elements.current_ids()
    }

    /// The names of the locals as of the last commit.
    pub closed spec fn committed_ids(&self) -> Map<Seq<char>, usize> {
        self.elements.committed_ids()
    }

    /// No change is pending.
    pub closed spec fn settled(&self) -> bool {
        self.elements.settled()
    }

    /// Settled locals are exactly the committed ones, with the committed
    /// names.
    pub proof fn lemma_settled(&self)
        requires
            self.wf(),
            self.settled(),
        ensures
            self.current() == self.committed(),
            self.current_ids() == self.committed_ids(),
    {
        self.elements.lemma_settled();
    }

    /// No locals.
    pub fn new() -> (l: Locals)
        ensures
            l.wf(),
            l.settled(),
            l.current() == Seq::<Value>::empty(),
            l.committed() == Seq::<Value>::empty(),
            l.current_ids() == Map::<Seq<char>, usize>::empty(),
            l.committed_ids() == Map::<Seq<char>, usize>::empty(),
    {
        Locals { elements: Elements::new() }
    }

    /// Whether there are as many locals as a position can count.
    pub fn is_full(&self) -> (b: bool)
        requires
            self.wf(),
        ensures
            b == (self.current().len() >= usize::MAX),
    {
        self.elements.is_full()
    }

    /// Declares an unnamed local holding `value`; returns its position.
    pub fn grow(&mut self, value: Value) -> (i: usize)
        requires
            old(self).wf(),
            old(self).current().len() < usize::MAX,
        ensures
            final(self).wf(),
            i == old(self).current().len(),
            final(self).current() == old(self).current().push(value),
            final(self).current_ids() == old(self).current_ids(),
            final(self).committed() == old(self).committed(),
            final(self).committed_ids() == old(self).committed_ids(),
    {
        self.elements.grow(value)
    }

    /// Declares a local named `id` holding `value`; fails, with nothing
    /// changed, when the name is in use.
    pub fn grow_by_id(&mut self, id: &str, value: Value) -> (r: Result<usize, Error>)
        requires
            old(self).wf(),
            old(self).current().len() < usize::MAX,
        ensures
            final(self).wf(),
            final(self).committed() == old(self).committed(),
            final(self).committed_ids() == old(self).committed_ids(),
            old(self).current_ids().dom().contains(id@) ==> (r matches Err(Error::KeyExists(k)) && k@ == id@)
                && final(self).current() == old(self).current() && final(self).current_ids() == old(self).current_ids(),
            !old(self).current_ids().dom().contains(id@) ==> r == Ok::<usize, Error>(old(self).current().len() as usize)
                && final(self).current() == old(self).current().push(value)
                && final(self).current_ids() == old(self).current_ids().insert(id@, old(self).current().len() as usize),
    {
        self.elements.grow_by_id(id, value)
    }

    /// Declares a local, named when `id` is given; fails, with nothing
    /// changed, when the name is in use.
    pub fn grow_with_id(&mut self, id: Option<String>, value: Value) -> (r: Result<usize, Error>)
        requires
            old(self).wf(),
            old(self).current().len() < usize::MAX,
        ensures
            final(self).wf(),
            final(self).committed() == old(self).committed(),
            final(self).committed_ids() == old(self).committed_ids(),
            (id matches Some(s) && old(self).current_ids().dom().contains(s@)) ==> (r matches Err(Error::KeyExists(k)) && k@ == id->0@)
                && final(self).current() == old(self).current() && final(self).current_ids() == old(self).current_ids(),
            id is None ==> r == Ok::<usize, Error>(old(self).current().len() as usize)
                && final(self).current() == old(self).current().push(value)
                && final(self).current_ids() == old(self).current_ids(),
            (id matches Some(s) && !old(self).current_ids().dom().contains(s@)) ==> r == Ok::<usize, Error>(old(self).current().len() as usize)
                && final(self).current() == old(self).current().push(value)
                && final(self).current_ids() == old(self).current_ids().insert(id->0@, old(self).current().len() as usize),
    {
        self.elements.grow_with_id(id, value)
    }

    /// Stores `value` in the local a reference denotes; fails, with nothing
    /// changed, when there is no such local or its type differs.
    pub fn set(&mut self, index: &Index, value: Value) -> (r: Result<(), Error>)
        requires
            old(self).wf(),
        ensures
            final(self).wf(),
            final(self).committed() == old(self).committed(),
            final(self).committed_ids() == old(self).committed_ids(),
            final(self).current_ids() == old(self).current_ids(),
            match resolve(old(self).current_ids(), *index) {
                Some(i) => if 0 <= i < old(self).current().len() {
                    if type_of(old(self).current()[i]) == type_of(value) {
                        r is Ok && final(self).current() == old(self).current().update(i, value)
                    } else {
                        r == Err::<(), Error>(Error::TypeMismatch) && final(self).current() == old(self).current()
                    }
                } else {
                    r matches Err(e) && lookup_failure(*index, e) && final(self).current() == old(self).current()
                },
                None => r matches Err(e) && lookup_failure(*index, e) && final(self).current() == old(self).current(),
            },
    {
        match self.elements.get(index) {
            Ok(existing) => {
                match existing.is_same(&value) {
                    Ok(()) => self.elements.set(index, value),
                    Err(e) => Err(e),
                }
            },
            Err(e) => Err(e),
        }
    }

    /// The value of the local a reference denotes; fails when there is none.
    pub fn get(&self, index: &Index) -> (r: Result<&Value, Error>)
        requires
            self.wf(),
        ensures
            match resolve(self.current_ids(), *index) {
                Some(i) => if 0 <= i < self.current().len() {
                    r matches Ok(v) && *v == self.current()[i]
                } else {
                    r matches Err(e) && lookup_failure(*index, e)
                },
                None => r matches Err(e) && lookup_failure(*index, e),
            },
    {
        self.elements.get(index)
    }

    /// Makes the current values and names the committed ones.
    pub fn commit(&mut self)
        requires
            old(self).wf(),
        ensures
            final(self).wf(),
            final(self).settled(),
            final(self).committed() == old(self).current(),
            final(self).current() == old(self).current(),
            final(self).committed_ids() == old(self).current_ids(),
            final(self).current_ids() == old(self).current_ids(),
    {
        self.elements.commit();
    }

    /// Drops every change since the last commit.
    pub fn rollback(&mut self)
        requires
            old(self).wf(),
        ensures
            final(self).wf(),
            final(self).settled(),
            final(self).committed() == old(self).committed(),
            final(self).current() == old(self).committed(),
            final(self).committed_ids() == old(self).committed_ids(),
            final(self).current_ids() == old(self).committed_ids(),
    {
        self.elements.rollback();
    }
}

/// Rollback undoes every change made since the last commit: starting from a
/// settled set of locals, after any number of operations that keep the committed
/// values (grow and set do), a rollback brings back the values of the start.
pub proof fn law_rollback_undoes(steps: Seq<Locals>, rolled: Locals)
    requires
        steps.len() >= 1,
        steps[0].wf(),
        steps[0].settled(),
        forall|i: int| 1 <= i < steps.len() ==> #[trigger] steps[i].committed() == steps[i - 1].committed(),
        rolled.current() == steps.last().committed(),
    ensures
        rolled.current() == steps[0].current(),
    decreases steps.len(),
{
    if steps.len() == 1 {
        steps[0].lemma_settled();
    } else {
        let shorter = steps.drop_last();
        assert(steps[steps.len() - 1].committed() == steps[steps.len() - 2].committed());
        law_rollback_undoes(shorter, rolled);
    }
}

} // verus!
