//! Elements reachable by position or by name, with transactional changes.
use vstd::prelude::*;
use crate::dict::Dict;
use crate::error::Error;
use crate::list::List;
use crate::model::Index;

verus! {

/// A list of elements, some of them named, whose changes become permanent
/// on `commit` and are undone by `rollback`.
pub struct Elements<T> {
    values: List<T>,
    ids: Dict<usize>,
}

/// The position a reference denotes in `elems` named by `ids`, if any.
pub open spec fn resolve(ids: Map<Seq<char>, usize>, index: Index) -> Option<int> {
    match index {
        Index::Num(n) => Some(n as int),
        Index::Id(s) => if ids.dom().contains(s@) { Some(ids[s@] as int) } else { None },
    }
}

/// The error for a reference that denotes no element: the name, for an
/// unknown name; the position, for a position past the end.
pub open spec fn lookup_failure(index: Index, e: Error) -> bool {
    match index {
        Index::Id(s) => e matches Error::KeyNotFound(k) && k@ == s@,
        Index::Num(n) => e == Error::IndexOutOfBounds(n as usize),
    }
}

impl<T> Elements<T> {
    /// The internal consistency: every name denotes an existing element,
    /// both now and as of the last commit.
    pub closed spec fn wf(&self) -> bool {
        &&& self.values.wf()
        &&& forall|k: Seq<char>| #[trigger] self.ids.current().dom().contains(k) ==> self.ids.current()[k] < self.values.current().len()
        &&& forall|k: Seq<char>| #[trigger] self.ids.committed().dom().contains(k) ==> self.ids.committed()[k] < self.values.committed().len()
    }

    /// The elements now.
    pub closed spec fn current(&self) -> Seq<T> {
        self.values.current()
    }

    /// The elements as of the last commit.
    pub closed spec fn committed(&self) -> Seq<T> {
        self.values.committed()
    }

    /// The names now, with the positions they denote.
    pub closed spec fn current_ids(&self) -> Map<Seq<char>, usize> {
        self.ids.current()
    }

    /// The names as of the last commit.
    pub closed spec fn committed_ids(&self) -> Map<Seq<char>, usize> {
        self.ids.committed()
    }

    /// No change is pending.
    pub closed spec fn settled(&self) -> bool {
        self.values.settled() && self.ids.settled()
    }

    /// Settled elements are exactly the committed ones, with the committed
    /// names.
    pub proof fn lemma_settled(&self)
        requires
            self.wf(),
            self.settled(),
        ensures
            self.current() == self.committed(),
            self.current_ids() == self.committed_ids(),
    {
        self.values.lemma_settled();
        self.ids.lemma_settled();
    }

    /// No elements, no names.
    pub fn new() -> (e: Elements<T>)
        ensures
            e.wf(),
            e.settled(),
            e.current() == Seq::<T>::empty(),
            e.committed() == Seq::<T>::empty(),
            e.current_ids() == Map::<Seq<char>, usize>::empty(),
            e.committed_ids() == Map::<Seq<char>, usize>::empty(),
    {
        Elements { values: List::new(), ids: Dict::new() }
    }

    /// Whether there are as many elements as a position can count.
    pub fn is_full(&self) -> (b: bool)
        requires
            self.wf(),
        ensures
            b == (self.current().len() >= usize::MAX),
    {
        self.values.is_full()
    }

    /// Appends an unnamed element and returns its position.
    pub fn grow(&mut self, value: T) -> (i: usize)
        requires
            old(self).wf(),
            old(self).current().len() < usize::MAX,
        ensures
            final(self).wf(),
            i == old(self).current().len(),
            final(self).current() == old(self).current().push(value),
            final(self).current_ids() == old(self).current_ids(),
            final(self).committed() == old(self).committed(),
            final(self).committed_ids() == old(self).committed_ids(),
    {
        self.values.grow(value)
    }

    /// Appends an element named `id` and returns its position; fails, with
    /// nothing changed, when the name is already in use.
    pub fn grow_by_id(&mut self, id: &str, value: T) -> (r: Result<usize, Error>)
        requires
            old(self).wf(),
            old(self).current().len() < usize::MAX,
        ensures
            final(self).wf(),
            final(self).committed() == old(self).committed(),
            final(self).committed_ids() == old(self).committed_ids(),
            old(self).current_ids().dom().contains(id@) ==> (r matches Err(Error::KeyExists(k)) && k@ == id@)
                && final(self).current() == old(self).current() && final(self).current_ids() == old(self).current_ids(),
            !old(self).current_ids().dom().contains(id@) ==> r == Ok::<usize, Error>(old(self).current().len() as usize)
                && final(self).current() == old(self).current().push(value)
                && final(self).current_ids() == old(self).current_ids().insert(id@, old(self).current().len() as usize),
    {
        let name = String::from_str(id);
        self.grow_with_id(Some(name), value)
    }

    /// Appends an element, named when `id` is given, and returns its
    /// position; fails, with nothing changed, when the name is already in use.
    pub fn grow_with_id(&mut self, id: Option<String>, value: T) -> (r: Result<usize, Error>)
        requires
            old(self).wf(),
            old(self).current().len() < usize::MAX,
        ensures
            final(self).wf(),
            final(self).committed() == old(self).committed(),
            final(self).committed_ids() == old(self).committed_ids(),
            (id matches Some(s) && old(self).current_ids().dom().contains(s@)) ==> (r matches Err(Error::KeyExists(k)) && k@ == id->0@)
                && final(self).current() == old(self).current() && final(self).current_ids() == old(self).current_ids(),
            id is None ==> r == Ok::<usize, Error>(old(self).current().len() as usize)
                && final(self).current() == old(self).current().push(value)
                && final(self).current_ids() == old(self).current_ids(),
            (id matches Some(s) && !old(self).current_ids().dom().contains(s@)) ==> r == Ok::<usize, Error>(old(self).current().len() as usize)
                && final(self).current() == old(self).current().push(value)
                && final(self).current_ids() == old(self).current_ids().insert(id->0@, old(self).current().len() as usize),
    {
        match id {
            None => Ok(self.values.grow(value)),
            Some(name) => {
                match self.ids.get(name.as_str()) {
                    Ok(_) => Err(Error::KeyExists(name)),
                    Err(_) => {
                        let index = self.values.grow(value);
                        self.ids.set(name, index);
                        Ok(index)
                    },
                }
            },
        }
    }

    /// Replaces the element at position `index`; fails when there is none.
    pub fn set_by_num(&mut self, index: usize, value: T) -> (r: Result<(), Error>)
        requires
            old(self).wf(),
        ensures
            final(self).wf(),
            final(self).committed() == old(self).committed(),
            final(self).committed_ids() == old(self).committed_ids(),
            final(self).current_ids() == old(self).current_ids(),
            index < old(self).current().len() ==> r is Ok && final(self).current() == old(self).current().update(index as int, value),
            index >= old(self).current().len() ==> r == Err::<(), Error>(Error::IndexOutOfBounds(index)) && final(self).current() == old(self).current(),
    {
        self.values.set(index, value)
    }

    /// Replaces the element named `id`; fails when the name is unknown.
    pub fn set_by_id(&mut self, id: &str, value: T) -> (r: Result<(), Error>)
        requires
            old(self).wf(),
        ensures
            final(self).wf(),
            final(self).committed() == old(self).committed(),
            final(self).committed_ids() == old(self).committed_ids(),
            final(self).current_ids() == old(self).current_ids(),
            old(self).current_ids().dom().contains(id@) ==> r is Ok
                && final(self).current() == old(self).current().update(old(self).current_ids()[id@] as int, value),
            !old(self).current_ids().dom().contains(id@) ==> (r matches Err(Error::KeyNotFound(k)) && k@ == id@)
                && final(self).current() == old(self).current(),
    {
        match self.ids.get(id) {
            Ok(index) => self.set_by_num(index, value),
            Err(e) => Err(e),
        }
    }

    /// Replaces the element a reference denotes; fails when it denotes none.
    pub fn set(&mut self, index: &Index, value: T) -> (r: Result<(), Error>)
        requires
            old(self).wf(),
        ensures
            final(self).wf(),
            final(self).committed() == old(self).committed(),
            final(self).committed_ids() == old(self).committed_ids(),
            final(self).current_ids() == old(self).current_ids(),
            match resolve(old(self).current_ids(), *index) {
                Some(i) => if i < old(self).current().len() {
                    r is Ok && final(self).current() == old(self).current().update(i, value)
                } else {
                    r matches Err(e) && lookup_failure(*index, e) && final(self).current() == old(self).current()
                },
                None => r matches Err(e) && lookup_failure(*index, e) && final(self).current() == old(self).current(),
            },
    {
        match index {
            Index::Id(id) => self.set_by_id(id.as_str(), value),
            Index::Num(n) => self.set_by_num(*n as usize, value),
        }
    }

    /// The element at position `index` now; fails when there is none.
    pub fn get_by_num(&self, index: usize) -> (r: Result<&T, Error>)
        requires
            self.wf(),
        ensures
            index < self.current().len() ==> (r matches Ok(v) && *v == self.current()[index as int]),
            index >= self.current().len() ==> r == Err::<&T, Error>(Error::IndexOutOfBounds(index)),
    {
        self.values.get(index)
    }

    /// The element named `id` now; fails when the name is unknown.
    pub fn get_by_id(&self, id: &str) -> (r: Result<&T, Error>)
        requires
            self.wf(),
        ensures
            self.current_ids().dom().contains(id@) ==> (r matches Ok(v) && *v == self.current()[self.current_ids()[id@] as int]),
            !self.current_ids().dom().contains(id@) ==> (r matches Err(Error::KeyNotFound(k)) && k@ == id@),
    {
        match self.ids.get(id) {
            Ok(index) => self.get_by_num(index),
            Err(e) => Err(e),
        }
    }

    /// The element a reference denotes now; fails when it denotes none.
    pub fn get(&self, index: &Index) -> (r: Result<&T, Error>)
        requires
            self.wf(),
        ensures
            match resolve(self.current_ids(), *index) {
                Some(i) => if i < self.current().len() {
                    r matches Ok(v) && *v == self.current()[i]
                } else {
                    r matches Err(e) && lookup_failure(*index, e)
                },
                None => r matches Err(e) && lookup_failure(*index, e),
            },
    {
        match index {
            Index::Id(id) => self.get_by_id(id.as_str()),
            Index::Num(n) => self.get_by_num(*n as usize),
        }
    }

    /// Makes the current elements and names the committed ones.
    pub fn commit(&mut self)
        requires
            old(self).wf(),
        ensures
            final(self).wf(),
            final(self).settled(),
            final(self).committed() == old(self).current(),
            final(self).current() == old(self).current(),
            final(self).committed_ids() == old(self).current_ids(),
            final(self).current_ids() == old(self).current_ids(),
    {
        self.values.commit();
        self.ids.commit();
    }

    /// Drops every change since the last commit.
    pub fn rollback(&mut self)
        requires
            old(self).wf(),
        ensures
            final(self).wf(),
            final(self).settled(),
            final(self).committed() == old(self).committed(),
            final(self).current() == old(self).committed(),
            final(self).committed_ids() == old(self).committed_ids(),
            final(self).current_ids() == old(self).committed_ids(),
    {
        self.values.rollback();
        self.ids.rollback();
    }
}

/// Rollback undoes every change made since the last commit: starting from a
/// settled collection, after any number of operations that keep the committed
/// elements (grow and set do), a rollback brings back the elements of the start.
pub proof fn law_rollback_undoes<T>(steps: Seq<Elements<T>>, rolled: Elements<T>)
    requires
        steps.len() >= 1,
        steps[0].wf(),
        steps[0].settled(),
        forall|i: int| 1 <= i < steps.len() ==> #[trigger] steps[i].committed() == steps[i - 1].committed(),
        rolled.current() == steps.last().committed(),
    ensures
        rolled.current() == steps[0].current(),
    decreases steps.len(),
{
    if steps.len() == 1 {
        steps[0].lemma_settled();
    } else {
        let shorter = steps.drop_last();
        assert(steps[steps.len() - 1].committed() == steps[steps.len() - 2].committed());
        law_rollback_undoes::<T>(shorter, rolled);
    }
}

} // verus!
