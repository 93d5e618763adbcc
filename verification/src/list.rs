//! A growable list whose changes become permanent on `commit` and are
//! undone by `rollback`.
use vstd::prelude::*;
use crate::error::Error;

verus! {

/// A list with transactional changes: committed elements, pending
/// replacements of some of them, and pending new elements.
pub struct List<T> {
    values: Vec<T>,
    replaced: Vec<Option<T>>,
    grown: Vec<T>,
}

impl<T> List<T> {
    /// The internal consistency of a list.
    pub closed spec fn wf(&self) -> bool {
        self.replaced@.len() == self.values@.len()
    }

    /// The elements as of the last commit.
    pub closed spec fn committed(&self) -> Seq<T> {
        self.values@
    }

    /// The elements as they are now.
    pub closed spec fn current(&self) -> Seq<T> {
        Seq::new(self.values@.len(), |i: int| match self.replaced@[i] {
            Some(v) => v,
            None => self.values@[i],
        }) + self.grown@
    }

    /// No change is pending.
    pub closed spec fn settled(&self) -> bool {
        &&& self.grown@.len() == 0
        &&& forall|i: int| 0 <= i < self.replaced@.len() ==> #[trigger] self.replaced@[i] is None
    }

    /// A settled list holds exactly its committed elements.
    pub proof fn lemma_settled(&self)
        requires
            self.wf(),
            self.settled(),
        ensures
            self.current() == self.committed(),
    {
        assert(self.current() =~= self.committed());
    }

    /// An empty list.
    pub fn new() -> (l: List<T>)
        ensures
            l.wf(),
            l.settled(),
            l.committed() == Seq::<T>::empty(),
            l.current() == Seq::<T>::empty(),
    {
        let l = List { values: Vec::new(), replaced: Vec::new(), grown: Vec::new() };
        assert(l.current() =~= Seq::<T>::empty());
        l
    }

    /// Whether the list holds as many elements as a position can count.
    pub fn is_full(&self) -> (b: bool)
        requires
            self.wf(),
        ensures
            b == (self.current().len() >= usize::MAX),
    {
        self.grown.len() >= usize::MAX - self.values.len()
    }

    /// Appends an element and returns its position.
    pub fn grow(&mut self, value: T) -> (i: usize)
        requires
            old(self).wf(),
            old(self).current().len() < usize::MAX,
        ensures
            final(self).wf(),
            i == old(self).current().len(),
            final(self).current() == old(self).current().push(value),
            final(self).committed() == old(self).committed(),
    {
        let i = self.values.len() + self.grown.len();
        self.grown.push(value);
        assert(self.current() =~= old(self).current().push(value));
        i
    }

    /// Replaces the element at `index`; fails when there is none.
    pub fn set(&mut self, index: usize, value: T) -> (r: Result<(), Error>)
        requires
            old(self).wf(),
        ensures
            final(self).wf(),
            final(self).committed() == old(self).committed(),
            index < old(self).current().len() ==> r is Ok && final(self).current() == old(self).current().update(index as int, value),
            index >= old(self).current().len() ==> r == Err::<(), Error>(Error::IndexOutOfBounds(index)) && final(self).current() == old(self).current(),
    {
        let n = self.values.len();
        if index < n {
            self.replaced.set(index, Some(value));
            assert(self.current() =~= old(self).current().update(index as int, value));
            Ok(())
        } else if index - n < self.grown.len() {
            self.grown.set(index - n, value);
            assert(self.current() =~= old(self).current().update(index as int, value));
            Ok(())
        } else {
            Err(Error::IndexOutOfBounds(index))
        }
    }

    /// The element at `index` now; fails when there is none.
    pub fn get(&self, index: usize) -> (r: Result<&T, Error>)
        requires
            self.wf(),
        ensures
            index < self.current().len() ==> (r matches Ok(v) && *v == self.current()[index as int]),
            index >= self.current().len() ==> r == Err::<&T, Error>(Error::IndexOutOfBounds(index)),
    {
        let n = self.values.len();
        if index < n {
            match &self.replaced[index] {
                Some(v) => Ok(v),
                None => Ok(&self.values[index]),
            }
        } else if index - n < self.grown.len() {
            Ok(&self.grown[index - n])
        } else {
            Err(Error::IndexOutOfBounds(index))
        }
    }

    /// Makes the current elements the committed ones.
    pub fn commit(&mut self)
        requires
            old(self).wf(),
        ensures
            final(self).wf(),
            final(self).settled(),
            final(self).committed() == old(self).current(),
            final(self).current() == old(self).current(),
    {
        let n = self.values.len();
        let ghost target = old(self).current();
        assert(forall|j: int| 0 <= j < n ==> #[trigger] target[j] == match old(self).replaced@[j] {
            Some(v) => v,
            None => old(self).values@[j],
        });
        assert(forall|j: int| 0 <= j < old(self).grown@.len() ==> #[trigger] target[n + j] == old(self).grown@[j]);
        let mut i: usize = 0;
        while i < n
            invariant
                n == self.values@.len(),
                self.replaced@.len() == n,
                i <= n,
                self.grown@ == old(self).grown@,
                target == old(self).current(),
                target.len() == n + old(self).grown@.len(),
                forall|j: int| 0 <= j < n ==> #[trigger] target[j] == match old(self).replaced@[j] {
                    Some(v) => v,
                    None => old(self).values@[j],
                },
                forall|j: int| 0 <= j < old(self).grown@.len() ==> #[trigger] target[n + j] == old(self).grown@[j],
                forall|j: int| 0 <= j < i ==> #[trigger] self.replaced@[j] is None,
                forall|j: int| 0 <= j < i ==> #[trigger] self.values@[j] == target[j],
                forall|j: int| i <= j < n ==> #[trigger] self.replaced@[j] == old(self).replaced@[j],
                forall|j: int| i <= j < n ==> #[trigger] self.values@[j] == old(self).values@[j],
            decreases n - i,
        {
            let ghost rep0 = self.replaced@;
            let ghost val0 = self.values@;
            let taken = self.replaced[i].take();
            assert(taken == rep0[i as int]);
            assert(self.replaced@ == rep0.update(i as int, None));
            match taken {
                Some(v) => {
                    self.values.set(i, v);
                    assert(self.values@ == val0.update(i as int, v));
                },
                None => {},
            }
            i = i + 1;
        }
        let g = self.grown.len();
        self.values.append(&mut self.grown);
        assert(self.values@ =~= target);
        let mut k: usize = 0;
        while k < g
            invariant
                k <= g,
                self.values@.len() == n + g,
                self.values@ == target,
                self.replaced@.len() == n + k,
                self.grown@.len() == 0,
                forall|j: int| 0 <= j < n + k ==> #[trigger] self.replaced@[j] is None,
            decreases g - k,
        {
            self.replaced.push(None);
            k = k + 1;
        }
        assert(self.values@ =~= target);
        assert(self.current() =~= target);
    }
    /// Drops every change since the last commit.
    pub fn rollback(&mut self)
        requires
            old(self).wf(),
        ensures
            final(self).wf(),
            final(self).settled(),
            final(self).committed() == old(self).committed(),
            final(self).current() == old(self).committed(),
    {
        let n = self.values.len();
        let mut fresh: Vec<Option<T>> = Vec::new();
        let mut k: usize = 0;
        while k < n
            invariant
                k <= n,
                fresh@.len() == k,
                forall|j: int| 0 <= j < k ==> #[trigger] fresh@[j] is None,
            decreases n - k,
        {
            fresh.push(None);
            k = k + 1;
        }
        self.replaced = fresh;
        self.grown.clear();
        assert(self.current() =~= self.values@);
    }
}

/// Rollback undoes every change made since the last commit: starting from a
/// settled list, after any number of operations that keep the committed
/// elements (grow and set do), a rollback brings back the elements of the start.
pub proof fn law_rollback_undoes<T>(steps: Seq<List<T>>, rolled: List<T>)
    requires
        steps.len() >= 1,
        steps[0].wf(),
        steps[0].settled(),
        forall|i: int| 1 <= i < steps.len() ==> #[trigger] steps[i].committed() == steps[i - 1].committed(),
        rolled.current() == steps.last().committed(),
    ensures
        rolled.current() == steps[0].current(),
    decreases steps.len(),
{
    if steps.len() == 1 {
        steps[0].lemma_settled();
    } else {
        let shorter = steps.drop_last();
        assert(steps[steps.len() - 1].committed() == steps[steps.len() - 2].committed());
        law_rollback_undoes::<T>(shorter, rolled);
    }
}

} // verus!
