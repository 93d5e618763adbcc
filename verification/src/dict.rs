//! A map from names to values whose changes become permanent on `commit`
//! and are undone by `rollback`.
use vstd::prelude::*;
use crate::error::Error;

verus! {

/// The map that a list of entries denotes: a later entry for a name
/// replaces an earlier one.
pub open spec fn entries_map<T>(s: Seq<(String, T)>) -> Map<Seq<char>, T>
    decreases s.len(),
{
    if s.len() == 0 {
        Map::empty()
    } else {
        entries_map(s.drop_last()).insert(s.last().0@, s.last().1)
    }
}

/// A name-to-value map with transactional changes.
pub struct Dict<T: Copy> {
    values: Vec<(String, T)>,
    soft_values: Vec<(String, T)>,
}

impl<T: Copy> Dict<T> {
    /// The map as of the last commit.
    pub closed spec fn committed(&self) -> Map<Seq<char>, T> {
        entries_map(self.values@)
    }

    /// The map as it is now.
    pub closed spec fn current(&self) -> Map<Seq<char>, T> {
        entries_map(self.values@ + self.soft_values@)
    }

    /// No change is pending.
    pub closed spec fn settled(&self) -> bool {
        self.soft_values@.len() == 0
    }

    /// A settled map holds exactly its committed entries.
    pub proof fn lemma_settled(&self)
        requires
            self.settled(),
        ensures
            self.current() == self.committed(),
    {
        assert(self.values@ + self.soft_values@ =~= self.values@);
    }

    /// An empty map.
    pub fn new() -> (d: Dict<T>)
        ensures
            d.settled(),
            d.committed() == Map::<Seq<char>, T>::empty(),
            d.current() == Map::<Seq<char>, T>::empty(),
    {
        let d = Dict { values: Vec::new(), soft_values: Vec::new() };
        assert(d.values@ + d.soft_values@ == d.values@);
        d
    }

    /// Binds `key` to `value`, replacing any earlier binding.
    pub fn set(&mut self, key: String, value: T)
        ensures
            final(self).current() == old(self).current().insert(key@, value),
            final(self).committed() == old(self).committed(),
    {
        self.soft_values.push((key, value));
        let ghost before = old(self).values@ + old(self).soft_values@;
        assert(self.values@ + self.soft_values@ == before.push((key, value)));
        assert(before.push((key, value)).drop_last() == before);
    }

    /// The value bound to `key` now; fails when there is none.
    pub fn get(&self, key: &str) -> (r: Result<T, Error>)
        ensures
            self.current().dom().contains(key@) ==> r == Ok::<T, Error>(self.current()[key@]),
            !self.current().dom().contains(key@) ==> (r matches Err(Error::KeyNotFound(k)) && k@ == key@),
    {
        let wanted = String::from_str(key);
        let ghost all = self.values@ + self.soft_values@;
        let n = self.soft_values.len();
        let m = self.values.len();
        let mut i: usize = n;
        assert(all.subrange(0, m + n) == all);
        while i > 0
            invariant
                i <= n,
                n == self.soft_values@.len(),
                m == self.values@.len(),
                all == self.values@ + self.soft_values@,
                wanted@ == key@,
                entries_map(all).dom().contains(key@) == entries_map(all.subrange(0, m + i)).dom().contains(key@),
                entries_map(all).dom().contains(key@) ==> entries_map(all)[key@] == entries_map(all.subrange(0, m + i))[key@],
            decreases i,
        {
            i = i - 1;
            assert(all.subrange(0, m + i + 1).drop_last() == all.subrange(0, m + i));
            assert(all[m + i] == self.soft_values@[i as int]);
            if self.soft_values[i].0 == wanted {
                return Ok(self.soft_values[i].1);
            }
        }
        let mut j: usize = m;
        while j > 0
            invariant
                j <= m,
                m == self.values@.len(),
                all == self.values@ + self.soft_values@,
                wanted@ == key@,
                entries_map(all).dom().contains(key@) == entries_map(all.subrange(0, j as int)).dom().contains(key@),
                entries_map(all).dom().contains(key@) ==> entries_map(all)[key@] == entries_map(all.subrange(0, j as int))[key@],
            decreases j,
        {
            j = j - 1;
            assert(all.subrange(0, j + 1).drop_last() == all.subrange(0, j as int));
            assert(all[j as int] == self.values@[j as int]);
            if self.values[j].0 == wanted {
                return Ok(self.values[j].1);
            }
        }
        assert(all.subrange(0, 0) == Seq::<(String, T)>::empty());
        Err(Error::KeyNotFound(wanted))
    }

    /// Makes the current bindings the committed ones.
    pub fn commit(&mut self)
        ensures
            final(self).settled(),
            final(self).committed() == old(self).current(),
            final(self).current() == old(self).current(),
    {
        self.values.append(&mut self.soft_values);
        assert(self.values@ + self.soft_values@ == self.values@);
    }

    /// Drops every change since the last commit.
    pub fn rollback(&mut self)
        ensures
            final(self).settled(),
            final(self).committed() == old(self).committed(),
            final(self).current() == old(self).committed(),
    {
        self.soft_values.clear();
        assert(self.values@ + self.soft_values@ == self.values@);
    }
}

/// Rollback undoes every change made since the last commit: starting from a
/// settled map, after any number of operations that keep the committed
/// entries (set do), a rollback brings back the entries of the start.
pub proof fn law_rollback_undoes<T: Copy>(steps: Seq<Dict<T>>, rolled: Dict<T>)
    requires
        steps.len() >= 1,
        steps[0].settled(),
        forall|i: int| 1 <= i < steps.len() ==> #[trigger] steps[i].committed() == steps[i - 1].committed(),
        rolled.current() == steps.last().committed(),
    ensures
        rolled.current() == steps[0].current(),
    decreases steps.len(),
{
    if steps.len() == 1 {
        steps[0].lemma_settled();
    } else {
        let shorter = steps.drop_last();
        assert(steps[steps.len() - 1].committed() == steps[steps.len() - 2].committed());
        law_rollback_undoes::<T>(shorter, rolled);
    }
}

} // verus!
