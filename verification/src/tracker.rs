//! One flag for each entry of the index, set when a right row first matches
//! the entry and read when the stream has ended.

use crate::hash_index::HashIndex;
use vstd::prelude::*;

verus! {

pub struct MatchTracker {
    pub flags: Vec<Vec<bool>>,
}

impl MatchTracker {
    /// The tracker has one flag for each entry of the index.
    pub open spec fn shaped_like(&self, index: &HashIndex) -> bool {
        &&& self.flags@.len() == index.shards@.len()
        &&& forall|s: int|
            0 <= s < self.flags@.len() ==> (#[trigger] self.flags@[s])@.len() == index.shards@[s]@.len()
    }

    /// The flag of entry `j` of shard `s`.
    pub open spec fn matched(&self, s: int, j: int) -> bool {
        self.flags@[s]@[j]
    }

    /// No flag is set.
    pub open spec fn all_clear(&self) -> bool {
        forall|s: int, j: int|
            0 <= s < self.flags@.len() && 0 <= j < self.flags@[s]@.len() ==> !#[trigger] self.matched(
                s,
                j,
            )
    }

    /// A tracker for `index` with no flag set.
    pub fn new(index: &HashIndex) -> (tracker: MatchTracker)
        ensures
            tracker.shaped_like(index),
            tracker.all_clear(),
    {
        let mut flags: Vec<Vec<bool>> = Vec::new();
        let mut s: usize = 0;
        while s < index.shards.len()
            invariant
                s <= index.shards@.len(),
                flags@.len() == s,
                forall|t: int| 0 <= t < s ==> (#[trigger] flags@[t])@.len() == index.shards@[t]@.len(),
                forall|t: int, j: int|
                    0 <= t < s && 0 <= j < flags@[t]@.len() ==> !#[trigger] flags@[t]@[j],
            decreases index.shards@.len() - s,
        {
            let mut row: Vec<bool> = Vec::new();
            let mut j: usize = 0;
            while j < index.shards[s].len()
                invariant
                    s < index.shards@.len(),
                    j <= index.shards@[s as int]@.len(),
                    row@.len() == j,
                    forall|k: int| 0 <= k < j ==> !#[trigger] row@[k],
                decreases index.shards@[s as int]@.len() - j,
            {
                row.push(false);
                j += 1;
            }
            flags.push(row);
            s += 1;
        }
        MatchTracker { flags }
    }

    /// Whether the tracker has one flag for each entry of the index.
    pub fn fits(&self, index: &HashIndex) -> (ok: bool)
        ensures
            ok == self.shaped_like(index),
    {
        if self.flags.len() != index.shards.len() {
            return false;
        }
        let mut s: usize = 0;
        while s < self.flags.len()
            invariant
                self.flags@.len() == index.shards@.len(),
                s <= self.flags@.len(),
                forall|t: int|
                    0 <= t < s ==> (#[trigger] self.flags@[t])@.len() == index.shards@[t]@.len(),
            decreases self.flags@.len() - s,
        {
            if self.flags[s].len() != index.shards[s].len() {
                return false;
            }
            s += 1;
        }
        true
    }

    /// Sets the flag of entry `j` of shard `s`; every other flag stays.
    pub fn mark(&mut self, s: usize, j: usize)
        requires
            s < old(self).flags@.len(),
            j < old(self).flags@[s as int]@.len(),
        ensures
            final(self).flags@.len() == old(self).flags@.len(),
            final(self).flags@[s as int]@ == old(self).flags@[s as int]@.update(j as int, true),
            forall|t: int|
                0 <= t < old(self).flags@.len() && t != s ==> final(self).flags@[t] == old(
                    self,
                ).flags@[t],
    {
        self.flags[s][j] = true;
    }

    /// Reads the flag of entry `j` of shard `s`.
    pub fn is_matched(&self, s: usize, j: usize) -> (m: bool)
        requires
            s < self.flags@.len(),
            j < self.flags@[s as int]@.len(),
        ensures
            m == self.matched(s as int, j as int),
    {
        self.flags[s][j]
    }
}

} // verus!
