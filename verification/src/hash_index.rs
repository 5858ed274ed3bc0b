//! The sharded hash index over the left side, as the probe reads it.

use crate::chunk_id::ChunkId;
use vstd::prelude::*;

verus! {

/// One group of left rows that share a join key.
pub struct Entry {
    /// Hash of the key.
    pub hash: u64,
    /// The encoded key.
    pub key: Vec<u8>,
    /// The left rows with this key, in the order in which they were inserted.
    pub left_ids: Vec<ChunkId>,
}

/// The index: shard `s` holds the entries whose hash is `s` modulo the number
/// of shards.
pub struct HashIndex {
    pub shards: Vec<Vec<Entry>>,
}

/// Whether two byte strings are the same.
pub fn bytes_equal(a: &Vec<u8>, b: &Vec<u8>) -> (same: bool)
    ensures
        same == (a@ == b@),
{
    if a.len() != b.len() {
        return false;
    }
    let mut i: usize = 0;
    while i < a.len()
        invariant
            a@.len() == b@.len(),
            i <= a@.len(),
            forall|k: int| 0 <= k < i ==> a@[k] == b@[k],
        decreases a@.len() - i,
    {
        if a[i] != b[i] {
            return false;
        }
        i += 1;
    }
    assert(a@ =~= b@);
    true
}

impl HashIndex {
    pub open spec fn num_shards(&self) -> int {
        self.shards@.len() as int
    }

    /// The shard in which a hash is looked up.
    pub open spec fn shard_of(&self, hash: u64) -> int {
        (hash as int) % self.num_shards()
    }

    pub open spec fn has_entry(&self, s: int, j: int) -> bool {
        0 <= s < self.shards@.len() && 0 <= j < self.shards@[s]@.len()
    }

    pub open spec fn entry(&self, s: int, j: int) -> Entry {
        self.shards@[s]@[j]
    }

    /// The left rows of entry `j` of shard `s`.
    pub open spec fn left_ids(&self, s: int, j: int) -> Seq<ChunkId> {
        self.shards@[s]@[j].left_ids@
    }

    /// Entry `j` of shard `s` exists and has this hash and this key.
    pub open spec fn holds(&self, s: int, j: int, hash: u64, key: Seq<u8>) -> bool {
        &&& self.has_entry(s, j)
        &&& self.entry(s, j).hash == hash
        &&& self.entry(s, j).key@ == key
    }

    /// Every entry lies in the shard of its hash, has at least one left row
    /// and no null address, and no shard holds a hash and key twice.
    pub open spec fn wf(&self) -> bool {
        &&& self.shards@.len() > 0
        &&& forall|s: int, j: int| #[trigger]
            self.has_entry(s, j) ==> {
                &&& self.shard_of(self.entry(s, j).hash) == s
                &&& self.left_ids(s, j).len() > 0
                &&& forall|k: int|
                    0 <= k < self.left_ids(s, j).len() ==> !(#[trigger] self.left_ids(s, j)[k]).spec_is_null()
            }
        &&& forall|s: int, j1: int, j2: int, hash: u64, key: Seq<u8>|
            #[trigger] self.holds(s, j1, hash, key) && #[trigger] self.holds(s, j2, hash, key) ==> j1
                == j2
    }

    /// No left row is held twice, in one entry or in two: what holds of an
    /// index that was built from the rows of one table.
    pub open spec fn distinct_left_ids(&self) -> bool {
        forall|s1: int, j1: int, k1: int, s2: int, j2: int, k2: int|
            self.has_entry(s1, j1) && self.has_entry(s2, j2) && 0 <= k1 < self.left_ids(s1, j1).len()
                && 0 <= k2 < self.left_ids(s2, j2).len() && #[trigger] self.left_ids(s1, j1)[k1]
                == #[trigger] self.left_ids(s2, j2)[k2] ==> s1 == s2 && j1 == j2 && k1 == k2
    }

    /// The position, in the shard of `hash`, of the entry with this hash and
    /// key, if there is one.
    pub open spec fn find(&self, hash: u64, key: Seq<u8>) -> Option<int> {
        let s = self.shard_of(hash);
        if exists|j: int| self.holds(s, j, hash, key) {
            Some(choose|j: int| self.holds(s, j, hash, key))
        } else {
            None
        }
    }

    /// What one probed row contributes to the left side of the output: the
    /// left rows of the entry it finds, or one null address.
    pub open spec fn hits(&self, hash: u64, key: Seq<u8>) -> Seq<ChunkId> {
        match self.find(hash, key) {
            Some(j) => self.left_ids(self.shard_of(hash), j),
            None => seq![ChunkId::spec_null()],
        }
    }

    /// Entry `j` of shard `s` lies in the shard of its hash, has a left row and
    /// holds no null address.
    pub open spec fn entry_ok(&self, s: int, j: int) -> bool {
        &&& self.shard_of(self.entry(s, j).hash) == s
        &&& self.left_ids(s, j).len() > 0
        &&& forall|k: int|
            0 <= k < self.left_ids(s, j).len() ==> !(#[trigger] self.left_ids(s, j)[k]).spec_is_null()
    }

    /// Entries `j1` and `j2` of shard `s` have the same hash and key.
    pub open spec fn same_key(&self, s: int, j1: int, j2: int) -> bool {
        self.entry(s, j1).hash == self.entry(s, j2).hash && self.entry(s, j1).key@ == self.entry(
            s,
            j2,
        ).key@
    }

    /// Whether the index is well formed.
    pub fn is_well_formed(&self) -> (ok: bool)
        ensures
            ok == self.wf(),
    {
        let n = self.shards.len();
        if n == 0 {
            return false;
        }
        let mut s: usize = 0;
        while s < n
            invariant
                n == self.shards@.len(),
                n > 0,
                s <= n,
                forall|s0: int, j0: int|
                    0 <= s0 < s && #[trigger] self.has_entry(s0, j0) ==> self.entry_ok(s0, j0),
                forall|s0: int, j1: int, j2: int|
                    0 <= s0 < s && 0 <= j1 < j2 < self.shards@[s0]@.len() ==> !#[trigger] self.same_key(
                        s0,
                        j1,
                        j2,
                    ),
            decreases n - s,
        {
            let shard = &self.shards[s];
            let mut j: usize = 0;
            while j < shard.len()
                invariant
                    n == self.shards@.len(),
                    n > 0,
                    s < n,
                    shard == &self.shards@[s as int],
                    j <= shard@.len(),
                    forall|j0: int| 0 <= j0 < j ==> #[trigger] self.entry_ok(s as int, j0),
                    forall|j1: int, j2: int|
                        0 <= j1 < j2 < j ==> !#[trigger] self.same_key(s as int, j1, j2),
                decreases shard@.len() - j,
            {
                let e = &shard[j];
                assert(self.has_entry(s as int, j as int));
                if (e.hash % (n as u64)) as usize != s || e.left_ids.len() == 0 {
                    return false;
                }
                let mut k: usize = 0;
                while k < e.left_ids.len()
                    invariant
                        e == &self.shards@[s as int]@[j as int],
                        self.has_entry(s as int, j as int),
                        k <= e.left_ids@.len(),
                        forall|k0: int| 0 <= k0 < k ==> !(#[trigger] e.left_ids@[k0]).spec_is_null(),
                    decreases e.left_ids@.len() - k,
                {
                    if e.left_ids[k].is_null() {
                        assert(self.left_ids(s as int, j as int)[k as int].spec_is_null());
                        return false;
                    }
                    k += 1;
                }
                let mut j1: usize = 0;
                while j1 < j
                    invariant
                        e == &self.shards@[s as int]@[j as int],
                        shard == &self.shards@[s as int],
                        self.has_entry(s as int, j as int),
                        j < shard@.len(),
                        j1 <= j,
                        forall|j0: int| 0 <= j0 < j1 ==> !#[trigger] self.same_key(s as int, j0, j as int),
                    decreases j - j1,
                {
                    if shard[j1].hash == e.hash && bytes_equal(&shard[j1].key, &e.key) {
                        assert(self.holds(s as int, j1 as int, e.hash, e.key@));
                        assert(self.holds(s as int, j as int, e.hash, e.key@));
                        return false;
                    }
                    j1 += 1;
                }
                assert(self.entry_ok(s as int, j as int));
                j += 1;
            }
            s += 1;
        }
        assert forall|s0: int, j1: int, j2: int, hash: u64, key: Seq<u8>| #[trigger]
            self.holds(s0, j1, hash, key) && #[trigger] self.holds(s0, j2, hash, key) implies j1
            == j2 by {
            if j1 < j2 {
                assert(self.same_key(s0, j1, j2));
            } else if j2 < j1 {
                assert(self.same_key(s0, j2, j1));
            }
        }
        true
    }

    /// Number of shards.
    pub fn n_shards(&self) -> (n: usize)
        ensures
            n == self.num_shards(),
    {
        self.shards.len()
    }

    /// Looks a hash and key up: the shard and the position of the entry that
    /// holds them, or `None` when no entry does.
    pub fn find_entry(&self, hash: u64, row: &Vec<u8>) -> (found: Option<(usize, usize)>)
        requires
            self.wf(),
        ensures
            match found {
                Some((s, j)) => s == self.shard_of(hash) && self.find(hash, row@) == Some(j as int)
                    && self.has_entry(s as int, j as int),
                None => self.find(hash, row@) is None,
            },
    {
        let n = self.shards.len();
        let s: usize = (hash % (n as u64)) as usize;
        let shard = &self.shards[s];
        let mut j: usize = 0;
        while j < shard.len()
            invariant
                s == self.shard_of(hash),
                0 <= s < self.shards@.len(),
                shard == &self.shards@[s as int],
                j <= shard@.len(),
                self.wf(),
                forall|k: int| 0 <= k < j ==> !self.holds(s as int, k, hash, row@),
            decreases shard@.len() - j,
        {
            if shard[j].hash == hash && bytes_equal(&shard[j].key, row) {
                assert(self.holds(s as int, j as int, hash, row@));
                return Some((s, j));
            }
            j += 1;
        }
        None
    }
}

} // verus!
