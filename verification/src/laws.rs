//! What holds of every probe and of every flush.

use crate::chunk_id::ChunkId;
use crate::hash_index::HashIndex;
use crate::probe::{
    flush_ids, hit_at, marked_by, probe_left, probe_right, probeable, row_left, shard_unmatched,
    KeyRow,
};
use crate::tracker::MatchTracker;
use vstd::prelude::*;

verus! {

/// How often a value stands in a sequence.
pub open spec fn occurrences<T>(s: Seq<T>, v: T) -> nat
    decreases s.len(),
{
    if s.len() == 0 {
        0
    } else {
        occurrences(s.drop_last(), v) + if s.last() == v {
            1nat
        } else {
            0nat
        }
    }
}

/// How many left rows match a key: the left rows of the entry that holds it,
/// none when no entry does.
pub open spec fn match_count(index: &HashIndex, hash: u64, key: Seq<u8>) -> nat {
    match index.find(hash, key) {
        Some(j) => index.left_ids(index.shard_of(hash), j).len(),
        None => 0,
    }
}

/// `id` is left row `k` of entry `j` of shard `s`, and the entry's flag is not
/// set.
pub open spec fn unmatched_at(
    index: &HashIndex,
    tracker: &MatchTracker,
    s: int,
    j: int,
    k: int,
    id: ChunkId,
) -> bool {
    &&& index.has_entry(s, j)
    &&& !tracker.matched(s, j)
    &&& 0 <= k < index.left_ids(s, j).len()
    &&& index.left_ids(s, j)[k] == id
}

/// `id` is a left row of an entry whose flag is not set.
pub open spec fn is_unmatched(index: &HashIndex, tracker: &MatchTracker, id: ChunkId) -> bool {
    exists|s: int, j: int, k: int| unmatched_at(index, tracker, s, j, k, id)
}

/// Occurrences add up over a concatenation.
pub proof fn lemma_occurrences_concat<T>(a: Seq<T>, b: Seq<T>, v: T)
    ensures
        occurrences(a + b, v) == occurrences(a, v) + occurrences(b, v),
    decreases b.len(),
{
    if b.len() == 0 {
        assert(a + b =~= a);
    } else {
        assert((a + b).drop_last() =~= a + b.drop_last());
        assert((a + b).last() == b.last());
        lemma_occurrences_concat(a, b.drop_last(), v);
    }
}

/// In `n` copies of `c` the value `v` stands `n` times if it is `c`, and
/// never otherwise.
pub proof fn lemma_occurrences_constant<T>(n: nat, c: T, v: T)
    ensures
        occurrences(Seq::new(n, |j: int| c), v) == (if c == v {
            n
        } else {
            0
        }),
    decreases n,
{
    let s = Seq::new(n, |j: int| c);
    if n > 0 {
        assert(s.drop_last() =~= Seq::new((n - 1) as nat, |j: int| c));
        lemma_occurrences_constant((n - 1) as nat, c, v);
    }
}

/// The two sides of a probe's output are equally long.
pub proof fn lemma_probe_lengths(
    index: &HashIndex,
    hashes: Seq<u64>,
    rows: Seq<KeyRow>,
    nulls_equal: bool,
    k: nat,
)
    ensures
        probe_left(index, hashes, rows, nulls_equal, k).len() == probe_right(
            index,
            hashes,
            rows,
            nulls_equal,
            k,
        ).len(),
    decreases k,
{
    if k > 0 {
        lemma_probe_lengths(index, hashes, rows, nulls_equal, (k - 1) as nat);
    }
}

/// Right-row coverage. In the output of a probe of the first `k` rows, a
/// probed row `i` stands once for each left row that matches its key, and once
/// if none does; a row that is passed over, or that lies beyond `k`, does not
/// stand in it.
pub proof fn lemma_right_row_coverage(
    index: &HashIndex,
    hashes: Seq<u64>,
    rows: Seq<KeyRow>,
    nulls_equal: bool,
    k: nat,
    i: int,
)
    requires
        index.wf(),
        hashes.len() == rows.len(),
        rows.len() <= u32::MAX,
        k <= rows.len(),
        0 <= i < rows.len(),
    ensures
        occurrences(probe_right(index, hashes, rows, nulls_equal, k), i as u32) == (if i < k
            && probeable(rows[i], nulls_equal) {
            let m = match_count(index, hashes[i], rows[i].bytes@);
            if m >= 1 {
                m
            } else {
                1
            }
        } else {
            0
        }),
    decreases k,
{
    if k > 0 {
        let prev = probe_right(index, hashes, rows, nulls_equal, (k - 1) as nat);
        let out = row_left(index, hashes, rows, nulls_equal, k - 1);
        let cur = Seq::new(out.len(), |j: int| (k - 1) as u32);
        lemma_right_row_coverage(index, hashes, rows, nulls_equal, (k - 1) as nat, i);
        lemma_occurrences_concat(prev, cur, i as u32);
        lemma_occurrences_constant(out.len(), (k - 1) as u32, i as u32);
        if i == k - 1 && probeable(rows[i], nulls_equal) {
            match index.find(hashes[i], rows[i].bytes@) {
                Some(j) => {
                    let s = index.shard_of(hashes[i]);
                    assert(index.holds(s, j, hashes[i], rows[i].bytes@));
                    assert(index.has_entry(s, j));
                },
                None => {},
            }
        }
    }
}

/// Match correctness. Output row `p` of a probe pairs a probed row of the
/// batch with a left address: a left row of the entry that holds the row's
/// hash and key, which is no null address, or the null address when no entry
/// holds them.
pub proof fn lemma_match_correctness(
    index: &HashIndex,
    hashes: Seq<u64>,
    rows: Seq<KeyRow>,
    nulls_equal: bool,
    k: nat,
    p: int,
)
    requires
        index.wf(),
        hashes.len() == rows.len(),
        rows.len() <= u32::MAX,
        k <= rows.len(),
        0 <= p < probe_left(index, hashes, rows, nulls_equal, k).len(),
    ensures
        p < probe_right(index, hashes, rows, nulls_equal, k).len(),
        ({
            let i = probe_right(index, hashes, rows, nulls_equal, k)[p] as int;
            let id = probe_left(index, hashes, rows, nulls_equal, k)[p];
            &&& 0 <= i < k
            &&& probeable(rows[i], nulls_equal)
            &&& match index.find(hashes[i], rows[i].bytes@) {
                Some(j) => {
                    &&& index.holds(index.shard_of(hashes[i]), j, hashes[i], rows[i].bytes@)
                    &&& index.left_ids(index.shard_of(hashes[i]), j).contains(id)
                    &&& !id.spec_is_null()
                },
                None => id == ChunkId::spec_null(),
            }
        }),
    decreases k,
{
    lemma_probe_lengths(index, hashes, rows, nulls_equal, k);
    if k > 0 {
        let prev_a = probe_left(index, hashes, rows, nulls_equal, (k - 1) as nat);
        let prev_b = probe_right(index, hashes, rows, nulls_equal, (k - 1) as nat);
        let out = row_left(index, hashes, rows, nulls_equal, k - 1);
        lemma_probe_lengths(index, hashes, rows, nulls_equal, (k - 1) as nat);
        if p < prev_a.len() {
            lemma_match_correctness(index, hashes, rows, nulls_equal, (k - 1) as nat, p);
        } else {
            let i = k - 1;
            let q = p - prev_a.len();
            assert(probe_left(index, hashes, rows, nulls_equal, k)[p] == out[q]);
            assert(probe_right(index, hashes, rows, nulls_equal, k)[p] == i as u32);
            match index.find(hashes[i], rows[i].bytes@) {
                Some(j) => {
                    let s = index.shard_of(hashes[i]);
                    assert(index.holds(s, j, hashes[i], rows[i].bytes@));
                    assert(index.has_entry(s, j));
                    assert(index.left_ids(s, j)[q] == out[q]);
                },
                None => {},
            }
        }
    }
}

/// A value stands in a concatenation exactly if it stands in one of the two
/// parts.
pub proof fn lemma_contains_concat<T>(a: Seq<T>, b: Seq<T>, v: T)
    ensures
        (a + b).contains(v) <==> a.contains(v) || b.contains(v),
{
    if a.contains(v) {
        let i = choose|i: int| 0 <= i < a.len() && a[i] == v;
        assert((a + b)[i] == v);
    }
    if b.contains(v) {
        let i = choose|i: int| 0 <= i < b.len() && b[i] == v;
        assert((a + b)[a.len() + i] == v);
    }
    if (a + b).contains(v) {
        let i = choose|i: int| 0 <= i < (a + b).len() && (a + b)[i] == v;
        if i < a.len() {
            assert(a[i] == v);
        } else {
            assert(b[i - a.len()] == v);
        }
    }
}

/// What the first `n` entries of a shard give to a flush: an address stands
/// in it exactly if it is a left row of one of these entries whose flag is not
/// set.
pub proof fn lemma_shard_unmatched_contains(
    index: &HashIndex,
    tracker: &MatchTracker,
    s: int,
    n: nat,
    id: ChunkId,
)
    requires
        0 <= s < index.num_shards(),
        n <= index.shards@[s]@.len(),
    ensures
        shard_unmatched(index, tracker, s, n).contains(id) <==> exists|j: int, k: int|
            0 <= j < n && unmatched_at(index, tracker, s, j, k, id),
    decreases n,
{
    if n == 0 {
    } else {
        let prev = shard_unmatched(index, tracker, s, (n - 1) as nat);
        let cur = if tracker.matched(s, n - 1) {
            Seq::<ChunkId>::empty()
        } else {
            index.left_ids(s, n - 1)
        };
        lemma_shard_unmatched_contains(index, tracker, s, (n - 1) as nat, id);
        lemma_contains_concat(prev, cur, id);
        if prev.contains(id) {
            let (j, k) = choose|j: int, k: int|
                0 <= j < n - 1 && unmatched_at(index, tracker, s, j, k, id);
            assert(0 <= j < n && unmatched_at(index, tracker, s, j, k, id));
        }
        if cur.contains(id) {
            let k = choose|k: int| 0 <= k < cur.len() && cur[k] == id;
            assert(unmatched_at(index, tracker, s, n - 1, k, id));
        }
        if exists|j: int, k: int| 0 <= j < n && unmatched_at(index, tracker, s, j, k, id) {
            let (j, k) = choose|j: int, k: int|
                0 <= j < n && unmatched_at(index, tracker, s, j, k, id);
            if j < n - 1 {
                assert(0 <= j < n - 1 && unmatched_at(index, tracker, s, j, k, id));
            } else {
                assert(cur[k] == id);
            }
        }
    }
}

/// Worker `t` flushes exactly the left rows of shard `t` whose entry's flag
/// is not set.
pub proof fn lemma_flush_contains(index: &HashIndex, tracker: &MatchTracker, t: int, id: ChunkId)
    requires
        index.wf(),
        tracker.shaped_like(index),
    ensures
        flush_ids(index, tracker, t).contains(id) <==> exists|j: int, k: int|
            unmatched_at(index, tracker, t, j, k, id),
{
    if 0 <= t < index.num_shards() {
        let n = index.shards@[t]@.len();
        lemma_shard_unmatched_contains(index, tracker, t, n, id);
        if exists|j: int, k: int| unmatched_at(index, tracker, t, j, k, id) {
            let (j, k) = choose|j: int, k: int| unmatched_at(index, tracker, t, j, k, id);
            assert(0 <= j < n && unmatched_at(index, tracker, t, j, k, id));
        }
    } else {
        assert(flush_ids(index, tracker, t) =~= Seq::<ChunkId>::empty());
    }
}

/// Shard partition. When no left row is held twice, two different workers
/// flush no address in common, and the workers `0` to the number of shards
/// together flush exactly the left rows of the entries whose flag is not set.
pub proof fn lemma_flush_partition(index: &HashIndex, tracker: &MatchTracker)
    requires
        index.wf(),
        tracker.shaped_like(index),
        index.distinct_left_ids(),
    ensures
        forall|t1: int, t2: int, id: ChunkId|
            t1 != t2 ==> !(#[trigger] flush_ids(index, tracker, t1).contains(id) && #[trigger] flush_ids(
                index,
                tracker,
                t2,
            ).contains(id)),
        forall|id: ChunkId|
            #[trigger] is_unmatched(index, tracker, id) <==> exists|t: int|
                0 <= t < index.num_shards() && #[trigger] flush_ids(index, tracker, t).contains(id),
{
    assert forall|t1: int, t2: int, id: ChunkId| t1 != t2 implies !(#[trigger] flush_ids(
        index,
        tracker,
        t1,
    ).contains(id) && #[trigger] flush_ids(index, tracker, t2).contains(id)) by {
        lemma_flush_contains(index, tracker, t1, id);
        lemma_flush_contains(index, tracker, t2, id);
        if flush_ids(index, tracker, t1).contains(id) && flush_ids(index, tracker, t2).contains(id) {
            let (j1, k1) = choose|j: int, k: int| unmatched_at(index, tracker, t1, j, k, id);
            let (j2, k2) = choose|j: int, k: int| unmatched_at(index, tracker, t2, j, k, id);
            assert(index.left_ids(t1, j1)[k1] == index.left_ids(t2, j2)[k2]);
        }
    }
    assert forall|id: ChunkId| #[trigger]
        is_unmatched(index, tracker, id) <==> exists|t: int|
            0 <= t < index.num_shards() && #[trigger] flush_ids(index, tracker, t).contains(id) by {
        if is_unmatched(index, tracker, id) {
            let (s, j, k) = choose|s: int, j: int, k: int| unmatched_at(index, tracker, s, j, k, id);
            lemma_flush_contains(index, tracker, s, id);
            assert(0 <= s < index.num_shards() && flush_ids(index, tracker, s).contains(id));
        }
        if exists|t: int|
            0 <= t < index.num_shards() && #[trigger] flush_ids(index, tracker, t).contains(id) {
            let t = choose|t: int|
                0 <= t < index.num_shards() && #[trigger] flush_ids(index, tracker, t).contains(id);
            lemma_flush_contains(index, tracker, t, id);
            let (j, k) = choose|j: int, k: int| unmatched_at(index, tracker, t, j, k, id);
            assert(unmatched_at(index, tracker, t, j, k, id));
        }
    }
}

/// How many of the first `k` rows of a batch find entry `j` of shard `s`.
pub open spec fn hit_count(
    index: &HashIndex,
    hashes: Seq<u64>,
    rows: Seq<KeyRow>,
    nulls_equal: bool,
    k: nat,
    s: int,
    j: int,
) -> nat
    decreases k,
{
    if k == 0 {
        0
    } else {
        hit_count(index, hashes, rows, nulls_equal, (k - 1) as nat, s, j) + if hit_at(
            index,
            hashes,
            rows,
            nulls_equal,
            k - 1,
            s,
            j,
        ) {
            1nat
        } else {
            0nat
        }
    }
}

/// How many rows of the first `m` batches find entry `j` of shard `s`. A
/// batch is its hashes and its rows.
pub open spec fn run_hits(
    index: &HashIndex,
    batches: Seq<(Seq<u64>, Seq<KeyRow>)>,
    nulls_equal: bool,
    m: nat,
    s: int,
    j: int,
) -> nat
    decreases m,
{
    if m == 0 {
        0
    } else {
        run_hits(index, batches, nulls_equal, (m - 1) as nat, s, j) + hit_count(
            index,
            batches[m - 1].0,
            batches[m - 1].1,
            nulls_equal,
            batches[m - 1].1.len(),
            s,
            j,
        )
    }
}

/// Whether a row of the first `m` batches finds entry `j` of shard `s`: the
/// entry's flag after these batches were probed, when no flag was set before.
pub open spec fn run_marked(
    index: &HashIndex,
    batches: Seq<(Seq<u64>, Seq<KeyRow>)>,
    nulls_equal: bool,
    m: nat,
    s: int,
    j: int,
) -> bool
    decreases m,
{
    if m == 0 {
        false
    } else {
        run_marked(index, batches, nulls_equal, (m - 1) as nat, s, j) || marked_by(
            index,
            batches[m - 1].0,
            batches[m - 1].1,
            nulls_equal,
            batches[m - 1].1.len(),
            s,
            j,
        )
    }
}

/// How often an address stands in the left side of the outputs of the first
/// `m` batches.
pub open spec fn run_left_occurrences(
    index: &HashIndex,
    batches: Seq<(Seq<u64>, Seq<KeyRow>)>,
    nulls_equal: bool,
    m: nat,
    id: ChunkId,
) -> nat
    decreases m,
{
    if m == 0 {
        0
    } else {
        run_left_occurrences(index, batches, nulls_equal, (m - 1) as nat, id) + occurrences(
            probe_left(
                index,
                batches[m - 1].0,
                batches[m - 1].1,
                nulls_equal,
                batches[m - 1].1.len(),
            ),
            id,
        )
    }
}

/// A value that does not stand in a sequence occurs in it no time.
pub proof fn lemma_occurrences_absent<T>(s: Seq<T>, v: T)
    requires
        !s.contains(v),
    ensures
        occurrences(s, v) == 0,
    decreases s.len(),
{
    if s.len() > 0 {
        assert(s[s.len() - 1] != v);
        assert forall|i: int| 0 <= i < s.drop_last().len() implies s.drop_last()[i] != v by {
            assert(s[i] != v);
        }
        lemma_occurrences_absent(s.drop_last(), v);
    }
}

/// In a sequence without repetition each of its values occurs once.
pub proof fn lemma_occurrences_unique<T>(s: Seq<T>, k: int)
    requires
        0 <= k < s.len(),
        forall|a: int, b: int| 0 <= a < s.len() && 0 <= b < s.len() && s[a] == s[b] ==> a == b,
    ensures
        occurrences(s, s[k]) == 1,
    decreases s.len(),
{
    let v = s[k];
    let front = s.drop_last();
    if k == s.len() - 1 {
        assert forall|i: int| 0 <= i < front.len() implies front[i] != v by {
            assert(front[i] == s[i]);
        }
        lemma_occurrences_absent(front, v);
    } else {
        assert(front[k] == s[k]);
        assert forall|a: int, b: int|
            0 <= a < front.len() && 0 <= b < front.len() && front[a] == front[b] implies a == b by {
            assert(front[a] == s[a] && front[b] == s[b]);
        }
        lemma_occurrences_unique(front, k);
    }
}

/// When no left row is held twice, a left row of entry `j` of shard `s`
/// occurs once among the left rows of that entry and never among those of
/// another entry.
pub proof fn lemma_occurrences_in_entry(index: &HashIndex, s: int, j: int, k: int, s2: int, j2: int)
    requires
        index.distinct_left_ids(),
        index.has_entry(s, j),
        index.has_entry(s2, j2),
        0 <= k < index.left_ids(s, j).len(),
    ensures
        occurrences(index.left_ids(s2, j2), index.left_ids(s, j)[k]) == (if s2 == s && j2 == j {
            1nat
        } else {
            0nat
        }),
{
    let id = index.left_ids(s, j)[k];
    let ids = index.left_ids(s2, j2);
    if s2 == s && j2 == j {
        assert forall|a: int, b: int|
            0 <= a < ids.len() && 0 <= b < ids.len() && ids[a] == ids[b] implies a == b by {
            assert(index.left_ids(s, j)[a] == index.left_ids(s, j)[b]);
        }
        lemma_occurrences_unique(ids, k);
    } else {
        assert forall|a: int| 0 <= a < ids.len() implies ids[a] != id by {
            if index.left_ids(s2, j2)[a] == index.left_ids(s, j)[k] {
                assert(false);
            }
        }
        lemma_occurrences_absent(ids, id);
    }
}

/// When no left row is held twice, a left row of entry `j` of shard `s`
/// stands in the left side of a probe's output once for each probed row that
/// finds this entry.
pub proof fn lemma_left_occurrences(
    index: &HashIndex,
    hashes: Seq<u64>,
    rows: Seq<KeyRow>,
    nulls_equal: bool,
    n: nat,
    s: int,
    j: int,
    k: int,
)
    requires
        index.wf(),
        index.distinct_left_ids(),
        index.has_entry(s, j),
        0 <= k < index.left_ids(s, j).len(),
    ensures
        occurrences(probe_left(index, hashes, rows, nulls_equal, n), index.left_ids(s, j)[k])
            == hit_count(index, hashes, rows, nulls_equal, n, s, j),
    decreases n,
{
    if n > 0 {
        let id = index.left_ids(s, j)[k];
        let i = n - 1;
        let prev = probe_left(index, hashes, rows, nulls_equal, (n - 1) as nat);
        let out = row_left(index, hashes, rows, nulls_equal, i);
        lemma_left_occurrences(index, hashes, rows, nulls_equal, (n - 1) as nat, s, j, k);
        lemma_occurrences_concat(prev, out, id);
        if probeable(rows[i], nulls_equal) {
            match index.find(hashes[i], rows[i].bytes@) {
                Some(j2) => {
                    let s2 = index.shard_of(hashes[i]);
                    assert(index.holds(s2, j2, hashes[i], rows[i].bytes@));
                    lemma_occurrences_in_entry(index, s, j, k, s2, j2);
                },
                None => {
                    assert(!id.spec_is_null());
                    assert(!out.contains(id));
                    lemma_occurrences_absent(out, id);
                },
            }
        } else {
            assert(!out.contains(id));
            lemma_occurrences_absent(out, id);
        }
    }
}

/// When no left row is held twice, a left row of entry `j` of shard `s`
/// stands once in what worker `s` flushes if the entry's flag is not set, and
/// in no other flush.
pub proof fn lemma_flush_occurrences(
    index: &HashIndex,
    tracker: &MatchTracker,
    t: int,
    s: int,
    j: int,
    k: int,
)
    requires
        index.wf(),
        index.distinct_left_ids(),
        index.has_entry(s, j),
        0 <= k < index.left_ids(s, j).len(),
    ensures
        occurrences(flush_ids(index, tracker, t), index.left_ids(s, j)[k]) == (if t == s
            && !tracker.matched(s, j) {
            1nat
        } else {
            0nat
        }),
{
    if 0 <= t < index.num_shards() {
        lemma_shard_occurrences(index, tracker, t, index.shards@[t]@.len(), s, j, k);
    }
}

/// The part of `lemma_flush_occurrences` for the first `n` entries of shard
/// `t`.
pub proof fn lemma_shard_occurrences(
    index: &HashIndex,
    tracker: &MatchTracker,
    t: int,
    n: nat,
    s: int,
    j: int,
    k: int,
)
    requires
        index.distinct_left_ids(),
        index.has_entry(s, j),
        0 <= k < index.left_ids(s, j).len(),
        0 <= t < index.num_shards(),
        n <= index.shards@[t]@.len(),
    ensures
        occurrences(shard_unmatched(index, tracker, t, n), index.left_ids(s, j)[k]) == (if t == s
            && j < n && !tracker.matched(s, j) {
            1nat
        } else {
            0nat
        }),
    decreases n,
{
    if n > 0 {
        let id = index.left_ids(s, j)[k];
        let prev = shard_unmatched(index, tracker, t, (n - 1) as nat);
        let cur = if tracker.matched(t, n - 1) {
            Seq::<ChunkId>::empty()
        } else {
            index.left_ids(t, n - 1)
        };
        lemma_shard_occurrences(index, tracker, t, (n - 1) as nat, s, j, k);
        lemma_occurrences_concat(prev, cur, id);
        assert(index.has_entry(t, n - 1));
        lemma_occurrences_in_entry(index, s, j, k, t, n - 1);
    }
}

/// An entry is marked by a batch exactly if one of the batch's rows finds it.
pub proof fn lemma_marked_iff_hit(
    index: &HashIndex,
    hashes: Seq<u64>,
    rows: Seq<KeyRow>,
    nulls_equal: bool,
    n: nat,
    s: int,
    j: int,
)
    ensures
        marked_by(index, hashes, rows, nulls_equal, n, s, j) <==> hit_count(
            index,
            hashes,
            rows,
            nulls_equal,
            n,
            s,
            j,
        ) > 0,
    decreases n,
{
    if n > 0 {
        lemma_marked_iff_hit(index, hashes, rows, nulls_equal, (n - 1) as nat, s, j);
    }
}

/// The streaming part of left-row coverage over `m` batches, with the flags
/// that these batches set.
pub proof fn lemma_run_occurrences(
    index: &HashIndex,
    batches: Seq<(Seq<u64>, Seq<KeyRow>)>,
    nulls_equal: bool,
    m: nat,
    s: int,
    j: int,
    k: int,
)
    requires
        index.wf(),
        index.distinct_left_ids(),
        index.has_entry(s, j),
        0 <= k < index.left_ids(s, j).len(),
    ensures
        run_left_occurrences(index, batches, nulls_equal, m, index.left_ids(s, j)[k]) == run_hits(
            index,
            batches,
            nulls_equal,
            m,
            s,
            j,
        ),
        run_marked(index, batches, nulls_equal, m, s, j) <==> run_hits(
            index,
            batches,
            nulls_equal,
            m,
            s,
            j,
        ) > 0,
    decreases m,
{
    if m > 0 {
        let b = batches[m - 1];
        lemma_run_occurrences(index, batches, nulls_equal, (m - 1) as nat, s, j, k);
        lemma_left_occurrences(index, b.0, b.1, nulls_equal, b.1.len(), s, j, k);
        lemma_marked_iff_hit(index, b.0, b.1, nulls_equal, b.1.len(), s, j);
    }
}

/// Left-row coverage. Let no left row be held twice, and let the flags be the
/// ones that probing `batches` sets when none was set before. Then a left row
/// stands, in the outputs of these batches and the flush of the worker of its
/// shard together, once for each right row that matches it, and once if none
/// does; and it stands in the flush of no other worker.
pub proof fn lemma_left_row_coverage(
    index: &HashIndex,
    tracker: &MatchTracker,
    batches: Seq<(Seq<u64>, Seq<KeyRow>)>,
    nulls_equal: bool,
    s: int,
    j: int,
    k: int,
)
    requires
        index.wf(),
        index.distinct_left_ids(),
        index.has_entry(s, j),
        0 <= k < index.left_ids(s, j).len(),
        tracker.matched(s, j) == run_marked(index, batches, nulls_equal, batches.len(), s, j),
    ensures
        run_left_occurrences(index, batches, nulls_equal, batches.len(), index.left_ids(s, j)[k])
            + occurrences(flush_ids(index, tracker, s), index.left_ids(s, j)[k]) == (if run_hits(
            index,
            batches,
            nulls_equal,
            batches.len(),
            s,
            j,
        ) >= 1 {
            run_hits(index, batches, nulls_equal, batches.len(), s, j)
        } else {
            1
        }),
        forall|t: int|
            t != s ==> occurrences(
                #[trigger] flush_ids(index, tracker, t),
                index.left_ids(s, j)[k],
            ) == 0,
{
    lemma_run_occurrences(index, batches, nulls_equal, batches.len(), s, j, k);
    lemma_flush_occurrences(index, tracker, s, s, j, k);
    assert forall|t: int| t != s implies occurrences(
        #[trigger] flush_ids(index, tracker, t),
        index.left_ids(s, j)[k],
    ) == 0 by {
        lemma_flush_occurrences(index, tracker, t, s, j, k);
    }
}

/// Batch order. The right side of a probe's output never steps back: the
/// output rows of an earlier batch row stand before those of a later one.
pub proof fn lemma_right_side_ordered(
    index: &HashIndex,
    hashes: Seq<u64>,
    rows: Seq<KeyRow>,
    nulls_equal: bool,
    k: nat,
    p: int,
    q: int,
)
    requires
        rows.len() <= u32::MAX,
        k <= rows.len(),
        0 <= p <= q < probe_right(index, hashes, rows, nulls_equal, k).len(),
    ensures
        probe_right(index, hashes, rows, nulls_equal, k)[p] <= probe_right(
            index,
            hashes,
            rows,
            nulls_equal,
            k,
        )[q] < k,
    decreases k,
{
    if k > 0 {
        let prev = probe_right(index, hashes, rows, nulls_equal, (k - 1) as nat);
        if q < prev.len() {
            lemma_right_side_ordered(index, hashes, rows, nulls_equal, (k - 1) as nat, p, q);
        } else if p < prev.len() {
            lemma_right_side_ordered(index, hashes, rows, nulls_equal, (k - 1) as nat, p, p);
        }
    }
}

/// A flush emits no null address.
pub proof fn lemma_flush_without_null(index: &HashIndex, tracker: &MatchTracker, t: int, p: int)
    requires
        index.wf(),
        tracker.shaped_like(index),
        0 <= p < flush_ids(index, tracker, t).len(),
    ensures
        !flush_ids(index, tracker, t)[p].spec_is_null(),
{
    let id = flush_ids(index, tracker, t)[p];
    assert(flush_ids(index, tracker, t).contains(id));
    lemma_flush_contains(index, tracker, t, id);
    let (j, k) = choose|j: int, k: int| unmatched_at(index, tracker, t, j, k, id);
    assert(index.has_entry(t, j));
    assert(!index.left_ids(t, j)[k].spec_is_null());
}

} // verus!
