//! The probe of one right batch against the index, and the collection of the
//! left rows that no right row matched.

use crate::chunk_id::ChunkId;
use crate::hash_index::HashIndex;
use crate::idx_buffer::{
    idx_clear, idx_extend_constant, idx_new, idx_push_value, idx_to_vec, idx_values, IdxBuffer,
};
use crate::hasher::{hash_key, seeded_hash};
use crate::tracker::MatchTracker;
use polars_utils::aliases::PlSeedableRandomStateQuality;
use vstd::prelude::*;

verus! {

/// The encoded join key of one right row. `is_null` says that one of the key
/// columns is null at this row.
pub struct KeyRow {
    pub bytes: Vec<u8>,
    pub is_null: bool,
}

/// What the caller chose for the join.
pub struct JoinConfig {
    /// Appended to right column names that collide with left ones.
    pub suffix: String,
    /// Whether rows with a null key are probed, and equal each other.
    pub nulls_equal: bool,
    /// Whether each pair of key columns is merged into one output column.
    pub coalesce: bool,
    /// Whether the indexed side is the caller's right side.
    pub swapped: bool,
    pub key_names_left: Vec<String>,
    pub key_names_right: Vec<String>,
}

/// Where a worker stands: before its first batch, between batches, or after
/// it has emitted the unmatched left rows.
#[derive(Clone, Copy, Debug, PartialEq, Eq, Structural)]
pub enum Phase {
    Fresh,
    Streaming,
    Flushed,
}

/// How the two gathered frames are put together.
pub struct AssemblyPlan {
    /// The gathered frames change places before their columns are joined.
    pub swap: bool,
    /// The suffix for colliding right column names.
    pub suffix: String,
    /// `None`: names are resolved with the suffix, and the resulting names are
    /// to be cached. `Some`: the columns are renamed by position to these.
    pub names: Option<Vec<String>>,
    /// The key column pairs to merge, left names and right names, when the
    /// join coalesces.
    pub coalesce: Option<(Vec<String>, Vec<String>)>,
}

/// The state of one worker of the probe.
pub struct GenericFullOuterJoinProbe {
    pub config: JoinConfig,
    /// Left side of the output rows; a null address where a right row found
    /// no entry.
    pub join_tuples_a: Vec<ChunkId>,
    /// Right side of the output rows, as long as `join_tuples_a`.
    pub join_tuples_b: IdxBuffer,
    /// The hashes of the last batch.
    pub hashes: Vec<u64>,
    /// The output column names, once a join has been assembled.
    pub output_names: Option<Vec<String>>,
    pub thread_no: usize,
    pub phase: Phase,
}

/// Whether a row takes part in the probe.
pub open spec fn probeable(row: KeyRow, nulls_equal: bool) -> bool {
    nulls_equal || !row.is_null
}

/// The left addresses that row `i` of a batch puts out.
pub open spec fn row_left(
    index: &HashIndex,
    hashes: Seq<u64>,
    rows: Seq<KeyRow>,
    nulls_equal: bool,
    i: int,
) -> Seq<ChunkId> {
    if probeable(rows[i], nulls_equal) {
        index.hits(hashes[i], rows[i].bytes@)
    } else {
        Seq::empty()
    }
}

/// The left side of the output for the first `k` rows of a batch.
pub open spec fn probe_left(
    index: &HashIndex,
    hashes: Seq<u64>,
    rows: Seq<KeyRow>,
    nulls_equal: bool,
    k: nat,
) -> Seq<ChunkId>
    decreases k,
{
    if k == 0 {
        Seq::empty()
    } else {
        probe_left(index, hashes, rows, nulls_equal, (k - 1) as nat) + row_left(
            index,
            hashes,
            rows,
            nulls_equal,
            k - 1,
        )
    }
}

/// The right side of the output for the first `k` rows of a batch: each row's
/// number, once for each left address that the row puts out.
pub open spec fn probe_right(
    index: &HashIndex,
    hashes: Seq<u64>,
    rows: Seq<KeyRow>,
    nulls_equal: bool,
    k: nat,
) -> Seq<u32>
    decreases k,
{
    if k == 0 {
        Seq::empty()
    } else {
        probe_right(index, hashes, rows, nulls_equal, (k - 1) as nat) + Seq::new(
            row_left(index, hashes, rows, nulls_equal, k - 1).len(),
            |j: int| (k - 1) as u32,
        )
    }
}

/// Row `i` of the batch is probed and finds entry `j` of shard `s`.
pub open spec fn hit_at(
    index: &HashIndex,
    hashes: Seq<u64>,
    rows: Seq<KeyRow>,
    nulls_equal: bool,
    i: int,
    s: int,
    j: int,
) -> bool {
    &&& probeable(rows[i], nulls_equal)
    &&& index.shard_of(hashes[i]) == s
    &&& index.find(hashes[i], rows[i].bytes@) == Some(j)
}

/// One of the first `k` rows of the batch finds entry `j` of shard `s`.
pub open spec fn marked_by(
    index: &HashIndex,
    hashes: Seq<u64>,
    rows: Seq<KeyRow>,
    nulls_equal: bool,
    k: nat,
    s: int,
    j: int,
) -> bool
    decreases k,
{
    if k == 0 {
        false
    } else {
        marked_by(index, hashes, rows, nulls_equal, (k - 1) as nat, s, j) || hit_at(
            index,
            hashes,
            rows,
            nulls_equal,
            k - 1,
            s,
            j,
        )
    }
}

/// The left rows of the first `k` entries of shard `s` whose flag is not set.
pub open spec fn shard_unmatched(index: &HashIndex, tracker: &MatchTracker, s: int, k: nat) -> Seq<
    ChunkId,
>
    decreases k,
{
    if k == 0 {
        Seq::empty()
    } else {
        shard_unmatched(index, tracker, s, (k - 1) as nat) + if tracker.matched(s, k - 1) {
            Seq::empty()
        } else {
            index.left_ids(s, k - 1)
        }
    }
}

/// What worker `t` emits when the stream has ended: the unmatched left rows of
/// shard `t`, and nothing where there is no such shard.
pub open spec fn flush_ids(index: &HashIndex, tracker: &MatchTracker, t: int) -> Seq<ChunkId> {
    if 0 <= t < index.num_shards() {
        shard_unmatched(index, tracker, t, index.shards@[t]@.len())
    } else {
        Seq::empty()
    }
}

/// The names that a list of names holds, or `None`.
pub open spec fn names_view(names: Option<Vec<String>>) -> Option<Seq<String>> {
    match names {
        Some(v) => Some(v@),
        None => None,
    }
}

/// The two lists of key names that a plan holds, or `None`.
pub open spec fn key_pairs_view(pairs: Option<(Vec<String>, Vec<String>)>) -> Option<
    (Seq<String>, Seq<String>),
> {
    match pairs {
        Some((left, right)) => Some((left@, right@)),
        None => None,
    }
}

impl JoinConfig {
    /// Both hold the same settings.
    pub open spec fn same_as(&self, other: &JoinConfig) -> bool {
        &&& self.suffix == other.suffix
        &&& self.nulls_equal == other.nulls_equal
        &&& self.coalesce == other.coalesce
        &&& self.swapped == other.swapped
        &&& self.key_names_left@ == other.key_names_left@
        &&& self.key_names_right@ == other.key_names_right@
    }

    /// A copy with the same settings.
    pub fn duplicate(&self) -> (copy: JoinConfig)
        ensures
            copy.same_as(self),
    {
        JoinConfig {
            suffix: self.suffix.clone(),
            nulls_equal: self.nulls_equal,
            coalesce: self.coalesce,
            swapped: self.swapped,
            key_names_left: clone_names(&self.key_names_left),
            key_names_right: clone_names(&self.key_names_right),
        }
    }
}

/// A copy of a list of names.
pub fn clone_names(names: &Vec<String>) -> (copy: Vec<String>)
    ensures
        copy@ == names@,
{
    let mut copy: Vec<String> = Vec::new();
    let mut k: usize = 0;
    while k < names.len()
        invariant
            k <= names@.len(),
            copy@ == names@.subrange(0, k as int),
        decreases names@.len() - k,
    {
        copy.push(names[k].clone());
        assert(copy@ =~= names@.subrange(0, k + 1));
        k += 1;
    }
    assert(names@.subrange(0, names@.len() as int) =~= names@);
    copy
}

/// The hashes of the rows of a batch under a seeded hasher, null rows
/// included.
pub open spec fn row_hashes(hb: PlSeedableRandomStateQuality, rows: Seq<KeyRow>) -> Seq<u64> {
    Seq::new(rows.len(), |i: int| seeded_hash(hb, rows[i].bytes@))
}

/// Hashes the bytes of every row of a batch into `buf`, which afterwards holds
/// the hash of each row, in order, and nothing else.
pub fn hash_rows(hb: &PlSeedableRandomStateQuality, rows: &Vec<KeyRow>, buf: &mut Vec<u64>)
    ensures
        final(buf)@ == row_hashes(*hb, rows@),
{
    buf.clear();
    let mut k: usize = 0;
    while k < rows.len()
        invariant
            k <= rows@.len(),
            buf@.len() == k,
            forall|i: int| 0 <= i < k ==> buf@[i] == seeded_hash(*hb, rows@[i].bytes@),
        decreases rows@.len() - k,
    {
        buf.push(hash_key(hb, &rows[k].bytes));
        k += 1;
    }
    assert(buf@ =~= row_hashes(*hb, rows@));
}

/// Appends `src` to `dst`.
fn append_ids(dst: &mut Vec<ChunkId>, src: &Vec<ChunkId>)
    ensures
        final(dst)@ == old(dst)@ + src@,
{
    let mut k: usize = 0;
    while k < src.len()
        invariant
            k <= src@.len(),
            dst@ == old(dst)@ + src@.subrange(0, k as int),
        decreases src@.len() - k,
    {
        let id = src[k];
        dst.push(id);
        assert(dst@ =~= old(dst)@ + src@.subrange(0, k + 1));
        k += 1;
    }
    assert(src@.subrange(0, src@.len() as int) =~= src@);
}

impl GenericFullOuterJoinProbe {
    /// The right side of the output rows.
    pub open spec fn right_view(&self) -> Seq<u32> {
        idx_values(self.join_tuples_b)
    }

    /// The two sides of the output are equally long.
    pub open spec fn wf(&self) -> bool {
        self.join_tuples_a@.len() == self.right_view().len()
    }

    /// A worker before its first batch, with worker number 0. `amortized_hashes`
    /// is taken over as the buffer for the hashes.
    pub fn new(config: JoinConfig, amortized_hashes: Vec<u64>) -> (probe: GenericFullOuterJoinProbe)
        ensures
            probe.config == config,
            probe.join_tuples_a@ == Seq::<ChunkId>::empty(),
            probe.right_view() == Seq::<u32>::empty(),
            probe.hashes == amortized_hashes,
            probe.output_names is None,
            probe.thread_no == 0,
            probe.phase == Phase::Fresh,
            probe.wf(),
    {
        GenericFullOuterJoinProbe {
            config,
            join_tuples_a: Vec::new(),
            join_tuples_b: idx_new(),
            hashes: amortized_hashes,
            output_names: None,
            thread_no: 0,
            phase: Phase::Fresh,
        }
    }

    /// Probes the rows of a batch in order and appends what they put out: for
    /// a row that finds an entry, the entry's left rows, each paired with the
    /// row's number, and the entry's flag is set; for a probed row that finds
    /// none, a null address paired with the row's number. Rows with a null key
    /// are passed over unless nulls are equal.
    pub fn match_outer(
        &mut self,
        index: &HashIndex,
        tracker: &mut MatchTracker,
        hashes: &Vec<u64>,
        rows: &Vec<KeyRow>,
    )
        requires
            index.wf(),
            old(tracker).shaped_like(index),
            old(self).wf(),
            hashes@.len() == rows@.len(),
            rows@.len() <= u32::MAX,
        ensures
            final(self).join_tuples_a@ == old(self).join_tuples_a@ + probe_left(
                index,
                hashes@,
                rows@,
                old(self).config.nulls_equal,
                rows@.len(),
            ),
            final(self).right_view() == old(self).right_view() + probe_right(
                index,
                hashes@,
                rows@,
                old(self).config.nulls_equal,
                rows@.len(),
            ),
            final(self).wf(),
            final(tracker).shaped_like(index),
            forall|s: int, j: int| #[trigger]
                index.has_entry(s, j) ==> final(tracker).matched(s, j) == (old(tracker).matched(s, j)
                    || marked_by(
                    index,
                    hashes@,
                    rows@,
                    old(self).config.nulls_equal,
                    rows@.len(),
                    s,
                    j,
                )),
            final(self).config == old(self).config,
            final(self).hashes == old(self).hashes,
            final(self).output_names == old(self).output_names,
            final(self).thread_no == old(self).thread_no,
            final(self).phase == old(self).phase,
    {
        let nulls_equal = self.config.nulls_equal;
        let mut i: usize = 0;
        while i < rows.len()
            invariant
                index.wf(),
                tracker.shaped_like(index),
                hashes@.len() == rows@.len(),
                rows@.len() <= u32::MAX,
                i <= rows@.len(),
                nulls_equal == old(self).config.nulls_equal,
                self.join_tuples_a@ == old(self).join_tuples_a@ + probe_left(
                    index,
                    hashes@,
                    rows@,
                    nulls_equal,
                    i as nat,
                ),
                self.right_view() == old(self).right_view() + probe_right(
                    index,
                    hashes@,
                    rows@,
                    nulls_equal,
                    i as nat,
                ),
                self.wf(),
                old(self).wf(),
                forall|s: int, j: int| #[trigger]
                    index.has_entry(s, j) ==> tracker.matched(s, j) == (old(tracker).matched(s, j)
                        || marked_by(index, hashes@, rows@, nulls_equal, i as nat, s, j)),
                self.config == old(self).config,
                self.hashes == old(self).hashes,
                self.output_names == old(self).output_names,
                self.thread_no == old(self).thread_no,
                self.phase == old(self).phase,
            decreases rows@.len() - i,
        {
            let ghost a0 = self.join_tuples_a@;
            let ghost b0 = self.right_view();
            let ghost t0 = *tracker;
            let ghost out = row_left(index, hashes@, rows@, nulls_equal, i as int);
            if nulls_equal || !rows[i].is_null {
                let df_idx_right: u32 = i as u32;
                match index.find_entry(hashes[i], &rows[i].bytes) {
                    Some((s, j)) => {
                        tracker.mark(s, j);
                        let indexes_left = &index.shards[s][j].left_ids;
                        append_ids(&mut self.join_tuples_a, indexes_left);
                        let filled: usize = self.join_tuples_a.len();
                        assert(filled == b0.len() + indexes_left@.len());
                        idx_extend_constant(
                            &mut self.join_tuples_b,
                            indexes_left.len(),
                            df_idx_right,
                        );
                        assert forall|s2: int, j2: int| #[trigger]
                            index.has_entry(s2, j2) implies tracker.matched(s2, j2) == (t0.matched(
                            s2,
                            j2,
                        ) || hit_at(index, hashes@, rows@, nulls_equal, i as int, s2, j2)) by {
                            if s2 != s {
                                assert(tracker.flags@[s2] == t0.flags@[s2]);
                            }
                        }
                        assert forall|s2: int| 0 <= s2 < tracker.flags@.len() implies (
                        #[trigger] tracker.flags@[s2])@.len() == index.shards@[s2]@.len() by {
                            if s2 != s {
                                assert(tracker.flags@[s2] == t0.flags@[s2]);
                            }
                        }
                    },
                    None => {
                        self.join_tuples_a.push(ChunkId::null());
                        idx_push_value(&mut self.join_tuples_b, df_idx_right);
                    },
                }
            }
            assert(self.join_tuples_a@ =~= old(self).join_tuples_a@ + probe_left(
                index,
                hashes@,
                rows@,
                nulls_equal,
                (i + 1) as nat,
            ));
            assert(self.right_view() =~= old(self).right_view() + probe_right(
                index,
                hashes@,
                rows@,
                nulls_equal,
                (i + 1) as nat,
            ));
            i += 1;
        }
    }

    /// Probes one batch with the hashes given for its rows. The buffers are
    /// emptied first, so afterwards they hold the output of this batch alone,
    /// in the order of the batch's rows; the worker is then streaming.
    pub fn probe(
        &mut self,
        index: &HashIndex,
        tracker: &mut MatchTracker,
        rows: &Vec<KeyRow>,
        hashes: Vec<u64>,
    )
        requires
            index.wf(),
            old(tracker).shaped_like(index),
            hashes@.len() == rows@.len(),
            rows@.len() <= u32::MAX,
            old(self).phase != Phase::Flushed,
        ensures
            final(self).join_tuples_a@ == probe_left(
                index,
                hashes@,
                rows@,
                old(self).config.nulls_equal,
                rows@.len(),
            ),
            final(self).right_view() == probe_right(
                index,
                hashes@,
                rows@,
                old(self).config.nulls_equal,
                rows@.len(),
            ),
            final(self).wf(),
            final(tracker).shaped_like(index),
            forall|s: int, j: int| #[trigger]
                index.has_entry(s, j) ==> final(tracker).matched(s, j) == (old(tracker).matched(s, j)
                    || marked_by(
                    index,
                    hashes@,
                    rows@,
                    old(self).config.nulls_equal,
                    rows@.len(),
                    s,
                    j,
                )),
            final(self).phase == Phase::Streaming,
            final(self).hashes == hashes,
            final(self).config == old(self).config,
            final(self).output_names == old(self).output_names,
            final(self).thread_no == old(self).thread_no,
    {
        self.join_tuples_a.clear();
        idx_clear(&mut self.join_tuples_b);
        self.phase = Phase::Streaming;
        self.match_outer(index, tracker, &hashes, rows);
        assert(self.join_tuples_a@ =~= probe_left(
            index,
            hashes@,
            rows@,
            old(self).config.nulls_equal,
            rows@.len(),
        ));
        assert(self.right_view() =~= probe_right(
            index,
            hashes@,
            rows@,
            old(self).config.nulls_equal,
            rows@.len(),
        ));
        self.hashes = hashes;
    }

    /// Processes one batch: hashes its rows into the worker's own buffer and
    /// probes them with these hashes.
    pub fn execute_outer(
        &mut self,
        hb: &PlSeedableRandomStateQuality,
        index: &HashIndex,
        tracker: &mut MatchTracker,
        rows: &Vec<KeyRow>,
    )
        requires
            index.wf(),
            old(tracker).shaped_like(index),
            rows@.len() <= u32::MAX,
            old(self).phase != Phase::Flushed,
        ensures
            final(self).hashes@ == row_hashes(*hb, rows@),
            final(self).join_tuples_a@ == probe_left(
                index,
                row_hashes(*hb, rows@),
                rows@,
                old(self).config.nulls_equal,
                rows@.len(),
            ),
            final(self).right_view() == probe_right(
                index,
                row_hashes(*hb, rows@),
                rows@,
                old(self).config.nulls_equal,
                rows@.len(),
            ),
            final(self).wf(),
            final(tracker).shaped_like(index),
            forall|s: int, j: int| #[trigger]
                index.has_entry(s, j) ==> final(tracker).matched(s, j) == (old(tracker).matched(s, j)
                    || marked_by(
                    index,
                    row_hashes(*hb, rows@),
                    rows@,
                    old(self).config.nulls_equal,
                    rows@.len(),
                    s,
                    j,
                )),
            final(self).phase == Phase::Streaming,
            final(self).config == old(self).config,
            final(self).output_names == old(self).output_names,
            final(self).thread_no == old(self).thread_no,
    {
        let mut hashes: Vec<u64> = Vec::new();
        std::mem::swap(&mut hashes, &mut self.hashes);
        hash_rows(hb, rows, &mut hashes);
        self.probe(index, tracker, rows, hashes);
    }

    /// Collects what this worker emits when the stream has ended: the left
    /// rows of the entries of its shard whose flag is not set, in the order of
    /// the shard's entries.
    pub fn execute_flush(&mut self, index: &HashIndex, tracker: &MatchTracker)
        requires
            index.wf(),
            tracker.shaped_like(index),
            old(self).phase == Phase::Streaming,
        ensures
            final(self).join_tuples_a@ == flush_ids(index, tracker, old(self).thread_no as int),
            final(self).phase == Phase::Flushed,
            final(self).join_tuples_b == old(self).join_tuples_b,
            final(self).hashes == old(self).hashes,
            final(self).config == old(self).config,
            final(self).output_names == old(self).output_names,
            final(self).thread_no == old(self).thread_no,
    {
        let n = index.shards.len();
        self.join_tuples_a.clear();
        let mut i: usize = 0;
        while i < n
            invariant
                n == index.shards@.len(),
                n > 0,
                i <= n,
                tracker.shaped_like(index),
                self.join_tuples_a@ == (if self.thread_no < i {
                    flush_ids(index, tracker, self.thread_no as int)
                } else {
                    Seq::<ChunkId>::empty()
                }),
                self.phase == old(self).phase,
                self.join_tuples_b == old(self).join_tuples_b,
                self.hashes == old(self).hashes,
                self.config == old(self).config,
                self.output_names == old(self).output_names,
                self.thread_no == old(self).thread_no,
            decreases n - i,
        {
            assert(i % n == i) by (nonlinear_arith)
                requires
                    0 <= i < n,
            ;
            if i % n == self.thread_no {
                let shard = &index.shards[i];
                let mut j: usize = 0;
                while j < shard.len()
                    invariant
                        i < index.shards@.len(),
                        shard == &index.shards@[i as int],
                        j <= shard@.len(),
                        tracker.shaped_like(index),
                        self.join_tuples_a@ == shard_unmatched(index, tracker, i as int, j as nat),
                        self.phase == old(self).phase,
                        self.join_tuples_b == old(self).join_tuples_b,
                        self.hashes == old(self).hashes,
                        self.config == old(self).config,
                        self.output_names == old(self).output_names,
                        self.thread_no == old(self).thread_no,
                    decreases shard@.len() - j,
                {
                    let found_match = tracker.is_matched(i, j);
                    if !found_match {
                        append_ids(&mut self.join_tuples_a, &shard[j].left_ids);
                    }
                    assert(self.join_tuples_a@ =~= shard_unmatched(
                        index,
                        tracker,
                        i as int,
                        (j + 1) as nat,
                    ));
                    j += 1;
                }
            }
            i += 1;
        }
        self.phase = Phase::Flushed;
    }

    /// How the gathered frames are to be put together: whether they change
    /// places, the suffix, the cached names if there are any, and the key
    /// pairs to merge if the join coalesces.
    pub fn finish_join(&self) -> (plan: AssemblyPlan)
        ensures
            plan.swap == self.config.swapped,
            plan.suffix == self.config.suffix,
            names_view(plan.names) == names_view(self.output_names),
            key_pairs_view(plan.coalesce) == (if self.config.coalesce {
                Some((self.config.key_names_left@, self.config.key_names_right@))
            } else {
                None
            }),
    {
        let names = match &self.output_names {
            Some(names) => Some(clone_names(names)),
            None => None,
        };
        let coalesce = if self.config.coalesce {
            Some((clone_names(&self.config.key_names_left), clone_names(&self.config.key_names_right)))
        } else {
            None
        };
        AssemblyPlan { swap: self.config.swapped, suffix: self.config.suffix.clone(), names, coalesce }
    }

    /// Records the names of the first assembled output. Once names are
    /// recorded they stay.
    pub fn cache_output_names(&mut self, names: Vec<String>)
        ensures
            final(self).output_names == (if old(self).output_names is Some {
                old(self).output_names
            } else {
                Some(names)
            }),
            final(self).config == old(self).config,
            final(self).join_tuples_a == old(self).join_tuples_a,
            final(self).join_tuples_b == old(self).join_tuples_b,
            final(self).hashes == old(self).hashes,
            final(self).thread_no == old(self).thread_no,
            final(self).phase == old(self).phase,
    {
        if self.output_names.is_none() {
            self.output_names = Some(names);
        }
    }

    /// Whether the worker has something to emit at the end of the stream:
    /// true once it has processed a batch.
    pub fn must_flush(&self) -> (must: bool)
        ensures
            must == (self.phase != Phase::Fresh),
    {
        match self.phase {
            Phase::Fresh => false,
            _ => true,
        }
    }

    /// A worker for `thread_no` with the same settings, before its first
    /// batch and with empty buffers.
    pub fn split(&self, thread_no: usize) -> (worker: GenericFullOuterJoinProbe)
        ensures
            worker.config.same_as(&self.config),
            worker.thread_no == thread_no,
            worker.phase == Phase::Fresh,
            worker.join_tuples_a@ == Seq::<ChunkId>::empty(),
            worker.right_view() == Seq::<u32>::empty(),
            worker.hashes@ == Seq::<u64>::empty(),
            names_view(worker.output_names) == names_view(self.output_names),
            worker.wf(),
    {
        let output_names = match &self.output_names {
            Some(names) => Some(clone_names(names)),
            None => None,
        };
        GenericFullOuterJoinProbe {
            config: self.config.duplicate(),
            join_tuples_a: Vec::new(),
            join_tuples_b: idx_new(),
            hashes: Vec::new(),
            output_names,
            thread_no,
            phase: Phase::Fresh,
        }
    }

    /// The chunk number that an output carries: the batch's own while the
    /// worker streams, 0 for what a flush emits.
    pub fn output_chunk_index(&self, batch_chunk_index: u32) -> (chunk_index: u32)
        ensures
            chunk_index == (if self.phase == Phase::Flushed {
                0
            } else {
                batch_chunk_index
            }),
    {
        match self.phase {
            Phase::Flushed => 0,
            _ => batch_chunk_index,
        }
    }

    /// The operator's name.
    pub fn fmt(&self) -> (name: &'static str)
        ensures
            name@ == "generic_full_join_probe"@,
    {
        "generic_full_join_probe"
    }

    /// The left side of the output rows.
    pub fn left_indices(&self) -> (ids: &Vec<ChunkId>)
        ensures
            ids@ == self.join_tuples_a@,
    {
        &self.join_tuples_a
    }

    /// The right side of the output rows.
    pub fn right_indices(&self) -> (rows: Vec<u32>)
        ensures
            rows@ == self.right_view(),
    {
        idx_to_vec(&self.join_tuples_b)
    }
}

} // verus!
