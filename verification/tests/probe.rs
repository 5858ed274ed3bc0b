use full_join_probe::chunk_id::ChunkId;
use full_join_probe::hash_index::{bytes_equal, Entry, HashIndex};
use full_join_probe::probe::{
    clone_names, hash_rows, GenericFullOuterJoinProbe, JoinConfig, KeyRow, Phase,
};
use full_join_probe::tracker::MatchTracker;
use polars_utils::aliases::{PlSeedableRandomStateQuality, SeedableFromU64SeedExt};
use std::hash::BuildHasher;

const NULL_KEY: [u8; 1] = [0xff];

fn key_bytes(k: i64) -> Vec<u8> {
    let mut bytes = vec![0u8];
    bytes.extend_from_slice(&k.to_le_bytes());
    bytes
}

fn plain_hash(bytes: &[u8]) -> u64 {
    let mut h: u64 = 1469598103934665603;
    for b in bytes {
        h = (h ^ (*b as u64)).wrapping_mul(1099511628211);
    }
    h
}

fn build_index(keys: &[Option<i64>], n_shards: usize, hash: &dyn Fn(&[u8]) -> u64) -> HashIndex {
    let mut shards: Vec<Vec<Entry>> = Vec::new();
    for _ in 0..n_shards {
        shards.push(Vec::new());
    }
    for (row, k) in keys.iter().enumerate() {
        let key = match k {
            Some(k) => key_bytes(*k),
            None => NULL_KEY.to_vec(),
        };
        let h = hash(&key);
        let shard = &mut shards[(h % n_shards as u64) as usize];
        let id = ChunkId::store(0, row as u32);
        match shard.iter_mut().find(|e| e.hash == h && e.key == key) {
            Some(e) => e.left_ids.push(id),
            None => shard.push(Entry { hash: h, key, left_ids: vec![id] }),
        }
    }
    HashIndex { shards }
}

fn batch(keys: &[Option<i64>]) -> Vec<KeyRow> {
    keys.iter()
        .map(|k| match k {
            Some(k) => KeyRow { bytes: key_bytes(*k), is_null: false },
            None => KeyRow { bytes: NULL_KEY.to_vec(), is_null: true },
        })
        .collect()
}

fn plain_hashes(rows: &[KeyRow]) -> Vec<u64> {
    rows.iter().map(|r| plain_hash(&r.bytes)).collect()
}

fn config(nulls_equal: bool, coalesce: bool, swapped: bool) -> JoinConfig {
    JoinConfig {
        suffix: String::from("_right"),
        nulls_equal,
        coalesce,
        swapped,
        key_names_left: vec![String::from("k")],
        key_names_right: vec![String::from("k")],
    }
}

fn flush_worker(
    probe: &GenericFullOuterJoinProbe,
    index: &HashIndex,
    tracker: &mut MatchTracker,
    t: usize,
) -> Vec<ChunkId> {
    let mut worker = probe.split(t);
    worker.probe(index, tracker, &vec![], vec![]);
    worker.execute_flush(index, tracker);
    worker.left_indices().clone()
}

fn flush_all(
    probe: &GenericFullOuterJoinProbe,
    index: &HashIndex,
    tracker: &mut MatchTracker,
) -> Vec<Vec<ChunkId>> {
    (0..index.n_shards()).map(|t| flush_worker(probe, index, tracker, t)).collect()
}

fn id(row: u32) -> ChunkId {
    ChunkId::store(0, row)
}

#[test]
fn basic_match_streams_matches_then_flushes_unmatched_left() {
    let index = build_index(&[Some(1), Some(2), Some(3)], 2, &plain_hash);
    let mut tracker = MatchTracker::new(&index);
    let rows = batch(&[Some(2), Some(3), Some(4)]);
    let mut probe = GenericFullOuterJoinProbe::new(config(false, false, false), vec![]);
    let hashes = plain_hashes(&rows);
    probe.probe(&index, &mut tracker, &rows, hashes);
    assert_eq!(probe.left_indices().clone(), vec![id(1), id(2), ChunkId::null()]);
    assert_eq!(probe.right_indices(), vec![0u32, 1, 2]);
    let flushed: Vec<ChunkId> = flush_all(&probe, &index, &mut tracker).concat();
    assert_eq!(flushed, vec![id(0)]);
}

#[test]
fn duplicate_left_keys_emit_one_row_each() {
    let index = build_index(&[Some(2), Some(2), Some(3)], 3, &plain_hash);
    let mut tracker = MatchTracker::new(&index);
    let rows = batch(&[Some(2)]);
    let mut probe = GenericFullOuterJoinProbe::new(config(false, false, false), vec![]);
    let hashes = plain_hashes(&rows);
    probe.probe(&index, &mut tracker, &rows, hashes);
    assert_eq!(probe.left_indices().clone(), vec![id(0), id(1)]);
    assert_eq!(probe.right_indices(), vec![0u32, 0]);
    let flushed: Vec<ChunkId> = flush_all(&probe, &index, &mut tracker).concat();
    assert_eq!(flushed, vec![id(2)]);
}

#[test]
fn null_keys_are_passed_over_when_nulls_differ() {
    let index = build_index(&[Some(1), None], 2, &plain_hash);
    let mut tracker = MatchTracker::new(&index);
    let rows = batch(&[None, Some(1)]);
    let mut probe = GenericFullOuterJoinProbe::new(config(false, false, false), vec![]);
    let hashes = plain_hashes(&rows);
    probe.probe(&index, &mut tracker, &rows, hashes);
    assert_eq!(probe.left_indices().clone(), vec![id(0)]);
    assert_eq!(probe.right_indices(), vec![1u32]);
    let flushed: Vec<ChunkId> = flush_all(&probe, &index, &mut tracker).concat();
    assert_eq!(flushed, vec![id(1)]);
}

#[test]
fn null_keys_match_when_nulls_are_equal() {
    let index = build_index(&[Some(1), None], 2, &plain_hash);
    let mut tracker = MatchTracker::new(&index);
    let rows = batch(&[None, Some(1)]);
    let mut probe = GenericFullOuterJoinProbe::new(config(true, false, false), vec![]);
    let hashes = plain_hashes(&rows);
    probe.probe(&index, &mut tracker, &rows, hashes);
    assert_eq!(probe.left_indices().clone(), vec![id(1), id(0)]);
    assert_eq!(probe.right_indices(), vec![0u32, 1]);
    let flushed: Vec<ChunkId> = flush_all(&probe, &index, &mut tracker).concat();
    assert!(flushed.is_empty());
}

#[test]
fn coalesce_plan_names_the_key_pairs() {
    let index = build_index(&[Some(1), Some(2)], 1, &plain_hash);
    let mut tracker = MatchTracker::new(&index);
    let rows = batch(&[Some(2), Some(3)]);
    let mut probe = GenericFullOuterJoinProbe::new(config(false, true, false), vec![]);
    let hashes = plain_hashes(&rows);
    probe.probe(&index, &mut tracker, &rows, hashes);
    assert_eq!(probe.left_indices().clone(), vec![id(1), ChunkId::null()]);
    assert_eq!(probe.right_indices(), vec![0u32, 1]);
    let plan = probe.finish_join();
    assert_eq!(plan.coalesce, Some((vec![String::from("k")], vec![String::from("k")])));
    assert!(!plan.swap);
    assert_eq!(plan.suffix, "_right");
    assert_eq!(plan.names, None);
    let flushed: Vec<ChunkId> = flush_all(&probe, &index, &mut tracker).concat();
    assert_eq!(flushed, vec![id(0)]);
}

#[test]
fn swapped_join_plans_a_swap() {
    let index = build_index(&[Some(1), Some(2), Some(3)], 2, &plain_hash);
    let mut tracker = MatchTracker::new(&index);
    let rows = batch(&[Some(2), Some(3), Some(4)]);
    let mut probe = GenericFullOuterJoinProbe::new(config(false, false, true), vec![]);
    let hashes = plain_hashes(&rows);
    probe.probe(&index, &mut tracker, &rows, hashes);
    assert_eq!(probe.left_indices().clone(), vec![id(1), id(2), ChunkId::null()]);
    let plan = probe.finish_join();
    assert!(plan.swap);
    assert_eq!(plan.coalesce, None);
}

#[test]
fn plan_reuses_cached_names_and_first_names_stay() {
    let mut probe = GenericFullOuterJoinProbe::new(config(false, false, false), vec![]);
    assert_eq!(probe.finish_join().names, None);
    probe.cache_output_names(vec![String::from("key"), String::from("v"), String::from("key_right")]);
    probe.cache_output_names(vec![String::from("other")]);
    let expected = vec![String::from("key"), String::from("v"), String::from("key_right")];
    assert_eq!(probe.finish_join().names, Some(expected.clone()));
    assert_eq!(probe.output_names, Some(expected));
}

#[test]
fn phases_follow_execute_and_flush() {
    let index = build_index(&[Some(1)], 1, &plain_hash);
    let mut tracker = MatchTracker::new(&index);
    let mut probe = GenericFullOuterJoinProbe::new(config(false, false, false), vec![7, 8]);
    assert_eq!(probe.phase, Phase::Fresh);
    assert!(!probe.must_flush());
    assert_eq!(probe.thread_no, 0);
    let rows = batch(&[Some(1)]);
    let hashes = plain_hashes(&rows);
    probe.probe(&index, &mut tracker, &rows, hashes.clone());
    assert_eq!(probe.phase, Phase::Streaming);
    assert!(probe.must_flush());
    assert_eq!(probe.hashes, hashes);
    assert_eq!(probe.output_chunk_index(17), 17);
    probe.probe(&index, &mut tracker, &rows, hashes);
    assert_eq!(probe.phase, Phase::Streaming);
    assert_eq!(probe.left_indices().len(), 1);
    assert_eq!(probe.right_indices(), vec![0u32]);
    probe.execute_flush(&index, &tracker);
    assert_eq!(probe.phase, Phase::Flushed);
    assert!(probe.must_flush());
    assert_eq!(probe.output_chunk_index(17), 0);
    assert!(probe.left_indices().is_empty());
}

#[test]
fn split_gives_a_fresh_worker_with_the_same_settings() {
    let index = build_index(&[Some(1)], 1, &plain_hash);
    let mut tracker = MatchTracker::new(&index);
    let mut probe = GenericFullOuterJoinProbe::new(config(true, true, true), vec![]);
    let rows = batch(&[Some(1)]);
    let hashes = plain_hashes(&rows);
    probe.probe(&index, &mut tracker, &rows, hashes);
    let worker = probe.split(3);
    assert_eq!(worker.thread_no, 3);
    assert_eq!(worker.phase, Phase::Fresh);
    assert!(!worker.must_flush());
    assert!(worker.left_indices().is_empty());
    assert!(worker.right_indices().is_empty());
    assert_eq!(worker.config.suffix, "_right");
    assert!(worker.config.nulls_equal && worker.config.coalesce && worker.config.swapped);
    assert_eq!(worker.config.key_names_left, vec![String::from("k")]);
    assert_eq!(worker.config.key_names_right, vec![String::from("k")]);
}

#[test]
fn operator_name() {
    let probe = GenericFullOuterJoinProbe::new(config(false, false, false), vec![]);
    assert_eq!(probe.fmt(), "generic_full_join_probe");
}

#[test]
fn execute_outer_hashes_with_the_seeded_hasher() {
    let hb = PlSeedableRandomStateQuality::seed_from_u64(42);
    let seeded = |bytes: &[u8]| hb.hash_one(bytes);
    let index = build_index(&[Some(10), Some(20), Some(20), Some(30)], 4, &seeded);
    let mut tracker = MatchTracker::new(&index);
    let rows = batch(&[Some(20), Some(5), Some(30)]);
    let mut probe = GenericFullOuterJoinProbe::new(config(false, false, false), vec![1, 2, 3, 4, 5]);
    probe.execute_outer(&hb, &index, &mut tracker, &rows);
    let expected: Vec<u64> = rows.iter().map(|r| hb.hash_one(r.bytes.as_slice())).collect();
    assert_eq!(probe.hashes, expected);
    assert_eq!(probe.left_indices().clone(), vec![id(1), id(2), ChunkId::null(), id(3)]);
    assert_eq!(probe.right_indices(), vec![0u32, 0, 1, 2]);
    let flushed: Vec<ChunkId> = flush_all(&probe, &index, &mut tracker).concat();
    assert_eq!(flushed, vec![id(0)]);
}

#[test]
fn hash_rows_fills_one_hash_for_each_row() {
    let hb = PlSeedableRandomStateQuality::seed_from_u64(7);
    let rows = batch(&[Some(1), None, Some(1)]);
    let mut buf = vec![99u64; 10];
    hash_rows(&hb, &rows, &mut buf);
    assert_eq!(
        buf,
        vec![
            hb.hash_one(key_bytes(1).as_slice()),
            hb.hash_one(&NULL_KEY[..]),
            hb.hash_one(key_bytes(1).as_slice()),
        ]
    );
}

#[test]
fn every_probed_right_row_stands_at_least_once() {
    let index = build_index(&[Some(1), Some(1), Some(1), Some(2)], 2, &plain_hash);
    let mut tracker = MatchTracker::new(&index);
    let rows = batch(&[Some(9), Some(1), Some(2), Some(1)]);
    let mut probe = GenericFullOuterJoinProbe::new(config(false, false, false), vec![]);
    let hashes = plain_hashes(&rows);
    probe.probe(&index, &mut tracker, &rows, hashes);
    let right = probe.right_indices();
    let count = |i: u32| right.iter().filter(|r| **r == i).count();
    assert_eq!(count(0), 1);
    assert_eq!(count(1), 3);
    assert_eq!(count(2), 1);
    assert_eq!(count(3), 3);
    assert_eq!(right, vec![0u32, 1, 1, 1, 2, 3, 3, 3]);
    assert_eq!(right.len(), probe.left_indices().len());
}

#[test]
fn emitted_pairs_have_equal_keys() {
    let left = [Some(5), Some(6), Some(5), Some(7)];
    let index = build_index(&left, 3, &plain_hash);
    let mut tracker = MatchTracker::new(&index);
    let right = [Some(7), Some(5), Some(8)];
    let rows = batch(&right);
    let mut probe = GenericFullOuterJoinProbe::new(config(false, false, false), vec![]);
    let hashes = plain_hashes(&rows);
    probe.probe(&index, &mut tracker, &rows, hashes);
    let a = probe.left_indices().clone();
    let b = probe.right_indices();
    for (l, r) in a.iter().zip(b.iter()) {
        if l.is_null() {
            assert!(!left.contains(&right[*r as usize]));
        } else {
            let (chunk, row) = l.extract();
            assert_eq!(chunk, 0);
            assert_eq!(left[row as usize], right[*r as usize]);
        }
    }
    assert_eq!(a, vec![id(3), id(0), id(2), ChunkId::null()]);
}

#[test]
fn workers_flush_disjoint_parts_that_cover_the_unmatched() {
    let index = build_index(&[Some(1), Some(2), Some(3), Some(4), Some(5), Some(6)], 3, &plain_hash);
    let mut tracker = MatchTracker::new(&index);
    let rows = batch(&[Some(2), Some(5)]);
    let mut probe = GenericFullOuterJoinProbe::new(config(false, false, false), vec![]);
    let hashes = plain_hashes(&rows);
    probe.probe(&index, &mut tracker, &rows, hashes);
    let parts = flush_all(&probe, &index, &mut tracker);
    assert_eq!(parts.len(), 3);
    let mut all: Vec<u64> = parts.concat().iter().map(|c| c.into_inner()).collect();
    all.sort();
    let mut expected: Vec<u64> = [0u32, 2, 3, 5].iter().map(|r| id(*r).into_inner()).collect();
    expected.sort();
    assert_eq!(all, expected);
    for (t, part) in parts.iter().enumerate() {
        for c in part {
            let (_, row) = c.extract();
            let h = plain_hash(&key_bytes(row as i64 + 1));
            assert_eq!((h % 3) as usize, t);
        }
    }
}

#[test]
fn worker_without_a_shard_flushes_nothing() {
    let index = build_index(&[Some(1), Some(2)], 2, &plain_hash);
    let mut tracker = MatchTracker::new(&index);
    let probe = GenericFullOuterJoinProbe::new(config(false, false, false), vec![]);
    assert!(flush_worker(&probe, &index, &mut tracker, 5).is_empty());
    assert_eq!(flush_worker(&probe, &index, &mut tracker, 0).len()
        + flush_worker(&probe, &index, &mut tracker, 1).len(), 2);
}

#[test]
fn match_outer_appends_to_what_is_there() {
    let index = build_index(&[Some(1)], 1, &plain_hash);
    let mut tracker = MatchTracker::new(&index);
    let rows = batch(&[Some(1), Some(2)]);
    let hashes = plain_hashes(&rows);
    let mut probe = GenericFullOuterJoinProbe::new(config(false, false, false), vec![]);
    probe.match_outer(&index, &mut tracker, &hashes, &rows);
    probe.match_outer(&index, &mut tracker, &hashes, &rows);
    assert_eq!(probe.left_indices().clone(), vec![id(0), ChunkId::null(), id(0), ChunkId::null()]);
    assert_eq!(probe.right_indices(), vec![0u32, 1, 0, 1]);
    assert!(tracker.is_matched(0, 0));
}

#[test]
fn chunk_id_packs_and_unpacks() {
    let c = ChunkId::store(213908, 813457);
    assert_eq!(c.extract(), (213908, 813457));
    assert_eq!(c.into_inner(), (813457u64 << 24) | 213908);
    assert!(!c.is_null());
    assert!(ChunkId::null().is_null());
    assert_eq!(ChunkId::null().into_inner(), u64::MAX);
    assert_eq!(ChunkId::from_inner(u64::MAX), ChunkId::null());
    assert_eq!(ChunkId::from_inner(5).extract(), (5, 0));
}

#[test]
fn find_entry_compares_hash_and_bytes() {
    let index = HashIndex {
        shards: vec![
            vec![
                Entry { hash: 4, key: vec![1, 2], left_ids: vec![id(0)] },
                Entry { hash: 4, key: vec![1, 3], left_ids: vec![id(1)] },
            ],
            vec![Entry { hash: 5, key: vec![1, 2], left_ids: vec![id(2)] }],
        ],
    };
    assert_eq!(index.n_shards(), 2);
    assert_eq!(index.find_entry(4, &vec![1, 3]), Some((0, 1)));
    assert_eq!(index.find_entry(5, &vec![1, 2]), Some((1, 0)));
    assert_eq!(index.find_entry(6, &vec![1, 2]), None);
    assert_eq!(index.find_entry(4, &vec![1]), None);
    assert!(bytes_equal(&vec![1, 2], &vec![1, 2]));
    assert!(!bytes_equal(&vec![1, 2], &vec![1, 2, 3]));
    assert!(!bytes_equal(&vec![1, 2], &vec![1, 4]));
}

#[test]
fn tracker_starts_clear_and_marks_one_flag() {
    let index = build_index(&[Some(1), Some(2), Some(3)], 1, &plain_hash);
    let mut tracker = MatchTracker::new(&index);
    assert_eq!(tracker.flags, vec![vec![false, false, false]]);
    tracker.mark(0, 1);
    assert_eq!(tracker.flags, vec![vec![false, true, false]]);
    assert!(tracker.is_matched(0, 1));
    assert!(!tracker.is_matched(0, 2));
}

#[test]
fn clone_names_copies_in_order() {
    let names = vec![String::from("a"), String::from("b")];
    assert_eq!(clone_names(&names), names);
}

#[test]
fn well_formed_index_is_recognised() {
    let index = build_index(&[Some(1), Some(2), Some(2), None], 3, &plain_hash);
    assert!(index.is_well_formed());
    assert!(!HashIndex { shards: vec![] }.is_well_formed());
    assert!(HashIndex { shards: vec![vec![], vec![]] }.is_well_formed());
}

#[test]
fn entry_in_the_wrong_shard_is_refused() {
    let index = HashIndex {
        shards: vec![vec![Entry { hash: 3, key: vec![1], left_ids: vec![id(0)] }], vec![]],
    };
    assert!(!index.is_well_formed());
    let index = HashIndex {
        shards: vec![vec![], vec![Entry { hash: 3, key: vec![1], left_ids: vec![id(0)] }]],
    };
    assert!(index.is_well_formed());
}

#[test]
fn entry_without_left_rows_or_with_null_is_refused() {
    let index = HashIndex { shards: vec![vec![Entry { hash: 3, key: vec![1], left_ids: vec![] }]] };
    assert!(!index.is_well_formed());
    let index = HashIndex {
        shards: vec![vec![Entry { hash: 3, key: vec![1], left_ids: vec![id(0), ChunkId::null()] }]],
    };
    assert!(!index.is_well_formed());
}

#[test]
fn repeated_key_in_a_shard_is_refused() {
    let index = HashIndex {
        shards: vec![vec![
            Entry { hash: 3, key: vec![1], left_ids: vec![id(0)] },
            Entry { hash: 5, key: vec![1], left_ids: vec![id(1)] },
            Entry { hash: 3, key: vec![1], left_ids: vec![id(2)] },
        ]],
    };
    assert!(!index.is_well_formed());
    let index = HashIndex {
        shards: vec![vec![
            Entry { hash: 3, key: vec![1], left_ids: vec![id(0)] },
            Entry { hash: 3, key: vec![2], left_ids: vec![id(1)] },
        ]],
    };
    assert!(index.is_well_formed());
}

#[test]
fn tracker_fits_only_an_index_of_its_shape() {
    let index = build_index(&[Some(1), Some(2), Some(3)], 2, &plain_hash);
    let tracker = MatchTracker::new(&index);
    assert!(tracker.fits(&index));
    let other = build_index(&[Some(1)], 2, &plain_hash);
    assert!(!tracker.fits(&other));
    let wider = build_index(&[Some(1), Some(2), Some(3)], 3, &plain_hash);
    assert!(!tracker.fits(&wider));
}

#[test]
fn left_row_stands_once_for_each_match_over_batches() {
    let index = build_index(&[Some(1), Some(2), Some(3)], 2, &plain_hash);
    let mut tracker = MatchTracker::new(&index);
    let mut probe = GenericFullOuterJoinProbe::new(config(false, false, false), vec![]);
    let mut streamed: Vec<ChunkId> = Vec::new();
    for keys in [vec![Some(2), Some(2)], vec![Some(4), Some(2), Some(3)]] {
        let rows = batch(&keys);
        let hashes = plain_hashes(&rows);
        probe.probe(&index, &mut tracker, &rows, hashes);
        streamed.extend_from_slice(probe.left_indices());
    }
    let flushed: Vec<ChunkId> = flush_all(&probe, &index, &mut tracker).concat();
    let count = |ids: &Vec<ChunkId>, c: ChunkId| ids.iter().filter(|x| **x == c).count();
    assert_eq!(count(&streamed, id(0)) + count(&flushed, id(0)), 1);
    assert_eq!(count(&streamed, id(1)) + count(&flushed, id(1)), 3);
    assert_eq!(count(&streamed, id(2)) + count(&flushed, id(2)), 1);
    assert_eq!(flushed, vec![id(0)]);
}
