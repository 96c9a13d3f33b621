use iqdb_build::{resolve_shards, split_items};

fn lens<T>(chunks: &[Vec<T>]) -> Vec<usize> {
    chunks.iter().map(|c| c.len()).collect()
}

#[test]
fn resolve_uses_the_requested_count() {
    assert_eq!(resolve_shards(Some(4), 100, 16), 4);
}

#[test]
fn resolve_treats_zero_as_one() {
    assert_eq!(resolve_shards(Some(0), 100, 16), 1);
}

#[test]
fn resolve_auto_uses_machine_parallelism() {
    assert_eq!(resolve_shards(None, 100, 6), 6);
    assert_eq!(resolve_shards(None, 3, 6), 3);
}

#[test]
fn resolve_caps_at_item_count() {
    assert_eq!(resolve_shards(Some(8), 3, 2), 3);
}

#[test]
fn resolve_empty_input_is_one_shard() {
    assert_eq!(resolve_shards(Some(4), 0, 8), 1);
    assert_eq!(resolve_shards(None, 0, 8), 1);
}

#[test]
fn split_gives_remainder_to_first_chunks() {
    let chunks = split_items((0u32..10).collect::<Vec<_>>(), 3);
    assert_eq!(chunks, vec![vec![0, 1, 2, 3], vec![4, 5, 6], vec![7, 8, 9]]);
}

#[test]
fn split_even_division() {
    let chunks = split_items((0u32..12).collect::<Vec<_>>(), 4);
    assert_eq!(lens(&chunks), vec![3, 3, 3, 3]);
    assert_eq!(chunks[3], vec![9, 10, 11]);
}

#[test]
fn split_into_one_chunk_keeps_everything() {
    let items: Vec<u64> = (0..50).collect();
    let chunks = split_items(items.clone(), 1);
    assert_eq!(chunks, vec![items]);
}

#[test]
fn split_more_chunks_than_items_leaves_empty_tail() {
    let chunks = split_items(vec!['a', 'b', 'c'], 5);
    assert_eq!(chunks, vec![vec!['a'], vec!['b'], vec!['c'], vec![], vec![]]);
}

#[test]
fn split_empty_input_into_one_empty_chunk() {
    let chunks: Vec<Vec<u8>> = split_items(Vec::new(), 1);
    assert_eq!(chunks.len(), 1);
    assert!(chunks[0].is_empty());
}

#[test]
fn planned_shards_are_never_empty() {
    for n in 1usize..60 {
        for req in 0usize..20 {
            let k = resolve_shards(Some(req), n, 4);
            let chunks = split_items((0..n).collect::<Vec<_>>(), k);
            assert_eq!(chunks.len(), k);
            assert!(chunks.iter().all(|c| !c.is_empty()));
        }
    }
}

#[test]
fn planned_shards_partition_without_loss() {
    let n = 1_000usize;
    let k = resolve_shards(Some(8), n, 4);
    let chunks = split_items((0..n).collect::<Vec<_>>(), k);
    assert_eq!(chunks.len(), 8);
    assert_eq!(chunks.iter().map(Vec::len).sum::<usize>(), 1_000);
    let flat: Vec<usize> = chunks.into_iter().flatten().collect();
    assert_eq!(flat, (0..n).collect::<Vec<_>>());
}

#[test]
fn chunk_sizes_differ_by_at_most_one() {
    let chunks = split_items((0..1_003u32).collect::<Vec<_>>(), 7);
    let sizes = lens(&chunks);
    assert_eq!(sizes, vec![144, 144, 143, 143, 143, 143, 143]);
}
