use gguf_embed::bucket::bucket_by_token_budget;

#[test]
fn bucket_by_token_budget_empty_input() {
    assert_eq!(bucket_by_token_budget(&[], 2048, 8), Vec::<Vec<usize>>::new());
}

#[test]
fn bucket_by_token_budget_single_small_chunk() {
    assert_eq!(bucket_by_token_budget(&[100], 2048, 8), vec![vec![0]]);
}

#[test]
fn bucket_by_token_budget_packs_multiple_small_chunks_together() {
    let counts = vec![100, 200, 150];
    assert_eq!(bucket_by_token_budget(&counts, 2048, 8), vec![vec![0, 1, 2]]);
}

#[test]
fn bucket_by_token_budget_splits_on_token_budget() {
    let counts = vec![1200, 1200, 100];
    assert_eq!(bucket_by_token_budget(&counts, 2048, 8), vec![vec![0], vec![1, 2]]);
}

#[test]
fn bucket_by_token_budget_splits_on_max_seqs() {
    let counts = vec![10; 10];
    let buckets = bucket_by_token_budget(&counts, 2048, 8);
    assert_eq!(buckets, vec![vec![0, 1, 2, 3, 4, 5, 6, 7], vec![8, 9]]);
}

#[test]
fn bucket_by_token_budget_oversized_chunk_gets_solo_bucket() {
    let counts = vec![3000, 100];
    assert_eq!(bucket_by_token_budget(&counts, 2048, 8), vec![vec![0], vec![1]]);
}

#[test]
fn bucket_by_token_budget_preserves_order() {
    let counts = vec![500, 500, 500, 500, 500];
    let buckets = bucket_by_token_budget(&counts, 2048, 8);
    let flattened: Vec<usize> = buckets.into_iter().flatten().collect();
    assert_eq!(flattened, vec![0, 1, 2, 3, 4]);
}

#[test]
fn oversized_chunk_does_not_disturb_its_neighbours() {
    let counts = vec![100, 200, 3000, 300, 400];
    assert_eq!(bucket_by_token_budget(&counts, 2048, 8), vec![vec![0, 1], vec![2], vec![3, 4]]);
    assert_eq!(bucket_by_token_budget(&counts[..2], 2048, 8), vec![vec![0, 1]]);
    assert_eq!(bucket_by_token_budget(&counts[3..], 2048, 8), vec![vec![0, 1]]);
}

#[test]
fn a_bucket_may_fill_the_budget_exactly() {
    assert_eq!(bucket_by_token_budget(&[1000, 1048, 1], 2048, 8), vec![vec![0, 1], vec![2]]);
    assert_eq!(bucket_by_token_budget(&[1000, 1049], 2048, 8), vec![vec![0], vec![1]]);
}

#[test]
fn oversized_chunk_takes_no_zero_count_with_it() {
    assert_eq!(bucket_by_token_budget(&[0, 3000, 0], 2048, 8), vec![vec![0], vec![1], vec![2]]);
    assert_eq!(bucket_by_token_budget(&[0, 0, 2048], 2048, 8), vec![vec![0, 1, 2]]);
}

#[test]
fn counts_near_the_machine_limit_are_packed_alone() {
    let counts = vec![1, usize::MAX, 1, usize::MAX];
    assert_eq!(
        bucket_by_token_budget(&counts, 2048, 8),
        vec![vec![0], vec![1], vec![2], vec![3]]
    );
    assert_eq!(bucket_by_token_budget(&[usize::MAX, 0], usize::MAX, 8), vec![vec![0, 1]]);
    assert_eq!(bucket_by_token_budget(&[usize::MAX, 1], usize::MAX, 8), vec![vec![0], vec![1]]);
}

#[test]
fn a_sequence_limit_of_zero_gives_an_empty_bucket_and_singles() {
    assert_eq!(
        bucket_by_token_budget(&[10, 20], 2048, 0),
        vec![vec![], vec![0], vec![1]]
    );
    assert_eq!(bucket_by_token_budget(&[], 2048, 0), Vec::<Vec<usize>>::new());
}

#[test]
fn no_bucket_is_closed_early() {
    let counts = vec![700, 700, 700, 100, 2000, 48, 1, 9];
    let buckets = bucket_by_token_budget(&counts, 2048, 3);
    assert_eq!(buckets, vec![vec![0, 1], vec![2, 3], vec![4, 5], vec![6, 7]]);
    for pair in buckets.windows(2) {
        let held: usize = pair[0].iter().map(|&i| counts[i]).sum();
        assert!(pair[0].len() >= 3 || held + counts[pair[1][0]] > 2048);
    }
}
