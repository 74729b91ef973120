use artemis::primitives::Address;
use artemis::scan::{
    block_windows, progress_percent, quote_batches, BlockRange, QUERY_WINDOW, QUOTE_BATCH,
};

fn range(from_block: u64, to_block: u64) -> BlockRange {
    BlockRange { from_block, to_block }
}

fn pool(n: u32) -> Address {
    let mut bytes = [0u8; 20];
    bytes[16..].copy_from_slice(&n.to_be_bytes());
    Address { bytes }
}

#[test]
fn limits_are_2000_blocks_and_200_pools() {
    assert_eq!(QUERY_WINDOW, 2000);
    assert_eq!(QUOTE_BATCH, 200);
}

#[test]
fn range_longer_than_the_window_is_cut_into_consecutive_windows() {
    let windows = block_windows(14_650_730, 14_655_729, QUERY_WINDOW);
    assert_eq!(
        windows,
        vec![
            range(14_650_730, 14_652_729),
            range(14_652_730, 14_654_729),
            range(14_654_730, 14_655_729),
        ]
    );
}

#[test]
fn windows_cover_every_block_once() {
    let from = 100u64;
    let to = 137u64;
    let windows = block_windows(from, to, 10);
    for block in 90..150u64 {
        let holders = windows
            .iter()
            .filter(|w| w.from_block <= block && block <= w.to_block)
            .count();
        assert_eq!(holders, if from <= block && block <= to { 1 } else { 0 });
    }
    assert_eq!(windows.len(), 4);
    assert_eq!(windows[3], range(130, 137));
}

#[test]
fn range_of_exactly_two_windows() {
    assert_eq!(block_windows(0, 19, 10), vec![range(0, 9), range(10, 19)]);
}

#[test]
fn range_one_block_over_a_window() {
    assert_eq!(block_windows(0, 10, 10), vec![range(0, 9), range(10, 10)]);
}

#[test]
fn single_block_is_one_window() {
    assert_eq!(block_windows(17_000_000, 17_000_000, QUERY_WINDOW), vec![range(17_000_000, 17_000_000)]);
}

#[test]
fn range_shorter_than_the_window_is_one_window() {
    assert_eq!(block_windows(5, 9, 2000), vec![range(5, 9)]);
}

#[test]
fn empty_range_has_no_window() {
    assert_eq!(block_windows(10, 9, 2000), Vec::<BlockRange>::new());
}

#[test]
fn windows_at_the_top_of_the_block_space() {
    assert_eq!(
        block_windows(u64::MAX - 4, u64::MAX, 2),
        vec![
            range(u64::MAX - 4, u64::MAX - 3),
            range(u64::MAX - 2, u64::MAX - 1),
            range(u64::MAX, u64::MAX),
        ]
    );
    assert_eq!(block_windows(0, u64::MAX, u64::MAX), vec![range(0, u64::MAX - 1), range(u64::MAX, u64::MAX)]);
}

#[test]
fn window_of_one_block_each() {
    assert_eq!(block_windows(3, 5, 1), vec![range(3, 3), range(4, 4), range(5, 5)]);
}

#[test]
fn progress_is_the_share_of_the_distance_rounded_down() {
    assert_eq!(progress_percent(1000, 5000, 1000), 0);
    assert_eq!(progress_percent(1000, 5000, 3000), 50);
    assert_eq!(progress_percent(1000, 5000, 5000), 100);
    assert_eq!(progress_percent(0, 3, 1), 33);
    assert_eq!(progress_percent(0, 3, 2), 66);
    assert_eq!(progress_percent(14_650_730, 17_000_000, 14_652_730), 0);
    assert_eq!(progress_percent(14_650_730, 17_000_000, 16_000_000), 57);
}

#[test]
fn progress_of_a_single_block_scan_is_zero() {
    assert_eq!(progress_percent(7, 7, 7), 0);
}

#[test]
fn progress_does_not_overflow_on_a_huge_range() {
    assert_eq!(progress_percent(0, u64::MAX, u64::MAX), 100);
    assert_eq!(progress_percent(0, u64::MAX, u64::MAX / 2), 49);
}

#[test]
fn pools_are_cut_into_batches_of_200() {
    let pools: Vec<Address> = (0..450).map(pool).collect();
    let batches = quote_batches(&pools, QUOTE_BATCH);
    assert_eq!(batches.len(), 3);
    assert_eq!(batches[0], pools[0..200].to_vec());
    assert_eq!(batches[1], pools[200..400].to_vec());
    assert_eq!(batches[2], pools[400..450].to_vec());
}

#[test]
fn batches_of_an_exact_multiple_are_all_full() {
    let pools: Vec<Address> = (0..6).map(pool).collect();
    let batches = quote_batches(&pools, 3);
    assert_eq!(batches, vec![pools[0..3].to_vec(), pools[3..6].to_vec()]);
}

#[test]
fn no_pool_gives_no_batch() {
    assert_eq!(quote_batches(&Vec::new(), 200), Vec::<Vec<Address>>::new());
}

#[test]
fn fewer_pools_than_a_batch_give_one_batch() {
    let pools: Vec<Address> = (0..5).map(pool).collect();
    assert_eq!(quote_batches(&pools, 200), vec![pools.clone()]);
}

#[test]
fn batches_of_one() {
    let pools: Vec<Address> = (0..3).map(pool).collect();
    assert_eq!(quote_batches(&pools, 1), vec![vec![pool(0)], vec![pool(1)], vec![pool(2)]]);
}
