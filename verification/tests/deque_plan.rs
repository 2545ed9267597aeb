use melinoe::collections::{DequeSegment, DequeShard, DequeShardPlan};

fn shard(start: usize, segment: DequeSegment, offset: usize, len: usize) -> DequeShard {
    DequeShard { start, segment, offset, len }
}

#[test]
fn chunk_crossing_the_wrap_splits_in_two() {
    let plan = DequeShardPlan::from_lengths(3, 2, 2);
    assert_eq!(
        plan.shards(),
        &[
            shard(0, DequeSegment::Front, 0, 2),
            shard(2, DequeSegment::Front, 2, 1),
            shard(3, DequeSegment::Back, 0, 1),
            shard(4, DequeSegment::Back, 1, 1),
        ]
    );
}

#[test]
fn contiguous_queue_has_only_front_shards() {
    let plan = DequeShardPlan::from_lengths(5, 0, 2);
    assert_eq!(
        plan.shards(),
        &[
            shard(0, DequeSegment::Front, 0, 2),
            shard(2, DequeSegment::Front, 2, 2),
            shard(4, DequeSegment::Front, 4, 1),
        ]
    );
}

#[test]
fn empty_queue_has_no_shards_and_zero_chunk_is_clamped() {
    assert!(DequeShardPlan::from_lengths(0, 0, 4).is_empty());
    let plan = DequeShardPlan::from_lengths(0, 2, 0);
    assert_eq!(
        plan.shards(),
        &[shard(0, DequeSegment::Back, 0, 1), shard(1, DequeSegment::Back, 1, 1)]
    );
}

#[test]
fn map_read_returns_results_in_partition_order() {
    let front = [10_u32, 20, 30];
    let back = [40_u32, 50];
    let plan = DequeShardPlan::from_lengths(front.len(), back.len(), 2);
    let sums = plan.map_read(&front, &back, |start, values| (start, values.iter().sum::<u32>()));
    assert_eq!(sums, vec![(0, 30), (2, 30), (3, 40), (4, 50)]);
    let cell = std::cell::Cell::new(0_u32);
    plan.for_each_read(&front, &back, |_, values| cell.set(cell.get() + values.len() as u32));
    assert_eq!(cell.get(), 5);
}

#[test]
fn read_slice_picks_the_right_segment() {
    let front = [1, 2, 3];
    let back = [4, 5];
    assert_eq!(shard(1, DequeSegment::Front, 1, 2).read_slice(&front, &back), &[2, 3]);
    assert_eq!(shard(4, DequeSegment::Back, 1, 1).read_slice(&front, &back), &[5]);
}

#[test]
fn map_mut_hands_out_disjoint_writer_shards_in_order() {
    let mut front = [0_usize; 3];
    let mut back = [0_usize; 2];
    let plan = DequeShardPlan::from_lengths(3, 2, 2);
    let lens = plan.map_mut(&mut front, &mut back, |start, shard| {
        for (j, slot) in shard.iter_mut().enumerate() {
            *slot = start + j;
        }
        shard.len()
    });
    assert_eq!(lens, vec![2, 1, 1, 1]);
    assert_eq!(front, [0, 1, 2]);
    assert_eq!(back, [3, 4]);
    let mut f2 = [9_u8];
    let mut b2: [u8; 0] = [];
    DequeShardPlan::from_lengths(1, 0, 8).for_each_mut(&mut f2, &mut b2, |_, shard| {
        shard[0] += 1;
    });
    assert_eq!(f2, [10]);
}
