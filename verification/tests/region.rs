use melinoe::region::{ParChunks, WriterShard};
use melinoe::{brand_scope, MelinoeCell};

#[test]
fn par_chunks_len_matches_shard_chunks_len() {
    let mut backing: [MelinoeCell<'_, u8>; 40] = core::array::from_fn(|_| MelinoeCell::new(0));
    for len in 0usize..=40 {
        for chunk in 1usize..12 {
            let cells = &mut backing[..len];
            let seq_count = WriterShard::new(cells).chunks(chunk).len();
            let par = ParChunks::new(&mut backing[..len], chunk);
            assert_eq!(
                par.len(),
                seq_count,
                "ParChunks::len disagreed with ShardChunks for len={len} chunk={chunk}"
            );
        }
    }
}

#[test]
fn split_at_writes_land_in_disjoint_halves() {
    brand_scope(|token| {
        let mut cells: [MelinoeCell<'_, u32>; 6] = core::array::from_fn(|_| MelinoeCell::new(0));
        let (mut lo, mut hi) = WriterShard::new(&mut cells).split_at(3);
        assert_eq!(lo.len(), 3);
        assert_eq!(hi.len(), 3);
        for (j, slot) in lo.iter_mut().into_iter().enumerate() {
            *slot = j as u32;
        }
        for (j, slot) in hi.iter_mut().into_iter().enumerate() {
            *slot = 100 + j as u32;
        }
        drop((lo, hi));
        let snap = token.share();
        let seen: [u32; 6] = core::array::from_fn(|k| *cells[k].borrow(snap));
        assert_eq!(seen, [0, 1, 2, 100, 101, 102]);
    });
}

#[test]
fn shard_get_and_get_mut_bounds() {
    let mut cells: [MelinoeCell<'_, i32>; 3] = core::array::from_fn(|k| MelinoeCell::new(k as i32));
    let mut shard = WriterShard::new(&mut cells);
    assert_eq!(shard.get(1), Some(&1));
    assert_eq!(shard.get(3), None);
    *shard.get_mut(2).unwrap() = 20;
    assert!(shard.get_mut(3).is_none());
    let reads: Vec<i32> = shard.iter().into_iter().copied().collect();
    assert_eq!(reads, vec![0, 1, 20]);
    assert!(!shard.is_empty());
    assert_eq!(shard.as_cells().len(), 3);
    let back = shard.into_cells();
    assert_eq!(back.len(), 3);
}

#[test]
fn chunks_cut_front_to_back_with_exact_counts() {
    let mut cells: [MelinoeCell<'_, u8>; 7] = core::array::from_fn(|_| MelinoeCell::new(0));
    let mut chunks = WriterShard::new(&mut cells).chunks(3);
    assert_eq!(chunks.len(), 3);
    assert_eq!(chunks.size_hint(), (3, Some(3)));
    let mut lens = Vec::new();
    while let Some(shard) = chunks.next() {
        lens.push(shard.len());
        assert_eq!(chunks.len(), 3 - lens.len());
    }
    assert_eq!(lens, vec![3, 3, 1]);
    assert!(chunks.next().is_none());
    assert_eq!(chunks.len(), 0);
}

#[test]
fn chunk_size_zero_is_clamped_to_one() {
    let mut cells: [MelinoeCell<'_, u8>; 4] = core::array::from_fn(|_| MelinoeCell::new(0));
    let chunks = WriterShard::new(&mut cells).chunks(0);
    assert_eq!(chunks.len(), 4);
    let mut cells2: [MelinoeCell<'_, u8>; 4] = core::array::from_fn(|_| MelinoeCell::new(0));
    let par = WriterShard::new(&mut cells2).par_chunks(0);
    assert_eq!(par.len(), 4);
}

#[test]
fn empty_region_has_no_parts() {
    let mut cells: [MelinoeCell<'_, u8>; 0] = [];
    let par = ParChunks::new(&mut cells, 5);
    assert!(par.is_empty());
    assert_eq!(par.len(), 0);
    let mut cells2: [MelinoeCell<'_, u8>; 0] = [];
    let mut chunks = WriterShard::new(&mut cells2).chunks(5);
    assert_eq!(chunks.len(), 0);
    assert!(chunks.next().is_none());
}

#[test]
fn par_chunk_ranges_tile_the_region() {
    let mut cells: [MelinoeCell<'_, u8>; 10] = core::array::from_fn(|_| MelinoeCell::new(0));
    let par = ParChunks::new(&mut cells, 4);
    assert_eq!(par.len(), 3);
    assert_eq!(par.range(0), (0, 4));
    assert_eq!(par.range(1), (4, 8));
    assert_eq!(par.range(2), (8, 10));
    assert_eq!(par.range(3), (10, 10));
    assert_eq!(par.range(7), (10, 10));
}

#[test]
fn writer_shard_is_exactly_its_slice_reference() {
    assert_eq!(
        core::mem::size_of::<WriterShard<'static, 'static, u64>>(),
        core::mem::size_of::<&mut [MelinoeCell<'static, u64>]>()
    );
}
