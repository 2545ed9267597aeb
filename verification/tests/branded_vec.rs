use std::borrow::Cow;
use std::cell::Cell;

use melinoe::collections::{with_generated, BrandedVec};
use melinoe::{brand_scope, Borrowed, RetainDecision, Retained};

#[derive(Debug, Eq, PartialEq)]
struct CountedClone<'a> {
    value: u32,
    clones: &'a Cell<usize>,
}

impl Clone for CountedClone<'_> {
    fn clone(&self) -> Self {
        self.clones.set(self.clones.get() + 1);
        Self { value: self.value, clones: self.clones }
    }
}

#[test]
fn slice_access_is_value_semantic_and_zero_copy() {
    brand_scope(|mut token| {
        let mut values = BrandedVec::with_capacity(4);
        for v in [10_u32, 20, 30, 40] {
            values.push(v);
        }

        values.as_mut_slice(&mut token)[2] = 300;
        let mut_ptr = values.as_mut_slice(&mut token).as_ptr();

        let snapshot = token.share();
        let slice = values.as_slice(snapshot);

        assert_eq!(slice, &[10, 20, 300, 40]);
        assert_eq!(slice.as_ptr(), mut_ptr);
        assert_eq!(values.len(), 4);
        assert_eq!(values.capacity(), 4);
    });
}

#[test]
fn branded_vec_element_access_uses_melinoe_permits() {
    brand_scope(|mut token| {
        let mut values = BrandedVec::from(vec![1_i32, 2, 3]);

        {
            let mut middle = match values.get_mut(1, &mut token) {
                Some(value) => value,
                None => panic!("index 1 must exist in a three-element vector"),
            };
            *middle = 22;
        }

        let first = match values.get(0, &token) {
            Some(value) => *value,
            None => panic!("index 0 must exist in a three-element vector"),
        };

        assert_eq!(first, 1);
        assert_eq!(values.as_slice(&token), &[1, 22, 3]);
    });
}

#[test]
fn cow_policies_preserve_borrow_or_clone_contract() {
    brand_scope(|token| {
        let clones = Cell::new(0);
        let values = BrandedVec::from(vec![
            CountedClone { value: 1, clones: &clones },
            CountedClone { value: 2, clones: &clones },
        ]);

        let borrowed = values.cow_with(&token, Borrowed);
        let borrowed_ptr = match &borrowed {
            Cow::Borrowed(slice) => slice.as_ptr(),
            Cow::Owned(_) => panic!("Borrowed policy must not allocate"),
        };
        assert_eq!(borrowed_ptr, values.as_slice(&token).as_ptr());
        assert_eq!(clones.get(), 0);

        let retained = values.cow_with(&token, Retained);
        match &retained {
            Cow::Borrowed(_) => panic!("Retained policy must allocate owned storage"),
            Cow::Owned(owned) => {
                assert_eq!(owned.iter().map(|item| item.value).collect::<Vec<_>>(), [1, 2]);
                assert_ne!(owned.as_ptr(), values.as_slice(&token).as_ptr());
            }
        }
        assert_eq!(clones.get(), 2);
    });
}

#[test]
fn into_vec_returns_owned_values() {
    brand_scope(|_token| {
        let values = BrandedVec::from(vec![5_u8, 8, 13]);
        assert_eq!(values.into_vec(), [5, 8, 13]);
    });
}

#[test]
fn structural_vec_operations_preserve_owned_values() {
    brand_scope(|token| {
        let mut values = BrandedVec::from(vec![1_i32, 2, 3]);

        values.insert(1, 10);
        values.swap(0, 2);
        assert_eq!(values.as_slice(&token), &[2, 10, 1, 3]);

        let removed = values.remove(1);
        assert_eq!(removed, 10);
        assert_eq!(values.as_slice(&token), &[2, 1, 3]);

        let swapped = values.swap_remove(0);
        assert_eq!(swapped, 2);
        assert_eq!(values.as_slice(&token), &[3, 1]);

        values.resize_with(5, || 9);
        values.retain_mut(|value| {
            *value += 1;
            *value != 10
        });
        assert_eq!(values.as_slice(&token), &[4, 2]);

        assert_eq!(values.pop(), Some(2));
        values.truncate(0);
        assert_eq!(values.pop(), None);
        assert_eq!(values.as_slice(&token), &[]);
    });
}

#[test]
fn partition_for_each_mut_writes_disjoint_shards() {
    brand_scope(|token| {
        let mut values = BrandedVec::from(vec![0_usize; 8]);

        values.partition_for_each_mut_with(2, |start, shard| {
            for (offset, value) in shard.iter_mut().enumerate() {
                *value = start + offset;
            }
        });

        assert_eq!(values.as_slice(&token), &[0, 1, 2, 3, 4, 5, 6, 7]);
    });
}

#[test]
fn partition_map_mut_returns_partition_order_results() {
    brand_scope(|token| {
        let mut values = BrandedVec::from(vec![1_usize, 1, 1, 1, 1, 1]);

        let lengths = values.partition_map_mut_with(2, |start, shard| {
            for value in shard.iter_mut() {
                *value += start;
            }
            shard.len()
        });

        assert_eq!(lengths, [2, 2, 2]);
        assert_eq!(values.as_slice(&token), &[1, 1, 3, 3, 5, 5]);
    });
}

#[test]
fn partition_map_reads_shared_shards_in_order() {
    brand_scope(|token| {
        let values = BrandedVec::from((0_usize..10).collect::<Vec<_>>());

        let sums = values.partition_map_with(&token, 4, |start, shard| {
            assert_eq!(start % 4, 0);
            shard.iter().sum::<usize>()
        });

        assert_eq!(sums, [6, 22, 17]);
        assert_eq!(values.as_slice(&token), &[0, 1, 2, 3, 4, 5, 6, 7, 8, 9]);
    });
}

#[test]
fn partition_for_each_reads_all_shared_shards() {
    let visited = Cell::new(0_usize);

    brand_scope(|token| {
        let values = BrandedVec::from(vec![1_usize, 2, 3, 4, 5, 6]);

        values.partition_for_each_with(&token, 2, |_start, shard| {
            visited.set(visited.get() + shard.iter().sum::<usize>());
        });

        assert_eq!(visited.get(), 21);
        assert_eq!(values.as_slice(&token), &[1, 2, 3, 4, 5, 6]);
    });
}

#[test]
fn new_vec_apis_drain_split_off_append() {
    brand_scope(|token| {
        let mut values = BrandedVec::from(vec![1_i32, 2, 3, 4, 5]);

        {
            let mut drain = values.drain(1..4);
            let mut drained: Vec<i32> = Vec::new();
            while let Some(v) = drain.next() {
                drained.push(v);
            }
            assert_eq!(drained, [2, 3, 4]);
            assert_eq!(values.as_slice(&token), &[1, 5]);
        }

        let mut other = values.split_off(1);
        assert_eq!(values.as_slice(&token), &[1]);
        assert_eq!(other.as_slice(&token), &[5]);

        values.append(&mut other);
        assert_eq!(values.as_slice(&token), &[1, 5]);
        assert_eq!(other.as_slice(&token), &[]);
    });
}

#[test]
fn drain_hands_values_out_from_both_ends() {
    brand_scope(|token| {
        let mut values = BrandedVec::from(vec![10_u8, 20, 30, 40, 50]);
        let mut drain = values.drain(1..5);
        assert_eq!(drain.len(), 4);
        assert_eq!(drain.size_hint(), (4, Some(4)));
        assert_eq!(drain.next_back(), Some(50));
        assert_eq!(drain.next(), Some(20));
        assert_eq!(drain.len(), 2);
        drop(drain);
        assert_eq!(values.as_slice(&token), &[10]);
        let mut empty = values.drain(1..1);
        assert_eq!(empty.next(), None);
        assert_eq!(empty.next_back(), None);
    });
}

#[test]
fn test_zero_copy_conversions_preserve_buffer_pointer() {
    brand_scope(|token| {
        let mut original = Vec::with_capacity(10);
        original.extend([42_i32, 43, 44]);
        let original_ptr = original.as_ptr();

        let branded = BrandedVec::from(original);
        assert_eq!(branded.len(), 3);
        assert_eq!(branded.capacity(), 10);
        assert_eq!(branded.as_slice(&token), &[42, 43, 44]);

        let converted = branded.into_vec();
        assert_eq!(converted.len(), 3);
        assert_eq!(converted.capacity(), 10);
        assert_eq!(converted.as_ptr(), original_ptr);
        assert_eq!(converted, &[42, 43, 44]);
    });
}

#[test]
fn test_branded_vec_clone_with() {
    brand_scope(|token| {
        let values = BrandedVec::from(vec![10_i32, 20, 30]);
        let cloned = values.clone_with(&token);
        assert_eq!(cloned.len(), 3);
        assert_eq!(cloned.as_slice(&token), &[10, 20, 30]);
    });
}

#[test]
fn from_fn_fills_each_index_in_order() {
    brand_scope(|token| {
        let values = BrandedVec::from_fn(5, |i| i * i);
        assert_eq!(values.as_slice(&token), &[0, 1, 4, 9, 16]);
    });
}

#[test]
fn partition_with_zero_chunk_is_clamped_to_single_values() {
    brand_scope(|token| {
        let values = BrandedVec::from(vec![3_u8, 4, 5]);
        let starts = values.partition_map_with(&token, 0, |start, shard| (start, shard.len()));
        assert_eq!(starts, [(0, 1), (1, 1), (2, 1)]);
        let empty: BrandedVec<'_, u8> = BrandedVec::new();
        assert!(empty.partition_map_with(&token, 3, |_, shard| shard.len()).is_empty());
    });
}

#[test]
fn cow_if_and_borrow_retain_follow_the_decision() {
    brand_scope(|token| {
        let values = BrandedVec::from(vec![7_u16, 8]);
        assert!(matches!(values.borrow_cow(&token), Cow::Borrowed(_)));
        assert!(matches!(values.retain_cow(&token), Cow::Owned(_)));
        assert!(matches!(values.cow_if(&token, RetainDecision::Borrow), Cow::Borrowed(s) if s == [7, 8]));
        assert!(matches!(values.cow_if(&token, RetainDecision::Retain), Cow::Owned(v) if v == vec![7, 8]));
    });
}

#[test]
fn shrink_reserve_and_clear_keep_values_consistent() {
    brand_scope(|token| {
        let mut values = BrandedVec::from(Vec::with_capacity(16));
        values.push(1_u64);
        values.push(2);
        values.shrink_to_fit();
        assert!(values.capacity() >= 2);
        assert_eq!(values.as_slice(&token), &[1, 2]);
        values.reserve(10);
        assert!(values.capacity() >= 12);
        assert!(!values.is_empty());
        values.clear();
        assert!(values.is_empty());
    });
}

#[test]
fn generated_values_are_branded_for_the_callback() {
    let total = with_generated(4, |i| i as u32 + 1, |values, token| {
        values.as_slice(&token).iter().sum::<u32>()
    });
    assert_eq!(total, 10);
}

#[test]
fn swapping_twice_restores_the_values() {
    brand_scope(|token| {
        let mut values = BrandedVec::from(vec!['a', 'b', 'c']);
        values.swap(0, 2);
        assert_eq!(values.as_slice(&token), &['c', 'b', 'a']);
        values.swap(0, 2);
        assert_eq!(values.as_slice(&token), &['a', 'b', 'c']);
        values.swap(1, 1);
        assert_eq!(values.as_slice(&token), &['a', 'b', 'c']);
    });
}
