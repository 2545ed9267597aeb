use std::borrow::Cow;
use std::collections::VecDeque;

use melinoe::collections::branded_deque::cow_from_segments;
use melinoe::collections::BrandedVecDeque;
use melinoe::{brand_scope, Borrowed, RetainDecision, Retained};

fn wrapped_deque() -> VecDeque<i32> {
    let mut raw = VecDeque::with_capacity(8);
    for i in 0..6 {
        raw.push_back(i);
    }
    for _ in 0..3 {
        raw.pop_front();
    }
    for i in 6..9 {
        raw.push_back(i);
    }
    raw
}

#[test]
fn double_ended_operations_preserve_logical_ordering() {
    brand_scope(|token| {
        let mut deque = BrandedVecDeque::new();
        assert!(deque.is_empty());
        assert_eq!(deque.len(), 0);

        deque.push_back(10_i32);
        deque.push_front(20);
        deque.push_back(30);
        deque.push_front(40);

        assert_eq!(deque.len(), 4);
        assert!(!deque.is_empty());

        let (s1, s2) = deque.as_slices(&token);
        let mut combined = VecDeque::new();
        combined.extend(s1.iter().copied());
        combined.extend(s2.iter().copied());
        assert_eq!(combined, &[40, 20, 10, 30]);

        assert_eq!(deque.pop_front(), Some(40));
        assert_eq!(deque.pop_back(), Some(30));
        assert_eq!(deque.len(), 2);

        assert_eq!(deque.pop_front(), Some(20));
        assert_eq!(deque.pop_back(), Some(10));
        assert_eq!(deque.pop_front(), None);
        assert_eq!(deque.pop_back(), None);
    });
}

#[test]
fn branded_deque_element_access_uses_melinoe_permits() {
    brand_scope(|mut token| {
        let mut deque = BrandedVecDeque::new();
        deque.push_back(1_u8);
        deque.push_back(2);
        deque.push_back(3);

        {
            let mut middle = match deque.get_mut(1, &mut token) {
                Some(val) => val,
                None => panic!("index 1 must exist"),
            };
            *middle = 20;
        }

        let first = match deque.get(0, &token) {
            Some(val) => *val,
            None => panic!("index 0 must exist"),
        };

        assert_eq!(first, 1);
        let (s1, s2) = deque.as_slices(&token);
        assert_eq!(s1, &[1, 20, 3]);
        assert_eq!(s2, &[]);
    });
}

#[test]
fn split_slice_access_supports_mutations_under_write_permit() {
    brand_scope(|mut token| {
        let mut deque = BrandedVecDeque::with_capacity(8);
        for i in 0..6 {
            deque.push_back(i);
        }
        for _ in 0..3 {
            deque.pop_front();
        }
        for i in 6..9 {
            deque.push_back(i);
        }

        assert_eq!(deque.len(), 6);

        {
            let (s1, s2) = deque.as_mut_slices(&mut token);
            for val in s1.iter_mut() {
                *val += 100;
            }
            for val in s2.iter_mut() {
                *val += 100;
            }
        }

        let (s1, s2) = deque.as_slices(&token);
        let mut result = Vec::new();
        result.extend(s1.iter().copied());
        result.extend(s2.iter().copied());
        assert_eq!(result, &[103, 104, 105, 106, 107, 108]);
    });
}

#[test]
fn structural_vecdeque_operations() {
    brand_scope(|token| {
        let mut deque = BrandedVecDeque::from(VecDeque::from(vec![100_i32, 200, 300]));
        assert_eq!(deque.len(), 3);
        assert!(deque.capacity() >= 3);

        deque.swap(0, 2);
        let (s1, _) = deque.as_slices(&token);
        assert_eq!(s1[0], 300);
        assert_eq!(s1[2], 100);

        deque.reserve(10);
        assert!(deque.capacity() >= 13);

        deque.truncate(2);
        assert_eq!(deque.len(), 2);

        deque.clear();
        assert_eq!(deque.len(), 0);
        assert!(deque.is_empty());
    });
}

#[test]
fn wrapped_queue_partitions_follow_logical_order() {
    brand_scope(|token| {
        let deque = BrandedVecDeque::from(wrapped_deque());
        let reads = deque.partition_map_with(&token, 4, |start, shard| (start, shard.to_vec()));
        let mut flat = Vec::new();
        for (start, values) in &reads {
            assert_eq!(*start, flat.len());
            flat.extend(values.iter().copied());
        }
        assert_eq!(flat, vec![3, 4, 5, 6, 7, 8]);
        let total = std::cell::Cell::new(0);
        deque.partition_for_each_with(&token, 0, |_, shard| total.set(total.get() + shard.len()));
        assert_eq!(total.get(), 6);
    });
}

#[test]
fn wrapped_queue_partition_mut_writes_logical_indices() {
    brand_scope(|token| {
        let mut deque = BrandedVecDeque::from(wrapped_deque());
        let lens = deque.partition_map_mut_with(4, |start, shard| {
            for (j, v) in shard.iter_mut().enumerate() {
                *v = (start + j) as i32 * 10;
            }
            shard.len()
        });
        assert_eq!(lens.iter().sum::<usize>(), 6);
        deque.partition_for_each_mut_with(2, |_, shard| {
            for v in shard.iter_mut() {
                *v += 1;
            }
        });
        let values: Vec<i32> = deque.into_vec_deque().into_iter().collect();
        assert_eq!(values, vec![1, 11, 21, 31, 41, 51]);
        let _ = token;
    });
}

#[test]
fn deque_cow_borrows_only_when_contiguous() {
    brand_scope(|token| {
        let contiguous = BrandedVecDeque::from(VecDeque::from(vec![1_u8, 2, 3]));
        assert!(matches!(contiguous.cow_with(&token, Borrowed), Cow::Borrowed(s) if s == [1, 2, 3]));
        assert!(matches!(contiguous.cow_with(&token, Retained), Cow::Owned(_)));
        assert!(matches!(contiguous.retain_cow(&token), Cow::Owned(v) if v == vec![1, 2, 3]));
        assert!(matches!(contiguous.cow_if(&token, RetainDecision::Retain), Cow::Owned(_)));

        let wrapped = BrandedVecDeque::from(wrapped_deque());
        match wrapped.borrow_cow(&token) {
            Cow::Owned(v) => assert_eq!(v, vec![3, 4, 5, 6, 7, 8]),
            Cow::Borrowed(s) => assert_eq!(s, &[3, 4, 5, 6, 7, 8]),
        }
    });
}

#[test]
fn cow_from_segments_clones_when_the_values_wrap() {
    let front = [1_u32, 2];
    let back = [3_u32];
    assert!(matches!(cow_from_segments(&front, &back, Borrowed), Cow::Owned(v) if v == vec![1, 2, 3]));
    assert!(matches!(cow_from_segments(&front, &[], Borrowed), Cow::Borrowed(s) if s == [1, 2]));
    assert!(matches!(cow_from_segments(&front, &[], Retained), Cow::Owned(v) if v == vec![1, 2]));
}

#[test]
fn deque_split_append_retain_and_clone() {
    brand_scope(|token| {
        let mut deque = BrandedVecDeque::from(VecDeque::from(vec![1_i32, 2, 3, 4, 5]));
        let mut tail = deque.split_off(3);
        assert_eq!(tail.len(), 2);
        deque.append(&mut tail);
        assert!(tail.is_empty());
        deque.retain_mut(|v| {
            *v *= 2;
            *v != 6
        });
        let copy = deque.clone_with(&token);
        let (a, b) = copy.as_slices(&token);
        let mut all = a.to_vec();
        all.extend_from_slice(b);
        assert_eq!(all, vec![2, 4, 8, 10]);
        deque.shrink_to_fit();
        assert_eq!(deque.len(), 4);
    });
}

#[test]
fn deque_drain_removes_a_logical_range() {
    brand_scope(|token| {
        let mut deque = BrandedVecDeque::from(wrapped_deque());
        let mut drain = deque.drain(2..5);
        assert_eq!(drain.size_hint(), (3, Some(3)));
        assert_eq!(drain.next(), Some(5));
        assert_eq!(drain.next_back(), Some(7));
        assert_eq!(drain.len(), 1);
        assert_eq!(drain.next(), Some(6));
        assert_eq!(drain.next(), None);
        assert_eq!(drain.next_back(), None);
        drop(drain);
        let (a, b) = deque.as_slices(&token);
        let mut rest = a.to_vec();
        rest.extend_from_slice(b);
        assert_eq!(rest, vec![3, 4, 8]);
    });
}
