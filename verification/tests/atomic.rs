use core::sync::atomic::{AtomicBool, AtomicI32, AtomicU64, AtomicUsize, Ordering};

use melinoe::{brand_scope, AcqRel, BrandedAtomic, Relaxed, SeqCst};

#[test]
fn exclusive_store_then_shared_policy_ops() {
    brand_scope(|mut token| {
        let counter: BrandedAtomic<'_, AtomicU64> = BrandedAtomic::new(0);
        counter.store_exclusive(10, &mut token);
        assert_eq!(counter.load_exclusive(&mut token), 10);
        let snap = token.share();
        assert_eq!(counter.fetch_add_with(5, snap, Relaxed), 10);
        assert_eq!(counter.load_with(snap, Relaxed), 15);
    });
}

#[test]
fn fetch_add_returns_previous_value() {
    brand_scope(|mut token| {
        let counter: BrandedAtomic<'_, AtomicU64> = BrandedAtomic::new(100);
        counter.store_exclusive(100, &mut token);
        let snap = token.share();
        assert_eq!(counter.fetch_add_with(5, snap, Relaxed), 100);
        assert_eq!(counter.load_with(snap, Relaxed), 105);
        assert_eq!(counter.fetch_add_with(10, snap, AcqRel), 105);
        assert_eq!(counter.load_with(snap, Relaxed), 115);
    });
}

#[test]
fn compare_exchange_reports_previous_value() {
    brand_scope(|token| {
        let a: BrandedAtomic<'_, AtomicUsize> = BrandedAtomic::new(7);
        let snap = token.share();
        assert_eq!(
            a.compare_exchange(7, 9, Ordering::AcqRel, Ordering::Acquire, snap),
            Ok(7)
        );
        assert_eq!(
            a.compare_exchange(7, 1, Ordering::SeqCst, Ordering::Relaxed, snap),
            Err(9)
        );
        assert_eq!(a.compare_exchange_with(9, 2, snap, SeqCst), Ok(9));
        assert_eq!(a.compare_exchange_with(9, 3, snap, Relaxed), Err(2));
        assert_eq!(a.load(snap, Ordering::SeqCst), 2);
    });
}

#[test]
fn swap_store_and_bitwise_ops() {
    brand_scope(|token| {
        let a: BrandedAtomic<'_, AtomicI32> = BrandedAtomic::new(-4);
        let snap = token.share();
        assert_eq!(a.swap(6, snap, Ordering::SeqCst), -4);
        assert_eq!(a.swap_with(0b1100, snap, AcqRel), 6);
        assert_eq!(a.fetch_and(0b1010, snap, Ordering::Relaxed), 0b1100);
        assert_eq!(a.fetch_or_with(0b0001, snap, SeqCst), 0b1000);
        assert_eq!(a.fetch_sub(2, snap, Ordering::Relaxed), 0b1001);
        assert_eq!(a.fetch_sub_with(10, snap, Relaxed), 7);
        assert_eq!(a.fetch_and_with(0, snap, Relaxed), -3);
        assert_eq!(a.fetch_or(5, snap, Ordering::AcqRel), 0);
        a.store(11, snap, Ordering::Release);
        assert_eq!(a.load(snap, Ordering::Acquire), 11);
        a.store_with(12, snap, SeqCst);
        assert_eq!(a.load_with(snap, SeqCst), 12);
    });
}

#[test]
fn wrapping_arithmetic_at_the_edges() {
    brand_scope(|token| {
        let a: BrandedAtomic<'_, AtomicU64> = BrandedAtomic::new(u64::MAX);
        let snap = token.share();
        assert_eq!(a.fetch_add(1, snap, Ordering::Relaxed), u64::MAX);
        assert_eq!(a.fetch_sub(1, snap, Ordering::Relaxed), 0);
        assert_eq!(a.load(snap, Ordering::Relaxed), u64::MAX);
    });
}

#[test]
fn unique_ownership_paths() {
    brand_scope(|token| {
        let mut a: BrandedAtomic<'_, AtomicBool> = BrandedAtomic::new(false);
        *a.get_mut() = true;
        assert!(a.as_atomic(&token).load(Ordering::Relaxed));
        a.as_atomic_mut().store(false, Ordering::Relaxed);
        assert!(!a.into_inner());
        let b: BrandedAtomic<'_, AtomicU64> = BrandedAtomic::new(3);
        let inner: AtomicU64 = b.into_atomic();
        assert_eq!(inner.into_inner(), 3);
    });
}

#[test]
fn branded_atomic_has_the_layout_of_its_atomic() {
    assert_eq!(
        core::mem::size_of::<BrandedAtomic<'static, AtomicUsize>>(),
        core::mem::size_of::<AtomicUsize>()
    );
}

#[test]
fn with_exclusive_updates_the_value_in_place() {
    brand_scope(|mut token| {
        let counter: BrandedAtomic<'_, AtomicU64> = BrandedAtomic::new(40);
        let seen = counter.with_exclusive(&mut token, |v| {
            *v += 2;
            *v
        });
        assert_eq!(seen, 42);
        assert_eq!(counter.load_exclusive(&mut token), 42);
        let flag: BrandedAtomic<'_, AtomicBool> = BrandedAtomic::new(false);
        flag.with_exclusive(&mut token, |b| *b = true);
        assert!(flag.load_with(token.share(), SeqCst));
    });
}
