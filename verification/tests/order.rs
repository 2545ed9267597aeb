use core::sync::atomic::Ordering;

use melinoe::atomic::order::{failure_order, load_order, rmw_order, store_order};
use melinoe::atomic::{AcqRel, AtomicOrder, OrderingSource, Relaxed, SeqCst};

#[test]
fn ordering_sources_preserve_runtime_and_policy_roles() {
    assert_eq!(load_order(Ordering::Relaxed), Ordering::Relaxed);
    assert_eq!(store_order(Ordering::Acquire), Ordering::Acquire);
    assert_eq!(rmw_order(Ordering::Release), Ordering::Release);
    assert_eq!(failure_order(Ordering::AcqRel), Ordering::AcqRel);

    assert_eq!(Relaxed.load_order(), Ordering::Relaxed);
    assert_eq!(AcqRel.store_order(), Ordering::Release);
    assert_eq!(AcqRel.rmw_order(), Ordering::AcqRel);
    assert_eq!(AcqRel.failure_order(), Ordering::Acquire);
    assert_eq!(SeqCst.failure_order(), Ordering::SeqCst);
}

#[test]
fn policy_tables_match_their_roles() {
    assert_eq!(Relaxed::load_ordering(), Ordering::Relaxed);
    assert_eq!(Relaxed::store_ordering(), Ordering::Relaxed);
    assert_eq!(Relaxed::rmw_ordering(), Ordering::Relaxed);
    assert_eq!(Relaxed::failure_ordering(), Ordering::Relaxed);
    assert_eq!(AcqRel::load_ordering(), Ordering::Acquire);
    assert_eq!(AcqRel::store_ordering(), Ordering::Release);
    assert_eq!(AcqRel::rmw_ordering(), Ordering::AcqRel);
    assert_eq!(AcqRel::failure_ordering(), Ordering::Acquire);
    assert_eq!(SeqCst::load_ordering(), Ordering::SeqCst);
    assert_eq!(SeqCst::store_ordering(), Ordering::SeqCst);
    assert_eq!(SeqCst::rmw_ordering(), Ordering::SeqCst);
    assert_eq!(SeqCst::failure_ordering(), Ordering::SeqCst);
}

#[test]
fn policy_roles_are_accepted_by_std_for_their_role() {
    for o in [Relaxed.load_order(), AcqRel.load_order(), SeqCst.load_order()] {
        assert!(o != Ordering::Release && o != Ordering::AcqRel);
    }
    for o in [Relaxed.store_order(), AcqRel.store_order(), SeqCst.store_order()] {
        assert!(o != Ordering::Acquire && o != Ordering::AcqRel);
    }
    for o in [Relaxed.failure_order(), AcqRel.failure_order(), SeqCst.failure_order()] {
        assert!(o != Ordering::Release && o != Ordering::AcqRel);
    }
}

#[test]
fn runtime_orderings_keep_every_role() {
    for o in [
        Ordering::Relaxed,
        Ordering::Acquire,
        Ordering::Release,
        Ordering::AcqRel,
        Ordering::SeqCst,
    ] {
        assert_eq!(load_order(o), o);
        assert_eq!(store_order(o), o);
        assert_eq!(rmw_order(o), o);
        assert_eq!(failure_order(o), o);
    }
}

#[test]
fn ordering_policies_are_zero_sized() {
    assert_eq!(core::mem::size_of::<Relaxed>(), 0);
    assert_eq!(core::mem::size_of::<AcqRel>(), 0);
    assert_eq!(core::mem::size_of::<SeqCst>(), 0);
}
