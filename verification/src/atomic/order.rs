//! Zero-sized ordering policies, and the ordering roles they resolve to.
use core::sync::atomic::Ordering;
use vstd::prelude::*;

use super::sealed::Sealed;

verus! {

/// `std` panics on a load whose ordering is `Release` or `AcqRel`.
pub open spec fn load_ordering_ok(o: Ordering) -> bool {
    o != Ordering::Release && o != Ordering::AcqRel
}

/// `std` panics on a store whose ordering is `Acquire` or `AcqRel`.
pub open spec fn store_ordering_ok(o: Ordering) -> bool {
    o != Ordering::Acquire && o != Ordering::AcqRel
}

/// `std` panics on a compare-exchange whose failure ordering is `Release` or
/// `AcqRel`.
pub open spec fn failure_ordering_ok(o: Ordering) -> bool {
    o != Ordering::Release && o != Ordering::AcqRel
}

/// ZST ordering policy for atomic load/store/RMW/compare-exchange operations.
///
/// Sealed: the policy set is fixed to [`Relaxed`], [`AcqRel`] and [`SeqCst`],
/// and each of them resolves every role to an ordering that `std` accepts for
/// that role.
pub trait AtomicOrder: Sealed + Copy {
    /// Ordering the policy uses for loads.
    spec fn load_policy() -> Ordering;

    /// Ordering the policy uses for stores.
    spec fn store_policy() -> Ordering;

    /// Ordering the policy uses for read-modify-write operations.
    spec fn rmw_policy() -> Ordering;

    /// Failure ordering the policy uses for compare-exchange.
    spec fn failure_policy() -> Ordering;

    /// Every role of the policy is one that `std` accepts for that role.
    proof fn lemma_roles_accepted()
        ensures
            load_ordering_ok(Self::load_policy()),
            store_ordering_ok(Self::store_policy()),
            failure_ordering_ok(Self::failure_policy()),
    ;

    /// Ordering for load operations.
    fn load_ordering() -> (o: Ordering)
        ensures
            o == Self::load_policy(),
    ;

    /// Ordering for store operations.
    fn store_ordering() -> (o: Ordering)
        ensures
            o == Self::store_policy(),
    ;

    /// Ordering for read-modify-write operations.
    fn rmw_ordering() -> (o: Ordering)
        ensures
            o == Self::rmw_policy(),
    ;

    /// Failure ordering for compare-exchange operations.
    fn failure_ordering() -> (o: Ordering)
        ensures
            o == Self::failure_policy(),
    ;
}

/// Relaxed atomic ordering policy.
#[derive(Clone, Copy, Debug, Default, PartialEq, Eq)]
pub struct Relaxed;

/// Acquire load / release store / acquire-release RMW ordering policy.
#[derive(Clone, Copy, Debug, Default, PartialEq, Eq)]
pub struct AcqRel;

/// Sequentially consistent ordering policy.
#[derive(Clone, Copy, Debug, Default, PartialEq, Eq)]
pub struct SeqCst;

impl Sealed for Relaxed {}

impl Sealed for AcqRel {}

impl Sealed for SeqCst {}

impl AtomicOrder for Relaxed {
    open spec fn load_policy() -> Ordering {
        Ordering::Relaxed
    }

    open spec fn store_policy() -> Ordering {
        Ordering::Relaxed
    }

    open spec fn rmw_policy() -> Ordering {
        Ordering::Relaxed
    }

    open spec fn failure_policy() -> Ordering {
        Ordering::Relaxed
    }

    proof fn lemma_roles_accepted() {
    }

    fn load_ordering() -> (o: Ordering) {
        Ordering::Relaxed
    }

    fn store_ordering() -> (o: Ordering) {
        Ordering::Relaxed
    }

    fn rmw_ordering() -> (o: Ordering) {
        Ordering::Relaxed
    }

    fn failure_ordering() -> (o: Ordering) {
        Ordering::Relaxed
    }
}

impl AtomicOrder for AcqRel {
    open spec fn load_policy() -> Ordering {
        Ordering::Acquire
    }

    open spec fn store_policy() -> Ordering {
        Ordering::Release
    }

    open spec fn rmw_policy() -> Ordering {
        Ordering::AcqRel
    }

    open spec fn failure_policy() -> Ordering {
        Ordering::Acquire
    }

    proof fn lemma_roles_accepted() {
    }

    fn load_ordering() -> (o: Ordering) {
        Ordering::Acquire
    }

    fn store_ordering() -> (o: Ordering) {
        Ordering::Release
    }

    fn rmw_ordering() -> (o: Ordering) {
        Ordering::AcqRel
    }

    fn failure_ordering() -> (o: Ordering) {
        Ordering::Acquire
    }
}

impl AtomicOrder for SeqCst {
    open spec fn load_policy() -> Ordering {
        Ordering::SeqCst
    }

    open spec fn store_policy() -> Ordering {
        Ordering::SeqCst
    }

    open spec fn rmw_policy() -> Ordering {
        Ordering::SeqCst
    }

    open spec fn failure_policy() -> Ordering {
        Ordering::SeqCst
    }

    proof fn lemma_roles_accepted() {
    }

    fn load_ordering() -> (o: Ordering) {
        Ordering::SeqCst
    }

    fn store_ordering() -> (o: Ordering) {
        Ordering::SeqCst
    }

    fn rmw_ordering() -> (o: Ordering) {
        Ordering::SeqCst
    }

    fn failure_ordering() -> (o: Ordering) {
        Ordering::SeqCst
    }
}

/// An ordering source: resolves each operation role to an [`Ordering`].
///
/// An [`AtomicOrder`] policy resolves each role to the policy's ordering for
/// that role; a runtime [`Ordering`] resolves through [`load_order`] and its
/// siblings, which keep the caller's ordering for every role.
pub trait OrderingSource: Copy {
    /// The ordering this source gives for loads.
    spec fn load_role(self) -> Ordering;

    /// The ordering this source gives for stores.
    spec fn store_role(self) -> Ordering;

    /// The ordering this source gives for read-modify-write operations.
    spec fn rmw_role(self) -> Ordering;

    /// The ordering this source gives for a failed compare-exchange.
    spec fn failure_role(self) -> Ordering;

    /// Resolve a load ordering.
    fn load_order(self) -> (o: Ordering)
        ensures
            o == self.load_role(),
    ;

    /// Resolve a store ordering.
    fn store_order(self) -> (o: Ordering)
        ensures
            o == self.store_role(),
    ;

    /// Resolve a read-modify-write ordering.
    fn rmw_order(self) -> (o: Ordering)
        ensures
            o == self.rmw_role(),
    ;

    /// Resolve a failed-update ordering.
    fn failure_order(self) -> (o: Ordering)
        ensures
            o == self.failure_role(),
    ;
}

/// Resolve a load ordering from a runtime ordering: the ordering itself.
pub fn load_order(o: Ordering) -> (r: Ordering)
    ensures
        r == o,
{
    o
}

/// Resolve a store ordering from a runtime ordering: the ordering itself.
pub fn store_order(o: Ordering) -> (r: Ordering)
    ensures
        r == o,
{
    o
}

/// Resolve a read-modify-write ordering from a runtime ordering: the ordering
/// itself.
pub fn rmw_order(o: Ordering) -> (r: Ordering)
    ensures
        r == o,
{
    o
}

/// Resolve a failed-update ordering from a runtime ordering: the ordering
/// itself.
pub fn failure_order(o: Ordering) -> (r: Ordering)
    ensures
        r == o,
{
    o
}

impl<O: AtomicOrder> OrderingSource for O {
    open spec fn load_role(self) -> Ordering {
        O::load_policy()
    }

    open spec fn store_role(self) -> Ordering {
        O::store_policy()
    }

    open spec fn rmw_role(self) -> Ordering {
        O::rmw_policy()
    }

    open spec fn failure_role(self) -> Ordering {
        O::failure_policy()
    }

    fn load_order(self) -> (o: Ordering) {
        O::load_ordering()
    }

    fn store_order(self) -> (o: Ordering) {
        O::store_ordering()
    }

    fn rmw_order(self) -> (o: Ordering) {
        O::rmw_ordering()
    }

    fn failure_order(self) -> (o: Ordering) {
        O::failure_ordering()
    }
}

/// A policy resolves every role to an ordering `std` accepts for that role.
pub proof fn law_policy_roles_accepted<O: AtomicOrder>(policy: O)
    ensures
        load_ordering_ok(policy.load_role()),
        store_ordering_ok(policy.store_role()),
        failure_ordering_ok(policy.failure_role()),
{
    O::lemma_roles_accepted();
}

} // verus!
