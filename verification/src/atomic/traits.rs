//! Abstract atomic traits over the standard-library atomic primitives.
use core::sync::atomic::{
    AtomicBool, AtomicI32, AtomicI64, AtomicIsize, AtomicU32, AtomicU64, AtomicUsize, Ordering,
};
use vstd::prelude::*;

use super::order::{failure_ordering_ok, load_ordering_ok, store_ordering_ok};
use super::sealed::Sealed;

verus! {

/// What a strong compare-exchange reports: `Ok` carries the previous value,
/// equal to `current`; `Err` carries the previous value, which differed from
/// `current`.
pub open spec fn exchange_outcome<V>(r: Result<V, V>, current: V) -> bool {
    match r {
        Ok(v) => v == current,
        Err(v) => v != current,
    }
}

/// An atomic primitive abstracted over its value type, so
/// [`BrandedAtomic`](super::BrandedAtomic) is one generic implementation rather
/// than a type-numbered family.
///
/// Sealed: implemented only for the standard-library atomics. The methods are
/// the crate-internal mediation surface; users call
/// [`BrandedAtomic`](super::BrandedAtomic).
pub trait Atomic: Sealed + Sized {
    /// The plain value carried by this atomic (e.g. `u64` for `AtomicU64`).
    type Value: Copy;

    /// A new atomic holding `value`.
    fn new_atomic(value: Self::Value) -> Self;

    /// Atomic load.
    fn atomic_load(&self, order: Ordering) -> Self::Value
        requires
            load_ordering_ok(order),
    ;

    /// Atomic store.
    fn atomic_store(&self, value: Self::Value, order: Ordering)
        requires
            store_ordering_ok(order),
    ;

    /// Atomic swap, returning the previous value.
    fn atomic_swap(&self, value: Self::Value, order: Ordering) -> Self::Value;

    /// Strong atomic compare-and-exchange.
    fn atomic_compare_exchange(
        &self,
        current: Self::Value,
        new: Self::Value,
        success: Ordering,
        failure: Ordering,
    ) -> (r: Result<Self::Value, Self::Value>)
        requires
            failure_ordering_ok(failure),
        ensures
            exchange_outcome(r, current),
    ;

    /// Plain `&mut` access to the value through unique ownership.
    fn atomic_get_mut(&mut self) -> &mut Self::Value;

    /// Consume the atomic, returning the value.
    fn atomic_into_inner(self) -> Self::Value;
}

/// Integer atomics, which additionally support arithmetic/bitwise RMW.
pub trait AtomicInt: Atomic {
    /// Atomic wrapping add, returning the previous value.
    fn atomic_fetch_add(&self, value: Self::Value, order: Ordering) -> Self::Value;

    /// Atomic wrapping subtract, returning the previous value.
    fn atomic_fetch_sub(&self, value: Self::Value, order: Ordering) -> Self::Value;

    /// Atomic bitwise and, returning the previous value.
    fn atomic_fetch_and(&self, value: Self::Value, order: Ordering) -> Self::Value;

    /// Atomic bitwise or, returning the previous value.
    fn atomic_fetch_or(&self, value: Self::Value, order: Ordering) -> Self::Value;
}

impl Sealed for AtomicUsize {}

impl Atomic for AtomicUsize {
    type Value = usize;

    fn new_atomic(value: usize) -> Self {
        AtomicUsize::new(value)
    }

    fn atomic_load(&self, order: Ordering) -> usize {
        self.load(order)
    }

    fn atomic_store(&self, value: usize, order: Ordering) {
        self.store(value, order);
    }

    fn atomic_swap(&self, value: usize, order: Ordering) -> usize {
        self.swap(value, order)
    }

    fn atomic_compare_exchange(
        &self,
        current: usize,
        new: usize,
        success: Ordering,
        failure: Ordering,
    ) -> (r: Result<usize, usize>) {
        exchange_usize(self, current, new, success, failure)
    }

    fn atomic_get_mut(&mut self) -> &mut usize {
        get_mut_usize(self)
    }

    fn atomic_into_inner(self) -> usize {
        into_inner_usize(self)
    }
}

impl AtomicInt for AtomicUsize {
    fn atomic_fetch_add(&self, value: usize, order: Ordering) -> usize {
        self.fetch_add(value, order)
    }

    fn atomic_fetch_sub(&self, value: usize, order: Ordering) -> usize {
        self.fetch_sub(value, order)
    }

    fn atomic_fetch_and(&self, value: usize, order: Ordering) -> usize {
        self.fetch_and(value, order)
    }

    fn atomic_fetch_or(&self, value: usize, order: Ordering) -> usize {
        self.fetch_or(value, order)
    }
}

impl Sealed for AtomicIsize {}

impl Atomic for AtomicIsize {
    type Value = isize;

    fn new_atomic(value: isize) -> Self {
        AtomicIsize::new(value)
    }

    fn atomic_load(&self, order: Ordering) -> isize {
        self.load(order)
    }

    fn atomic_store(&self, value: isize, order: Ordering) {
        self.store(value, order);
    }

    fn atomic_swap(&self, value: isize, order: Ordering) -> isize {
        self.swap(value, order)
    }

    fn atomic_compare_exchange(
        &self,
        current: isize,
        new: isize,
        success: Ordering,
        failure: Ordering,
    ) -> (r: Result<isize, isize>) {
        exchange_isize(self, current, new, success, failure)
    }

    fn atomic_get_mut(&mut self) -> &mut isize {
        get_mut_isize(self)
    }

    fn atomic_into_inner(self) -> isize {
        into_inner_isize(self)
    }
}

impl AtomicInt for AtomicIsize {
    fn atomic_fetch_add(&self, value: isize, order: Ordering) -> isize {
        self.fetch_add(value, order)
    }

    fn atomic_fetch_sub(&self, value: isize, order: Ordering) -> isize {
        self.fetch_sub(value, order)
    }

    fn atomic_fetch_and(&self, value: isize, order: Ordering) -> isize {
        self.fetch_and(value, order)
    }

    fn atomic_fetch_or(&self, value: isize, order: Ordering) -> isize {
        self.fetch_or(value, order)
    }
}

impl Sealed for AtomicU32 {}

impl Atomic for AtomicU32 {
    type Value = u32;

    fn new_atomic(value: u32) -> Self {
        AtomicU32::new(value)
    }

    fn atomic_load(&self, order: Ordering) -> u32 {
        self.load(order)
    }

    fn atomic_store(&self, value: u32, order: Ordering) {
        self.store(value, order);
    }

    fn atomic_swap(&self, value: u32, order: Ordering) -> u32 {
        self.swap(value, order)
    }

    fn atomic_compare_exchange(
        &self,
        current: u32,
        new: u32,
        success: Ordering,
        failure: Ordering,
    ) -> (r: Result<u32, u32>) {
        exchange_u32(self, current, new, success, failure)
    }

    fn atomic_get_mut(&mut self) -> &mut u32 {
        get_mut_u32(self)
    }

    fn atomic_into_inner(self) -> u32 {
        into_inner_u32(self)
    }
}

impl AtomicInt for AtomicU32 {
    fn atomic_fetch_add(&self, value: u32, order: Ordering) -> u32 {
        self.fetch_add(value, order)
    }

    fn atomic_fetch_sub(&self, value: u32, order: Ordering) -> u32 {
        self.fetch_sub(value, order)
    }

    fn atomic_fetch_and(&self, value: u32, order: Ordering) -> u32 {
        self.fetch_and(value, order)
    }

    fn atomic_fetch_or(&self, value: u32, order: Ordering) -> u32 {
        self.fetch_or(value, order)
    }
}

impl Sealed for AtomicI32 {}

impl Atomic for AtomicI32 {
    type Value = i32;

    fn new_atomic(value: i32) -> Self {
        AtomicI32::new(value)
    }

    fn atomic_load(&self, order: Ordering) -> i32 {
        self.load(order)
    }

    fn atomic_store(&self, value: i32, order: Ordering) {
        self.store(value, order);
    }

    fn atomic_swap(&self, value: i32, order: Ordering) -> i32 {
        self.swap(value, order)
    }

    fn atomic_compare_exchange(
        &self,
        current: i32,
        new: i32,
        success: Ordering,
        failure: Ordering,
    ) -> (r: Result<i32, i32>) {
        exchange_i32(self, current, new, success, failure)
    }

    fn atomic_get_mut(&mut self) -> &mut i32 {
        get_mut_i32(self)
    }

    fn atomic_into_inner(self) -> i32 {
        into_inner_i32(self)
    }
}

impl AtomicInt for AtomicI32 {
    fn atomic_fetch_add(&self, value: i32, order: Ordering) -> i32 {
        self.fetch_add(value, order)
    }

    fn atomic_fetch_sub(&self, value: i32, order: Ordering) -> i32 {
        self.fetch_sub(value, order)
    }

    fn atomic_fetch_and(&self, value: i32, order: Ordering) -> i32 {
        self.fetch_and(value, order)
    }

    fn atomic_fetch_or(&self, value: i32, order: Ordering) -> i32 {
        self.fetch_or(value, order)
    }
}

impl Sealed for AtomicU64 {}

impl Atomic for AtomicU64 {
    type Value = u64;

    fn new_atomic(value: u64) -> Self {
        AtomicU64::new(value)
    }

    fn atomic_load(&self, order: Ordering) -> u64 {
        self.load(order)
    }

    fn atomic_store(&self, value: u64, order: Ordering) {
        self.store(value, order);
    }

    fn atomic_swap(&self, value: u64, order: Ordering) -> u64 {
        self.swap(value, order)
    }

    fn atomic_compare_exchange(
        &self,
        current: u64,
        new: u64,
        success: Ordering,
        failure: Ordering,
    ) -> (r: Result<u64, u64>) {
        exchange_u64(self, current, new, success, failure)
    }

    fn atomic_get_mut(&mut self) -> &mut u64 {
        get_mut_u64(self)
    }

    fn atomic_into_inner(self) -> u64 {
        into_inner_u64(self)
    }
}

impl AtomicInt for AtomicU64 {
    fn atomic_fetch_add(&self, value: u64, order: Ordering) -> u64 {
        self.fetch_add(value, order)
    }

    fn atomic_fetch_sub(&self, value: u64, order: Ordering) -> u64 {
        self.fetch_sub(value, order)
    }

    fn atomic_fetch_and(&self, value: u64, order: Ordering) -> u64 {
        self.fetch_and(value, order)
    }

    fn atomic_fetch_or(&self, value: u64, order: Ordering) -> u64 {
        self.fetch_or(value, order)
    }
}

impl Sealed for AtomicI64 {}

impl Atomic for AtomicI64 {
    type Value = i64;

    fn new_atomic(value: i64) -> Self {
        AtomicI64::new(value)
    }

    fn atomic_load(&self, order: Ordering) -> i64 {
        self.load(order)
    }

    fn atomic_store(&self, value: i64, order: Ordering) {
        self.store(value, order);
    }

    fn atomic_swap(&self, value: i64, order: Ordering) -> i64 {
        self.swap(value, order)
    }

    fn atomic_compare_exchange(
        &self,
        current: i64,
        new: i64,
        success: Ordering,
        failure: Ordering,
    ) -> (r: Result<i64, i64>) {
        exchange_i64(self, current, new, success, failure)
    }

    fn atomic_get_mut(&mut self) -> &mut i64 {
        get_mut_i64(self)
    }

    fn atomic_into_inner(self) -> i64 {
        into_inner_i64(self)
    }
}

impl AtomicInt for AtomicI64 {
    fn atomic_fetch_add(&self, value: i64, order: Ordering) -> i64 {
        self.fetch_add(value, order)
    }

    fn atomic_fetch_sub(&self, value: i64, order: Ordering) -> i64 {
        self.fetch_sub(value, order)
    }

    fn atomic_fetch_and(&self, value: i64, order: Ordering) -> i64 {
        self.fetch_and(value, order)
    }

    fn atomic_fetch_or(&self, value: i64, order: Ordering) -> i64 {
        self.fetch_or(value, order)
    }
}

impl Sealed for AtomicBool {}

impl Atomic for AtomicBool {
    type Value = bool;

    fn new_atomic(value: bool) -> Self {
        AtomicBool::new(value)
    }

    fn atomic_load(&self, order: Ordering) -> bool {
        self.load(order)
    }

    fn atomic_store(&self, value: bool, order: Ordering) {
        self.store(value, order);
    }

    fn atomic_swap(&self, value: bool, order: Ordering) -> bool {
        self.swap(value, order)
    }

    fn atomic_compare_exchange(
        &self,
        current: bool,
        new: bool,
        success: Ordering,
        failure: Ordering,
    ) -> (r: Result<bool, bool>) {
        exchange_bool(self, current, new, success, failure)
    }

    fn atomic_get_mut(&mut self) -> &mut bool {
        get_mut_bool(self)
    }

    fn atomic_into_inner(self) -> bool {
        into_inner_bool(self)
    }
}

/// Calls `AtomicUsize::compare_exchange`, the strong compare-and-exchange of `std`.
/// Trusted: it panics only for a `Release` or `AcqRel` failure ordering
/// (excluded by `requires`), and its result carries the previous value, equal
/// to `current` on `Ok` and different from it on `Err` (strong: no spurious
/// failure).
#[verifier::external_body]
fn exchange_usize(
    a: &AtomicUsize,
    current: usize,
    new: usize,
    success: Ordering,
    failure: Ordering,
) -> (r: Result<usize, usize>)
    requires
        failure_ordering_ok(failure),
    ensures
        exchange_outcome(r, current),
{
    a.compare_exchange(current, new, success, failure)
}

/// Calls `AtomicUsize::get_mut`. Nothing is claimed of the value it hands out.
#[verifier::external_body]
fn get_mut_usize(a: &mut AtomicUsize) -> &mut usize {
    a.get_mut()
}

/// Calls `AtomicUsize::into_inner`. Nothing is claimed of the value it returns.
#[verifier::external_body]
fn into_inner_usize(a: AtomicUsize) -> usize {
    a.into_inner()
}

/// Calls `AtomicIsize::compare_exchange`, the strong compare-and-exchange of `std`.
/// Trusted: it panics only for a `Release` or `AcqRel` failure ordering
/// (excluded by `requires`), and its result carries the previous value, equal
/// to `current` on `Ok` and different from it on `Err` (strong: no spurious
/// failure).
#[verifier::external_body]
fn exchange_isize(
    a: &AtomicIsize,
    current: isize,
    new: isize,
    success: Ordering,
    failure: Ordering,
) -> (r: Result<isize, isize>)
    requires
        failure_ordering_ok(failure),
    ensures
        exchange_outcome(r, current),
{
    a.compare_exchange(current, new, success, failure)
}

/// Calls `AtomicIsize::get_mut`. Nothing is claimed of the value it hands out.
#[verifier::external_body]
fn get_mut_isize(a: &mut AtomicIsize) -> &mut isize {
    a.get_mut()
}

/// Calls `AtomicIsize::into_inner`. Nothing is claimed of the value it returns.
#[verifier::external_body]
fn into_inner_isize(a: AtomicIsize) -> isize {
    a.into_inner()
}

/// Calls `AtomicU32::compare_exchange`, the strong compare-and-exchange of `std`.
/// Trusted: it panics only for a `Release` or `AcqRel` failure ordering
/// (excluded by `requires`), and its result carries the previous value, equal
/// to `current` on `Ok` and different from it on `Err` (strong: no spurious
/// failure).
#[verifier::external_body]
fn exchange_u32(
    a: &AtomicU32,
    current: u32,
    new: u32,
    success: Ordering,
    failure: Ordering,
) -> (r: Result<u32, u32>)
    requires
        failure_ordering_ok(failure),
    ensures
        exchange_outcome(r, current),
{
    a.compare_exchange(current, new, success, failure)
}

/// Calls `AtomicU32::get_mut`. Nothing is claimed of the value it hands out.
#[verifier::external_body]
fn get_mut_u32(a: &mut AtomicU32) -> &mut u32 {
    a.get_mut()
}

/// Calls `AtomicU32::into_inner`. Nothing is claimed of the value it returns.
#[verifier::external_body]
fn into_inner_u32(a: AtomicU32) -> u32 {
    a.into_inner()
}

/// Calls `AtomicI32::compare_exchange`, the strong compare-and-exchange of `std`.
/// Trusted: it panics only for a `Release` or `AcqRel` failure ordering
/// (excluded by `requires`), and its result carries the previous value, equal
/// to `current` on `Ok` and different from it on `Err` (strong: no spurious
/// failure).
#[verifier::external_body]
fn exchange_i32(
    a: &AtomicI32,
    current: i32,
    new: i32,
    success: Ordering,
    failure: Ordering,
) -> (r: Result<i32, i32>)
    requires
        failure_ordering_ok(failure),
    ensures
        exchange_outcome(r, current),
{
    a.compare_exchange(current, new, success, failure)
}

/// Calls `AtomicI32::get_mut`. Nothing is claimed of the value it hands out.
#[verifier::external_body]
fn get_mut_i32(a: &mut AtomicI32) -> &mut i32 {
    a.get_mut()
}

/// Calls `AtomicI32::into_inner`. Nothing is claimed of the value it returns.
#[verifier::external_body]
fn into_inner_i32(a: AtomicI32) -> i32 {
    a.into_inner()
}

/// Calls `AtomicU64::compare_exchange`, the strong compare-and-exchange of `std`.
/// Trusted: it panics only for a `Release` or `AcqRel` failure ordering
/// (excluded by `requires`), and its result carries the previous value, equal
/// to `current` on `Ok` and different from it on `Err` (strong: no spurious
/// failure).
#[verifier::external_body]
fn exchange_u64(
    a: &AtomicU64,
    current: u64,
    new: u64,
    success: Ordering,
    failure: Ordering,
) -> (r: Result<u64, u64>)
    requires
        failure_ordering_ok(failure),
    ensures
        exchange_outcome(r, current),
{
    a.compare_exchange(current, new, success, failure)
}

/// Calls `AtomicU64::get_mut`. Nothing is claimed of the value it hands out.
#[verifier::external_body]
fn get_mut_u64(a: &mut AtomicU64) -> &mut u64 {
    a.get_mut()
}

/// Calls `AtomicU64::into_inner`. Nothing is claimed of the value it returns.
#[verifier::external_body]
fn into_inner_u64(a: AtomicU64) -> u64 {
    a.into_inner()
}

/// Calls `AtomicI64::compare_exchange`, the strong compare-and-exchange of `std`.
/// Trusted: it panics only for a `Release` or `AcqRel` failure ordering
/// (excluded by `requires`), and its result carries the previous value, equal
/// to `current` on `Ok` and different from it on `Err` (strong: no spurious
/// failure).
#[verifier::external_body]
fn exchange_i64(
    a: &AtomicI64,
    current: i64,
    new: i64,
    success: Ordering,
    failure: Ordering,
) -> (r: Result<i64, i64>)
    requires
        failure_ordering_ok(failure),
    ensures
        exchange_outcome(r, current),
{
    a.compare_exchange(current, new, success, failure)
}

/// Calls `AtomicI64::get_mut`. Nothing is claimed of the value it hands out.
#[verifier::external_body]
fn get_mut_i64(a: &mut AtomicI64) -> &mut i64 {
    a.get_mut()
}

/// Calls `AtomicI64::into_inner`. Nothing is claimed of the value it returns.
#[verifier::external_body]
fn into_inner_i64(a: AtomicI64) -> i64 {
    a.into_inner()
}

/// Calls `AtomicBool::compare_exchange`, the strong compare-and-exchange of `std`.
/// Trusted: it panics only for a `Release` or `AcqRel` failure ordering
/// (excluded by `requires`), and its result carries the previous value, equal
/// to `current` on `Ok` and different from it on `Err` (strong: no spurious
/// failure).
#[verifier::external_body]
fn exchange_bool(
    a: &AtomicBool,
    current: bool,
    new: bool,
    success: Ordering,
    failure: Ordering,
) -> (r: Result<bool, bool>)
    requires
        failure_ordering_ok(failure),
    ensures
        exchange_outcome(r, current),
{
    a.compare_exchange(current, new, success, failure)
}

/// Calls `AtomicBool::get_mut`. Nothing is claimed of the value it hands out.
#[verifier::external_body]
fn get_mut_bool(a: &mut AtomicBool) -> &mut bool {
    a.get_mut()
}

/// Calls `AtomicBool::into_inner`. Nothing is claimed of the value it returns.
#[verifier::external_body]
fn into_inner_bool(a: AtomicBool) -> bool {
    a.into_inner()
}

} // verus!
