# melinoe

Branded, zero-sized capability tokens that gate access to cells, atomics,
disjoint regions and collections, with the library's behaviour stated in
`requires`/`ensures` contracts and proved by Verus. State that changes through
shared references (the value an atomic holds, the re-entrancy flag and the
contents of a `GuardedCell`) is not part of any contract.

Layout:

- `src/token.rs` — `brand_scope`, `ExclusiveToken`, `SharedReadToken` and the
  sealed `ReadPermit`/`WritePermit` capabilities.
- `src/cell/` — `MelinoeCell`, `MelinoeCell2`, the `MelinoeRef`/`MelinoeMut`
  guards and the `Cow` retain policies.
- `src/atomic/` — memory-ordering policies (`Relaxed`, `AcqRel`, `SeqCst`) with
  their role laws, the `Atomic`/`AtomicInt` interface over `std` atomics, and
  `BrandedAtomic`.
- `src/region/` — `WriterShard` and its chunked views, with the laws that the
  parts of a region tile it without overlap.
- `src/collections/` — `BrandedVec`, `BrandedVecDeque`, their drains, and the
  shard plan that cuts a (possibly wrapped) queue into logical chunks, with the
  laws that a plan is unique and covers the queue in order.
- `src/reentrant/` — `ReentrancyCell`, `GuardedCell` and the re-entrancy
  decision they share.
- `src/slices.rs` — exclusive slice reborrows whose fixed length the
  contracts can rely on.
- `app/` — `Display`/`std::error::Error` for the refusal type, which the
  verified crate leaves to its users.
- `tests/` — executable tests of the library.
