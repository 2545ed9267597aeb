//! The arithmetic of cutting a region of `len` cells into `chunk`-cell parts.
use vstd::prelude::*;
use vstd::arithmetic::div_mod::lemma_div_plus_one;

verus! {

/// `ceil(len / chunk)`: how many `chunk`-cell parts tile `len` cells.
pub open spec fn partition_count(len: int, chunk: int) -> int {
    (len + chunk - 1) / chunk
}

/// First cell of part `index`, clamped to the region.
pub open spec fn part_start(len: int, chunk: int, index: int) -> int {
    if index * chunk < len { index * chunk } else { len }
}

/// One past the last cell of part `index`, clamped to the region.
pub open spec fn part_end(len: int, chunk: int, index: int) -> int {
    if index * chunk + chunk < len { index * chunk + chunk } else { len }
}

/// The overflow-free form `1 + (len - 1) / chunk` is the part count.
pub proof fn lemma_count_closed_form(len: int, chunk: int)
    requires
        0 < len,
        0 < chunk,
    ensures
        partition_count(len, chunk) == 1 + (len - 1) / chunk,
{
    lemma_div_plus_one(len - 1, chunk);
}

/// An empty region has no parts.
pub proof fn lemma_count_empty(chunk: int)
    requires
        0 < chunk,
    ensures
        partition_count(0, chunk) == 0,
{
    assert((chunk - 1) / chunk == 0) by (nonlinear_arith)
        requires
            0 < chunk,
    ;
}

/// Cutting the first part off a non-empty region leaves one part fewer.
pub proof fn lemma_count_after_first_part(len: int, chunk: int)
    requires
        0 < len,
        0 < chunk,
    ensures
        partition_count(len, chunk) == 1 + partition_count(
            len - (if chunk < len { chunk } else { len }),
            chunk,
        ),
{
    lemma_count_closed_form(len, chunk);
    if chunk < len {
        lemma_count_closed_form(len - chunk, chunk);
        lemma_div_plus_one(len - chunk - 1, chunk);
    } else {
        lemma_count_empty(chunk);
        assert((len - 1) / chunk == 0) by (nonlinear_arith)
            requires
                0 <= len - 1 < chunk,
        ;
    }
}

/// Part `index` is non-empty exactly when `index` is below the part count.
pub proof fn lemma_part_nonempty(len: int, chunk: int, index: int)
    requires
        0 <= len,
        0 < chunk,
        0 <= index,
    ensures
        (part_start(len, chunk, index) < part_end(len, chunk, index)) <==> index
            < partition_count(len, chunk),
{
    if len == 0 {
        lemma_count_empty(chunk);
        assert(0 <= index * chunk) by (nonlinear_arith)
            requires
                0 <= index,
                0 < chunk,
        ;
    } else {
        lemma_count_closed_form(len, chunk);
        if index * chunk < len {
            assert(index <= (len - 1) / chunk) by (nonlinear_arith)
                requires
                    0 <= index,
                    0 < chunk,
                    index * chunk <= len - 1,
            {
                vstd::arithmetic::div_mod::lemma_div_is_ordered(index * chunk, len - 1, chunk);
                vstd::arithmetic::div_mod::lemma_div_multiples_vanish(index, chunk);
            }
        } else {
            assert(index > (len - 1) / chunk) by (nonlinear_arith)
                requires
                    0 <= index,
                    0 < chunk,
                    index * chunk >= len,
                    0 < len,
            {
                vstd::arithmetic::div_mod::lemma_fundamental_div_mod(len - 1, chunk);
                if index <= (len - 1) / chunk {
                    vstd::arithmetic::mul::lemma_mul_inequality(index, (len - 1) / chunk, chunk);
                    vstd::arithmetic::div_mod::lemma_mod_bound(len - 1, chunk);
                }
            }
        }
    }
}

/// The cells left after cutting `k` shards of at most `chunk` cells each off
/// the front of a `len`-cell region, one at a time.
pub open spec fn remaining_after(len: int, chunk: int, k: nat) -> int
    decreases k,
{
    if k == 0 {
        len
    } else {
        let r = remaining_after(len, chunk, (k - 1) as nat);
        r - (if chunk < r { chunk } else { r })
    }
}

/// The parts tile the region: each of the `partition_count` parts is
/// non-empty and lies inside the region, the first starts at `0`, each part
/// ends where the next one starts, and the last one ends at `len`.
pub proof fn law_parts_tile(len: int, chunk: int)
    requires
        0 <= len,
        0 < chunk,
    ensures
        forall|i: int|
            0 <= i < partition_count(len, chunk) ==> 0 <= #[trigger] part_start(len, chunk, i)
                < part_end(len, chunk, i) <= len,
        partition_count(len, chunk) > 0 ==> part_start(len, chunk, 0) == 0,
        forall|i: int|
            0 <= i && i + 1 < partition_count(len, chunk) ==> #[trigger] part_end(len, chunk, i)
                == part_start(len, chunk, i + 1),
        partition_count(len, chunk) > 0 ==> part_end(len, chunk, partition_count(len, chunk) - 1)
            == len,
{
    assert forall|i: int| 0 <= i < partition_count(len, chunk) implies 0 <= #[trigger] part_start(
        len,
        chunk,
        i,
    ) < part_end(len, chunk, i) <= len by {
        lemma_part_nonempty(len, chunk, i);
        assert(0 <= i * chunk) by (nonlinear_arith)
            requires
                0 <= i,
                0 < chunk,
        ;
    }
    assert forall|i: int| 0 <= i && i + 1 < partition_count(len, chunk) implies #[trigger] part_end(
        len,
        chunk,
        i,
    ) == part_start(len, chunk, i + 1) by {
        assert((i + 1) * chunk == i * chunk + chunk) by (nonlinear_arith);
    }
    if partition_count(len, chunk) > 0 {
        let last = partition_count(len, chunk) - 1;
        lemma_part_nonempty(len, chunk, last);
        lemma_part_nonempty(len, chunk, last + 1);
        assert((last + 1) * chunk == last * chunk + chunk) by (nonlinear_arith);
        assert(0 * chunk == 0) by (nonlinear_arith);
    }
}

/// Distinct parts never overlap: an earlier part ends no later than a later
/// part starts.
pub proof fn law_parts_disjoint(len: int, chunk: int, i: int, j: int)
    requires
        0 <= len,
        0 < chunk,
        0 <= i < j,
    ensures
        part_end(len, chunk, i) <= part_start(len, chunk, j),
{
    assert(i * chunk + chunk <= j * chunk) by (nonlinear_arith)
        requires
            0 <= i < j,
            0 < chunk,
    ;
}

/// Cutting shards off the front one at a time agrees with the indexed parts:
/// after `k` cuts the region's first `part_start(k)` cells are gone, and the
/// next cut takes exactly part `k`.
pub proof fn law_front_cuts_follow_parts(len: int, chunk: int, k: nat)
    requires
        0 <= len,
        0 < chunk,
    ensures
        remaining_after(len, chunk, k) == len - part_start(len, chunk, k as int),
        ({
            let r = remaining_after(len, chunk, k);
            (if chunk < r { chunk } else { r }) == part_end(len, chunk, k as int) - part_start(
                len,
                chunk,
                k as int,
            )
        }),
    decreases k,
{
    assert(0 <= k * chunk) by (nonlinear_arith)
        requires
            0 < chunk,
    ;
    if k > 0 {
        law_front_cuts_follow_parts(len, chunk, (k - 1) as nat);
        assert(((k - 1) as nat) * chunk + chunk == k * chunk) by (nonlinear_arith)
            requires
                k > 0,
        ;
    } else {
        assert(0 * chunk == 0) by (nonlinear_arith);
    }
}

} // verus!
