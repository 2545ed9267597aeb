//! The shard plan for a ring-buffer queue: logical chunks cut at the wrap.
use vstd::prelude::*;

use crate::slices::whole_slice_mut;


verus! {

/// Which of a queue's two storage segments a shard lies in.
#[derive(Clone, Copy, Debug, PartialEq, Eq, Structural)]
pub enum DequeSegment {
    /// The segment holding the queue's first values.
    Front,
    /// The segment holding the values after the wrap.
    Back,
}

/// One physical shard: `len` values of `segment`, starting at `offset` in that
/// segment and at `start` in the queue's logical order.
#[derive(Clone, Copy, Debug, PartialEq, Eq, Structural)]
pub struct DequeShard {
    /// Logical index of the shard's first value.
    pub start: usize,
    /// The storage segment the shard lies in.
    pub segment: DequeSegment,
    /// Index of the shard's first value within its segment.
    pub offset: usize,
    /// Number of values in the shard.
    pub len: usize,
}

/// One past the logical index of the shard's last value.
pub open spec fn shard_end(s: DequeShard) -> int {
    s.start + s.len
}

/// A cut point of the plan: a chunk boundary, or the wrap between segments.
pub open spec fn is_cut(p: int, front_len: int, chunk: int) -> bool {
    p % chunk == 0 || p == front_len
}

/// A shard lies entirely in its segment, where its logical and physical
/// positions agree.
pub open spec fn shard_placed(s: DequeShard, front_len: int, back_len: int) -> bool {
    &&& s.len > 0
    &&& match s.segment {
        DequeSegment::Front => s.offset == s.start && shard_end(s) <= front_len,
        DequeSegment::Back => s.start == front_len + s.offset && s.offset + s.len <= back_len,
    }
}

/// The plan for a queue whose segments hold `front_len` and `back_len`
/// values, cut into logical chunks of `chunk` values: the shards tile
/// `[0, front_len + back_len)` in logical order, each lies in one segment, the
/// boundaries between shards are exactly the cut points, and no cut point
/// falls inside a shard. These conditions determine the plan
/// ([`law_plan_is_unique`]).
pub open spec fn plan_of(s: Seq<DequeShard>, front_len: int, back_len: int, chunk: int) -> bool {
    let total = front_len + back_len;
    &&& (s.len() == 0 <==> total == 0)
    &&& s.len() > 0 ==> s[0].start == 0 && shard_end(s[s.len() - 1]) == total
    &&& forall|i: int| 0 <= i < s.len() ==> shard_placed(#[trigger] s[i], front_len, back_len)
    &&& forall|j: int| 0 < j < s.len() ==> shard_end(s[j - 1]) == (#[trigger] s[j]).start
    &&& forall|j: int| 0 < j < s.len() ==> is_cut((#[trigger] s[j]).start as int, front_len, chunk)
    &&& forall|i: int, p: int|
        #![trigger s[i], is_cut(p, front_len, chunk)]
        0 <= i < s.len() && s[i].start < p < shard_end(s[i]) ==> !is_cut(p, front_len, chunk)
}

/// No multiple of `chunk` lies strictly between a multiple `a` and `a + chunk`.
proof fn lemma_no_multiple_inside(a: int, p: int, chunk: int)
    requires
        0 < chunk,
        0 <= a,
        a % chunk == 0,
        a < p < a + chunk,
    ensures
        p % chunk != 0,
{
    vstd::arithmetic::div_mod::lemma_fundamental_div_mod(a, chunk);
    vstd::arithmetic::div_mod::lemma_fundamental_div_mod(p, chunk);
    vstd::arithmetic::div_mod::lemma_mod_bound(p, chunk);
    if p % chunk == 0 {
        assert(false) by (nonlinear_arith)
            requires
                0 < chunk,
                a == chunk * (a / chunk),
                p == chunk * (p / chunk),
                a < p < a + chunk,
        {
            if p / chunk <= a / chunk {
                vstd::arithmetic::mul::lemma_mul_inequality(p / chunk, a / chunk, chunk);
            } else {
                vstd::arithmetic::mul::lemma_mul_inequality(a / chunk + 1, p / chunk, chunk);
            }
        }
    }
}

/// `a + chunk` is a multiple of `chunk` when `a` is.
proof fn lemma_next_multiple(a: int, chunk: int)
    requires
        0 < chunk,
        0 <= a,
        a % chunk == 0,
    ensures
        (a + chunk) % chunk == 0,
{
    vstd::arithmetic::div_mod::lemma_mod_add_multiples_vanish(a, chunk);
}

/// The shard lies within the segments of the given lengths.
pub open spec fn shard_fits(s: DequeShard, front_len: int, back_len: int) -> bool {
    match s.segment {
        DequeSegment::Front => s.offset + s.len <= front_len,
        DequeSegment::Back => s.offset + s.len <= back_len,
    }
}

/// The values a shard covers in the segments `front` and `back`.
pub open spec fn shard_values<T>(s: DequeShard, front: Seq<T>, back: Seq<T>) -> Seq<T> {
    match s.segment {
        DequeSegment::Front => front.subrange(s.offset as int, s.offset + s.len),
        DequeSegment::Back => back.subrange(s.offset as int, s.offset + s.len),
    }
}

impl DequeShard {
    /// The shard's values as a slice of its segment.
    pub fn read_slice<'a, T>(self, front: &'a [T], back: &'a [T]) -> (r: &'a [T])
        requires
            shard_fits(self, front@.len() as int, back@.len() as int),
        ensures
            r@ == shard_values(self, front@, back@),
    {
        let front_len = front.len();
        let back_len = back.len();
        match self.segment {
            DequeSegment::Front => slice_range(front, self.offset, self.offset + self.len),
            DequeSegment::Back => slice_range(back, self.offset, self.offset + self.len),
        }
    }
}

/// The sub-slice `s[lo..hi]`.
fn slice_range<T>(s: &[T], lo: usize, hi: usize) -> (r: &[T])
    requires
        lo <= hi <= s@.len(),
    ensures
        r@ == s@.subrange(lo as int, hi as int),
{
    &s[lo..hi]
}

/// `res` is a result `f` may return for the shard's logical start and values.
pub open spec fn read_result<T, R, F: Fn(usize, &[T]) -> R>(
    f: F,
    s: DequeShard,
    front: Seq<T>,
    back: Seq<T>,
    res: R,
) -> bool {
    exists|values: &[T]|
        #![trigger f.ensures((s.start, values), res)]
        values@ == shard_values(s, front, back) && f.ensures((s.start, values), res)
}

/// `res` is a result `f` may return when handed, with the shard's logical
/// start, exclusive access to the shard's values.
pub open spec fn write_result<T, R, F: Fn(usize, &mut [T]) -> R>(
    f: F,
    s: DequeShard,
    front: Seq<T>,
    back: Seq<T>,
    res: R,
) -> bool {
    exists|values: &mut [T]|
        #![trigger f.ensures((s.start, values), res)]
        values@ == shard_values(s, front, back) && f.ensures((s.start, values), res)
}

/// Every shard of a plan lies within the segments it was planned for.
pub proof fn lemma_plan_fits(s: Seq<DequeShard>, front_len: int, back_len: int, chunk: int)
    requires
        plan_of(s, front_len, back_len, chunk),
    ensures
        forall|i: int| 0 <= i < s.len() ==> shard_fits(#[trigger] s[i], front_len, back_len),
{
    assert forall|i: int| 0 <= i < s.len() implies shard_fits(#[trigger] s[i], front_len, back_len) by {
        assert(shard_placed(s[i], front_len, back_len));
    }
}

/// `r` holds, in partition order, a result `f` may return for each shard of
/// the plan for `front` and `back` cut into chunks of `chunk` values.
pub open spec fn partitioned_read<T, R, F: Fn(usize, &[T]) -> R>(
    f: F,
    front: Seq<T>,
    back: Seq<T>,
    chunk: int,
    r: Seq<R>,
) -> bool {
    exists|s: Seq<DequeShard>|
        #![trigger plan_of(s, front.len() as int, back.len() as int, chunk)]
        {
            &&& plan_of(s, front.len() as int, back.len() as int, chunk)
            &&& r.len() == s.len()
            &&& forall|i: int| 0 <= i < r.len() ==> read_result(f, s[i], front, back, #[trigger] r[i])
        }
}

/// `r` holds, in partition order, a result `f` may return when handed
/// exclusive access to each shard of the plan for `front` and `back` cut into
/// chunks of `chunk` values.
pub open spec fn partitioned_write<T, R, F: Fn(usize, &mut [T]) -> R>(
    f: F,
    front: Seq<T>,
    back: Seq<T>,
    chunk: int,
    r: Seq<R>,
) -> bool {
    exists|s: Seq<DequeShard>|
        #![trigger plan_of(s, front.len() as int, back.len() as int, chunk)]
        {
            &&& plan_of(s, front.len() as int, back.len() as int, chunk)
            &&& r.len() == s.len()
            &&& forall|i: int| 0 <= i < r.len() ==> write_result(f, s[i], front, back, #[trigger] r[i])
        }
}

/// The first `k` pieces over a plan's shards, each holding `g` of its shard's
/// logical positions, hold `g` of the positions up to the end of the `k`-th.
proof fn lemma_pieces_prefix<T>(
    s: Seq<DequeShard>,
    front_len: int,
    back_len: int,
    chunk: int,
    posts: Seq<Seq<T>>,
    g: spec_fn(int) -> T,
    k: int,
)
    requires
        plan_of(s, front_len, back_len, chunk),
        posts.len() == s.len(),
        forall|i: int|
            0 <= i < s.len() ==> #[trigger] posts[i] == Seq::new(s[i].len as nat, |o: int| g(s[i].start + o)),
        0 <= k <= s.len(),
    ensures
        flatten(posts.take(k)) == Seq::new(
            (if k == 0 { 0 } else { shard_end(s[k - 1]) }) as nat,
            g,
        ),
    decreases k,
{
    if k == 0 {
        assert(flatten(posts.take(0)) =~= Seq::new(0, g));
    } else {
        lemma_pieces_prefix(s, front_len, back_len, chunk, posts, g, k - 1);
        assert(posts.take(k).drop_last() =~= posts.take(k - 1));
        assert(posts.take(k).last() == posts[k - 1]);
        assert(shard_placed(s[k - 1], front_len, back_len));
        let lo: int = if k - 1 == 0 { 0 } else { shard_end(s[k - 2]) };
        if k - 1 > 0 {
            assert(shard_end(s[k - 2]) == s[k - 1].start);
        }
        assert(lo == s[k - 1].start);
        let piece = posts[k - 1];
        assert(Seq::new(lo as nat, g) + piece =~= Seq::new(shard_end(s[k - 1]) as nat, g));
    }
}

/// Pieces laid over the shards of a plan, each holding `g` of the logical
/// positions its shard covers, lay `g` out over the whole queue: writing a
/// value determined by its logical position through every shard leaves the
/// queue holding exactly those values, in logical order.
pub proof fn law_plan_pieces_pointwise<T>(
    s: Seq<DequeShard>,
    front_len: int,
    back_len: int,
    chunk: int,
    posts: Seq<Seq<T>>,
    g: spec_fn(int) -> T,
)
    requires
        plan_of(s, front_len, back_len, chunk),
        0 <= front_len,
        0 <= back_len,
        posts.len() == s.len(),
        forall|i: int|
            0 <= i < s.len() ==> #[trigger] posts[i] == Seq::new(s[i].len as nat, |o: int| g(s[i].start + o)),
    ensures
        flatten(posts) == Seq::new((front_len + back_len) as nat, g),
{
    lemma_pieces_prefix(s, front_len, back_len, chunk, posts, g, s.len() as int);
    assert(posts.take(s.len() as int) =~= posts);
    if s.len() == 0 {
        assert(flatten(posts) =~= Seq::new((front_len + back_len) as nat, g));
    }
}

/// The chunk length a plan actually uses: the requested length, clamped to
/// at least `1`.
pub open spec fn clamped_chunk(chunk_len: usize) -> int {
    if chunk_len == 0 { 1 } else { chunk_len as int }
}

/// Cutting `len` values off the front of `s[a..hi]` leaves `s[a + len..hi]`
/// and takes `s[a..a + len]`.
proof fn lemma_cut_front<X>(s: Seq<X>, a: int, len: int, hi: int)
    requires
        0 <= a,
        0 <= len,
        a + len <= hi <= s.len(),
    ensures
        s.subrange(a, hi).subrange(0, len) == s.subrange(a, a + len),
        s.subrange(a, hi).subrange(len, hi - a) == s.subrange(a + len, hi),
{
    assert(s.subrange(a, hi).subrange(0, len) =~= s.subrange(a, a + len));
    assert(s.subrange(a, hi).subrange(len, hi - a) =~= s.subrange(a + len, hi));
}

/// Two shards of plans for the same lengths and chunk size that start at the
/// same place are the same shard.
#[verifier::rlimit(80)]
#[verifier::spinoff_prover]
proof fn lemma_same_start_same_shard(
    s1: Seq<DequeShard>,
    s2: Seq<DequeShard>,
    front_len: int,
    back_len: int,
    chunk: int,
    i: int,
)
    requires
        plan_of(s1, front_len, back_len, chunk),
        plan_of(s2, front_len, back_len, chunk),
        0 <= front_len,
        0 <= back_len,
        0 <= i < s1.len(),
        i < s2.len(),
        s1[i].start == s2[i].start,
    ensures
        s1[i] == s2[i],
{
    let total = front_len + back_len;
    let a = s1[i];
    let b = s2[i];
    assert(shard_placed(a, front_len, back_len));
    assert(shard_placed(b, front_len, back_len));
    let ea = shard_end(a);
    let eb = shard_end(b);
    // Each end is a cut point or the end of the range, and no cut point lies
    // strictly inside either shard, so the two ends coincide.
    if i + 1 < s1.len() {
        assert(is_cut(s1[i + 1].start as int, front_len, chunk));
    }
    if i + 1 < s2.len() {
        assert(is_cut(s2[i + 1].start as int, front_len, chunk));
    }
    if i + 1 >= s1.len() {
        assert(i == s1.len() - 1);
    }
    if i + 1 >= s2.len() {
        assert(i == s2.len() - 1);
    }
    if ea < eb {
        if i + 1 < s1.len() {
            assert(!is_cut(ea, front_len, chunk));
        }
    }
    if eb < ea {
        if i + 1 < s2.len() {
            assert(!is_cut(eb, front_len, chunk));
        }
    }
    assert(ea == eb);
}

/// Plans for the same lengths and chunk size agree on every shard they both
/// have up to index `i`.
#[verifier::spinoff_prover]
proof fn lemma_plan_prefix(
    s1: Seq<DequeShard>,
    s2: Seq<DequeShard>,
    front_len: int,
    back_len: int,
    chunk: int,
    i: int,
)
    requires
        plan_of(s1, front_len, back_len, chunk),
        plan_of(s2, front_len, back_len, chunk),
        0 <= front_len,
        0 <= back_len,
        0 <= i <= s1.len(),
        i <= s2.len(),
    ensures
        forall|k: int| 0 <= k < i ==> s1[k] == s2[k],
    decreases i,
{
    if i > 0 {
        lemma_plan_prefix(s1, s2, front_len, back_len, chunk, i - 1);
        if i - 1 > 0 {
            assert(s1[i - 2] == s2[i - 2]);
            assert(shard_end(s1[i - 2]) == s1[i - 1].start);
            assert(shard_end(s2[i - 2]) == s2[i - 1].start);
        }
        lemma_same_start_same_shard(s1, s2, front_len, back_len, chunk, i - 1);
    }
}

/// A plan is determined by the lengths and the chunk size: two sequences of
/// shards that are both the plan for them are equal.
pub proof fn law_plan_is_unique(
    s1: Seq<DequeShard>,
    s2: Seq<DequeShard>,
    front_len: int,
    back_len: int,
    chunk: int,
)
    requires
        0 <= front_len,
        0 <= back_len,
        0 < chunk,
        plan_of(s1, front_len, back_len, chunk),
        plan_of(s2, front_len, back_len, chunk),
    ensures
        s1 == s2,
{
    let n = if s1.len() < s2.len() { s1.len() } else { s2.len() };
    lemma_plan_prefix(s1, s2, front_len, back_len, chunk, n as int);
    if s1.len() != s2.len() {
        if s1.len() < s2.len() {
            if n > 0 {
                assert(s1[n - 1] == s2[n - 1]);
                assert(shard_end(s2[n - 1]) == s2[n as int].start);
            }
            assert(shard_placed(s2[n as int], front_len, back_len));
        } else {
            if n > 0 {
                assert(s1[n - 1] == s2[n - 1]);
                assert(shard_end(s1[n - 1]) == s1[n as int].start);
            }
            assert(shard_placed(s1[n as int], front_len, back_len));
        }
    }
    assert(s1 =~= s2);
}

/// In a plan for a queue that does not wrap, shard `i` starts at `i * chunk`.
proof fn lemma_unwrapped_start(s: Seq<DequeShard>, total: int, chunk: int, i: int)
    requires
        0 <= total,
        0 < chunk,
        plan_of(s, total, 0, chunk),
        0 <= i < s.len(),
    ensures
        s[i].start == i * chunk,
    decreases i,
{
    if i > 0 {
        lemma_unwrapped_start(s, total, chunk, i - 1);
        let a = (i - 1) * chunk;
        let p = s[i].start as int;
        assert(a + chunk == i * chunk) by (nonlinear_arith)
            requires
                a == (i - 1) * chunk,
        ;
        assert(0 <= a) by (nonlinear_arith)
            requires
                0 < i,
                0 < chunk,
                a == (i - 1) * chunk,
        ;
        vstd::arithmetic::div_mod::lemma_mod_multiples_basic(i - 1, chunk);
        assert(a % chunk == 0);
        lemma_next_multiple(a, chunk);
        assert(shard_placed(s[i - 1], total, 0));
        assert(shard_placed(s[i], total, 0));
        assert(shard_end(s[i - 1]) == p);
        assert(is_cut(p, total, chunk));
        assert(p < total);
        assert(p % chunk == 0);
        if p < a + chunk {
            lemma_no_multiple_inside(a, p, chunk);
        }
        if p > a + chunk {
            assert(is_cut(a + chunk, total, chunk));
            assert(s[i - 1].start < a + chunk < shard_end(s[i - 1]));
        }
    } else {
        assert(0 * chunk == 0);
    }
}

/// Where the queue does not wrap, its plan is exactly its logical chunks:
/// shard `i` lies in the front segment at `i * chunk` and holds `chunk`
/// values, but for the last, which holds the rest (at least one value and at
/// most `chunk`).
pub proof fn law_plan_unwrapped_is_chunks(s: Seq<DequeShard>, total: int, chunk: int)
    requires
        0 <= total,
        0 < chunk,
        plan_of(s, total, 0, chunk),
    ensures
        forall|i: int|
            0 <= i < s.len() ==> {
                &&& (#[trigger] s[i]).start == i * chunk
                &&& s[i].segment == DequeSegment::Front
                &&& s[i].offset == s[i].start
                &&& (i + 1 < s.len() ==> s[i].len == chunk)
                &&& (i + 1 == s.len() ==> s[i].len == total - i * chunk && s[i].len <= chunk)
            },
{
    assert forall|i: int| 0 <= i < s.len() implies {
        &&& (#[trigger] s[i]).start == i * chunk
        &&& s[i].segment == DequeSegment::Front
        &&& s[i].offset == s[i].start
        &&& (i + 1 < s.len() ==> s[i].len == chunk)
        &&& (i + 1 == s.len() ==> s[i].len == total - i * chunk && s[i].len <= chunk)
    } by {
        lemma_unwrapped_start(s, total, chunk, i);
        assert(shard_placed(s[i], total, 0));
        let a = i * chunk;
        assert(a + chunk == (i + 1) * chunk) by (nonlinear_arith)
            requires
                a == i * chunk,
        ;
        if i + 1 < s.len() {
            lemma_unwrapped_start(s, total, chunk, i + 1);
            assert(shard_end(s[i]) == s[i + 1].start);
        } else {
            assert(shard_end(s[i]) == total);
            if s[i].len > chunk {
                assert(0 <= a) by (nonlinear_arith)
                    requires
                        0 <= i,
                        0 < chunk,
                        a == i * chunk,
                ;
                vstd::arithmetic::div_mod::lemma_mod_multiples_basic(i, chunk);
                lemma_next_multiple(a, chunk);
                assert(is_cut(a + chunk, total, chunk));
                assert(s[i].start < a + chunk < shard_end(s[i]));
            }
        }
    }
}

/// The values of the shards of `s`, in order, laid end to end.
pub open spec fn plan_values<T>(s: Seq<DequeShard>, front: Seq<T>, back: Seq<T>) -> Seq<T>
    decreases s.len(),
{
    if s.len() == 0 {
        Seq::empty()
    } else {
        plan_values(s.drop_last(), front, back) + shard_values(s.last(), front, back)
    }
}

/// A placed shard covers exactly its logical range of `front + back`.
proof fn lemma_shard_values_in_place<T>(sh: DequeShard, front: Seq<T>, back: Seq<T>)
    requires
        shard_placed(sh, front.len() as int, back.len() as int),
    ensures
        shard_values(sh, front, back) == (front + back).subrange(sh.start as int, shard_end(sh)),
{
    let all = front + back;
    assert(shard_values(sh, front, back) =~= all.subrange(sh.start as int, shard_end(sh)));
}

/// The first `k` shards of a plan cover the logical prefix up to the end of
/// the `k`-th.
proof fn lemma_plan_prefix_values<T>(s: Seq<DequeShard>, front: Seq<T>, back: Seq<T>, chunk: int, k: int)
    requires
        plan_of(s, front.len() as int, back.len() as int, chunk),
        0 <= k <= s.len(),
    ensures
        plan_values(s.take(k), front, back) == (front + back).subrange(
            0,
            if k == 0 { 0 } else { shard_end(s[k - 1]) },
        ),
    decreases k,
{
    let all = front + back;
    if k == 0 {
        assert(plan_values(s.take(0), front, back) =~= all.subrange(0, 0));
    } else {
        lemma_plan_prefix_values(s, front, back, chunk, k - 1);
        assert(s.take(k).drop_last() =~= s.take(k - 1));
        assert(s.take(k).last() == s[k - 1]);
        assert(shard_placed(s[k - 1], front.len() as int, back.len() as int));
        lemma_shard_values_in_place(s[k - 1], front, back);
        let lo: int = if k - 1 == 0 { 0 } else { shard_end(s[k - 2]) };
        if k - 1 > 0 {
            assert(shard_end(s[k - 2]) == s[k - 1].start);
        }
        assert(lo == s[k - 1].start);
        assert(all.subrange(0, lo) + all.subrange(lo, shard_end(s[k - 1])) =~= all.subrange(
            0,
            shard_end(s[k - 1]),
        ));
    }
}

/// The shards of a plan cover the queue exactly once, in logical order: their
/// values laid end to end are the front segment followed by the back one.
pub proof fn law_plan_covers_in_order<T>(s: Seq<DequeShard>, front: Seq<T>, back: Seq<T>, chunk: int)
    requires
        plan_of(s, front.len() as int, back.len() as int, chunk),
    ensures
        plan_values(s, front, back) == front + back,
{
    lemma_plan_prefix_values(s, front, back, chunk, s.len() as int);
    assert(s.take(s.len() as int) =~= s);
    assert((front + back).subrange(0, (front + back).len() as int) =~= front + back);
    if s.len() == 0 {
        assert(front + back =~= Seq::<T>::empty());
    }
}

/// `i` indexes a sequence of `n` items.
pub open spec fn index_in(i: int, n: int) -> bool {
    0 <= i < n
}

/// The pieces of `parts` laid end to end, in order.
pub open spec fn flatten<T>(parts: Seq<Seq<T>>) -> Seq<T>
    decreases parts.len(),
{
    if parts.len() == 0 {
        Seq::empty()
    } else {
        flatten(parts.drop_last()) + parts.last()
    }
}

/// Laying one more piece down extends the flattened sequence by it.
pub proof fn lemma_flatten_push<T>(parts: Seq<Seq<T>>, piece: Seq<T>)
    ensures
        flatten(parts.push(piece)) == flatten(parts) + piece,
{
    assert(parts.push(piece).drop_last() =~= parts);
}

/// Flattening two runs of pieces one after the other flattens each in turn.
pub proof fn lemma_flatten_append<T>(a: Seq<Seq<T>>, b: Seq<Seq<T>>)
    ensures
        flatten(a + b) == flatten(a) + flatten(b),
    decreases b.len(),
{
    if b.len() == 0 {
        assert(a + b =~= a);
        assert(flatten(a) + flatten(b) =~= flatten(a));
    } else {
        lemma_flatten_append(a, b.drop_last());
        assert((a + b).drop_last() =~= a + b.drop_last());
        assert((a + b).last() == b.last());
        assert(flatten(a) + flatten(b.drop_last()) + b.last() =~= flatten(a) + (flatten(
            b.drop_last(),
        ) + b.last()));
    }
}

/// The disjoint shards of a queue's logical range, in logical order.
pub struct DequeShardPlan {
    shards: Vec<DequeShard>,
    front_len: Ghost<int>,
    back_len: Ghost<int>,
    chunk: Ghost<int>,
}

impl DequeShardPlan {
    /// The shards are the plan for the lengths and chunk size it was made with.
    #[verifier::type_invariant]
    closed spec fn wf(&self) -> bool {
        &&& 0 < self.chunk@
        &&& 0 <= self.front_len@
        &&& 0 <= self.back_len@
        &&& plan_of(self.shards@, self.front_len@, self.back_len@, self.chunk@)
    }

    /// The shards, in logical order.
    pub closed spec fn shard_seq(&self) -> Seq<DequeShard> {
        self.shards@
    }

    /// Length of the front segment the plan was made for.
    pub closed spec fn front_len(&self) -> int {
        self.front_len@
    }

    /// Length of the back segment the plan was made for.
    pub closed spec fn back_len(&self) -> int {
        self.back_len@
    }

    /// Logical chunk size the plan was made with.
    pub closed spec fn chunk(&self) -> int {
        self.chunk@
    }

    /// Plan shards for a queue whose storage segments hold `front_len` and
    /// `back_len` values, cutting its logical range into chunks of
    /// `chunk_len` values (clamped to at least `1`). A chunk that crosses the
    /// wrap is split into a front and a back shard.
    pub fn from_lengths(front_len: usize, back_len: usize, chunk_len: usize) -> (r: Self)
        requires
            front_len + back_len <= usize::MAX,
        ensures
            r.front_len() == front_len,
            r.back_len() == back_len,
            r.chunk() == clamped_chunk(chunk_len),
            plan_of(r.shard_seq(), r.front_len(), r.back_len(), r.chunk()),
    {
        let total = front_len + back_len;
        let chunk = if chunk_len == 0 { 1 } else { chunk_len };
        let ghost c = chunk as int;
        let ghost fl = front_len as int;
        let mut shards: Vec<DequeShard> = Vec::new();
        let mut start: usize = 0;
        while start < total
            invariant
                total == front_len + back_len,
                chunk == c,
                fl == front_len,
                0 < c,
                start <= total,
                (start as int) % c == 0 || start == total,
                shards@.len() == 0 <==> start == 0,
                shards@.len() > 0 ==> shards@[0].start == 0 && shard_end(shards@[shards@.len() - 1])
                    == start,
                forall|i: int|
                    0 <= i < shards@.len() ==> shard_placed(#[trigger] shards@[i], fl, back_len as int),
                forall|j: int|
                    0 < j < shards@.len() ==> shard_end(shards@[j - 1]) == (#[trigger] shards@[j]).start,
                forall|j: int|
                    0 < j < shards@.len() ==> is_cut((#[trigger] shards@[j]).start as int, fl, c),
                forall|i: int, p: int|
                    #![trigger shards@[i], is_cut(p, fl, c)]
                    0 <= i < shards@.len() && shards@[i].start < p < shard_end(shards@[i])
                        ==> !is_cut(p, fl, c),
            decreases total - start,
        {
            let end = if chunk < total - start { start + chunk } else { total };
            let ghost before = shards@;
            proof {
                assert forall|p: int| start < p < end implies #[trigger] is_cut(p, fl, c) == (p == fl) by {
                    lemma_no_multiple_inside(start as int, p, c);
                }
                if end < total {
                    lemma_next_multiple(start as int, c);
                }
            }
            if start < front_len {
                let front_end = if end < front_len { end } else { front_len };
                shards.push(
                    DequeShard {
                        start,
                        segment: DequeSegment::Front,
                        offset: start,
                        len: front_end - start,
                    },
                );
                proof {
                    assert forall|i: int, p: int|
                        #![trigger shards@[i], is_cut(p, fl, c)]
                        0 <= i < shards@.len() && shards@[i].start < p < shard_end(shards@[i])
                            implies !is_cut(p, fl, c) by {
                        if i < before.len() {
                            assert(shards@[i] == before[i]);
                        }
                    }
                }
            }
            if end > front_len {
                let lo = if start < front_len { front_len } else { start };
                let back_start = lo - front_len;
                let ghost mid = shards@;
                shards.push(
                    DequeShard {
                        start: front_len + back_start,
                        segment: DequeSegment::Back,
                        offset: back_start,
                        len: end - lo,
                    },
                );
                proof {
                    assert forall|i: int, p: int|
                        #![trigger shards@[i], is_cut(p, fl, c)]
                        0 <= i < shards@.len() && shards@[i].start < p < shard_end(shards@[i])
                            implies !is_cut(p, fl, c) by {
                        if i < mid.len() {
                            assert(shards@[i] == mid[i]);
                        }
                    }
                }
            }
            start = end;
        }
        DequeShardPlan {
            shards,
            front_len: Ghost(front_len as int),
            back_len: Ghost(back_len as int),
            chunk: Ghost(c),
        }
    }

    /// Run `f` on every shard's values with the shard's logical start, and
    /// return the results in partition order.
    pub fn map_read<T, R, F>(&self, front: &[T], back: &[T], f: F) -> (r: Vec<R>)
        where
            F: Fn(usize, &[T]) -> R,
        requires
            forall|i: int|
                0 <= i < self.shard_seq().len() ==> shard_fits(
                    #[trigger] self.shard_seq()[i],
                    front@.len() as int,
                    back@.len() as int,
                ),
            forall|start: usize, values: &[T]| f.requires((start, values)),
        ensures
            r@.len() == self.shard_seq().len(),
            forall|i: int|
                0 <= i < r@.len() ==> read_result(f, self.shard_seq()[i], front@, back@, #[trigger] r@[i]),
    {
        let mut out: Vec<R> = Vec::new();
        let mut i: usize = 0;
        while i < self.shards.len()
            invariant
                i <= self.shards@.len(),
                out@.len() == i,
                forall|k: int|
                    0 <= k < self.shards@.len() ==> shard_fits(
                        #[trigger] self.shard_seq()[k],
                        front@.len() as int,
                        back@.len() as int,
                    ),
                forall|start: usize, values: &[T]| f.requires((start, values)),
                forall|k: int|
                    0 <= k < i ==> read_result(f, self.shard_seq()[k], front@, back@, #[trigger] out@[k]),
            decreases self.shards@.len() - i,
        {
            let shard = self.shards[i];
            assert(shard_fits(self.shard_seq()[i as int], front@.len() as int, back@.len() as int));
            let values = shard.read_slice(front, back);
            let v = f(shard.start, values);
            let ghost prev = out@;
            out.push(v);
            proof {
                assert(values@ == shard_values(self.shard_seq()[i as int], front@, back@)
                    && f.ensures((self.shard_seq()[i as int].start, values), out@[i as int]));
                assert forall|k: int| 0 <= k < i implies read_result(
                    f,
                    self.shard_seq()[k],
                    front@,
                    back@,
                    #[trigger] out@[k],
                ) by {
                    assert(out@[k] == prev[k]);
                }
            }
            i = i + 1;
        }
        out
    }

    /// Run `f` on every shard's values with the shard's logical start, in
    /// partition order, discarding results.
    pub fn for_each_read<T, F>(&self, front: &[T], back: &[T], f: F)
        where
            F: Fn(usize, &[T]),
        requires
            forall|i: int|
                0 <= i < self.shard_seq().len() ==> shard_fits(
                    #[trigger] self.shard_seq()[i],
                    front@.len() as int,
                    back@.len() as int,
                ),
            forall|start: usize, values: &[T]| f.requires((start, values)),
        ensures
            forall|i: int|
                #![trigger self.shard_seq()[i]]
                0 <= i < self.shard_seq().len() ==> read_result(f, self.shard_seq()[i], front@, back@, ()),
    {
        let r = self.map_read(front, back, f);
        assert forall|i: int|
            #![trigger self.shard_seq()[i]]
            0 <= i < self.shard_seq().len() implies read_result(f, self.shard_seq()[i], front@, back@, ()) by {
            assert(r@[i] == ());
        }
    }

    /// Hand every shard's values to `f` as a disjoint exclusive slice, with
    /// the shard's logical start, in partition order, and return the results
    /// in that order.
    pub fn map_mut<T, R, F>(&self, front: &mut [T], back: &mut [T], f: F) -> (r: Vec<R>)
        where
            F: Fn(usize, &mut [T]) -> R,
        requires
            old(front)@.len() == self.front_len(),
            old(back)@.len() == self.back_len(),
            forall|start: usize, values: &mut [T]| f.requires((start, values)),
        ensures
            r@.len() == self.shard_seq().len(),
            forall|i: int|
                0 <= i < r@.len() ==> write_result(
                    f,
                    self.shard_seq()[i],
                    old(front)@,
                    old(back)@,
                    #[trigger] r@[i],
                ),
            final(front)@.len() == old(front)@.len(),
            final(back)@.len() == old(back)@.len(),
            exists|posts: Seq<Seq<T>>|
                #![trigger flatten(posts)]
                {
                    &&& posts.len() == r@.len()
                    &&& final(front)@ + final(back)@ == flatten(posts)
                    &&& forall|i: int|
                        #[trigger] index_in(i, posts.len() as int) ==> exists|values: &mut [T]|
                            #![trigger f.ensures((self.shard_seq()[i].start, values), r@[i])]
                            {
                                &&& values@ == shard_values(self.shard_seq()[i], old(front)@, old(back)@)
                                &&& final(values)@ == posts[i]
                                &&& final(values)@.len() == values@.len()
                                &&& f.ensures((self.shard_seq()[i].start, values), r@[i])
                            }
                },
    {
        proof {
            use_type_invariant(self);
        }
        let ghost fl = self.front_len();
        let ghost bl = self.back_len();
        let ghost f0 = front@;
        let ghost b0 = back@;
        let ghost fin_f = final(front)@;
        let ghost fin_b = final(back)@;
        let ghost shards = self.shard_seq();
        let mut out: Vec<R> = Vec::new();
        let mut rest_front: &mut [T] = whole_slice_mut(front);
        let mut rest_back: &mut [T] = whole_slice_mut(back);
        let mut i: usize = 0;
        let ghost mut pf: int = 0;
        let ghost mut pb: int = 0;
        let ghost mut posts: Seq<Seq<T>> = Seq::empty();
        let ghost mut fposts: Seq<Seq<T>> = Seq::empty();
        let ghost mut bposts: Seq<Seq<T>> = Seq::empty();
        proof {
            assert(plan_of(shards, fl, bl, self.chunk()));
            assert(f0.subrange(0, fl) =~= f0);
            assert(b0.subrange(0, bl) =~= b0);
            assert(fin_f == final(rest_front)@);
            assert(fin_b == final(rest_back)@);
            assert(fin_f.len() == fl);
            assert(fin_b.len() == bl);
            assert(flatten(fposts) + final(rest_front)@ =~= fin_f);
            assert(flatten(bposts) + final(rest_back)@ =~= fin_b);
        }
        while i < self.shards.len()
            invariant
                shards == self.shard_seq(),
                shards.len() > 0 ==> shards[0].start == 0 && shard_end(shards[shards.len() - 1])
                    == fl + bl,
                shards.len() == 0 ==> fl + bl == 0,
                forall|k: int| 0 <= k < shards.len() ==> shard_placed(#[trigger] shards[k], fl, bl),
                forall|j: int|
                    0 < j < shards.len() ==> shard_end(shards[j - 1]) == (#[trigger] shards[j]).start,
                0 <= fl,
                0 <= bl,
                f0.len() == fl,
                b0.len() == bl,
                i <= shards.len(),
                out@.len() == i,
                0 <= pf <= fl,
                0 <= pb <= bl,
                i < shards.len() ==> shards[i as int].start == pf + pb,
                i < shards.len() ==> pb > 0 ==> pf == fl,
                i == shards.len() ==> pf == fl && pb == bl,
                rest_front@ == f0.subrange(pf, fl),
                rest_back@ == b0.subrange(pb, bl),
                forall|start: usize, values: &mut [T]| f.requires((start, values)),
                forall|k: int| 0 <= k < i ==> write_result(f, shards[k], f0, b0, #[trigger] out@[k]),
                posts.len() == i,
                posts == fposts + bposts,
                pb == 0 ==> bposts.len() == 0,
                fin_f.len() == fl,
                fin_b.len() == bl,
                fin_f == flatten(fposts) + final(rest_front)@,
                fin_b == flatten(bposts) + final(rest_back)@,
                forall|k: int|
                    #[trigger] index_in(k, i as int) ==> exists|values: &mut [T]|
                        #![trigger f.ensures((shards[k].start, values), out@[k])]
                        {
                            &&& values@ == shard_values(shards[k], f0, b0)
                            &&& final(values)@ == posts[k]
                            &&& final(values)@.len() == values@.len()
                            &&& f.ensures((shards[k].start, values), out@[k])
                        },
            decreases shards.len() - i,
        {
            let shard = self.shards[i];
            assert(shard == shards[i as int]);
            assert(shard_placed(shard, fl, bl));
            let v;
            let ghost post: Seq<T>;
            match shard.segment {
                DequeSegment::Front => {
                    proof {
                        lemma_cut_front(f0, pf, shard.len as int, fl);
                    }
                    let ghost rest_fin = final(rest_front)@;
                    let (piece, tail) = rest_front.split_at_mut(shard.len);
                    let values = whole_slice_mut(piece);
                    assert(rest_fin == final(values)@ + final(tail)@);
                    let ghost fin_tail = final(tail)@;
                    rest_front = tail;
                    assert(final(rest_front)@ == fin_tail);
                    assert(values@ == shard_values(shard, f0, b0));
                    let ghost pre = values@;
                    let ghost fin_values = final(values)@;
                    v = f(shard.start, values);
                    proof {
                        post = values@;
                    }
                    assert(fin_values == post);
                    assert(write_result(f, shard, f0, b0, v));
                    assert(post.len() == pre.len());
                    assert(exists|x: &mut [T]| x@ == pre && final(x)@ == post && final(x)@.len() == x@.len() && f.ensures((shard.start, x), v));
                    proof {
                        assert(pb == 0);
                        lemma_flatten_push(fposts, post);
                        assert(rest_fin == post + final(rest_front)@);
                        assert(flatten(fposts) + post + final(rest_front)@ =~= flatten(fposts) + (post
                            + final(rest_front)@));
                        fposts = fposts.push(post);
                        assert(fposts + bposts =~= posts.push(post));
                        pf = pf + shard.len;
                    }
                },
                DequeSegment::Back => {
                    proof {
                        lemma_cut_front(b0, pb, shard.len as int, bl);
                    }
                    let ghost rest_fin = final(rest_back)@;
                    let (piece, tail) = rest_back.split_at_mut(shard.len);
                    let values = whole_slice_mut(piece);
                    rest_back = tail;
                    assert(values@ == shard_values(shard, f0, b0));
                    let ghost pre = values@;
                    let ghost fin_values = final(values)@;
                    v = f(shard.start, values);
                    proof {
                        post = values@;
                    }
                    assert(fin_values == post);
                    assert(write_result(f, shard, f0, b0, v));
                    assert(post.len() == pre.len());
                    assert(exists|x: &mut [T]| x@ == pre && final(x)@ == post && final(x)@.len() == x@.len() && f.ensures((shard.start, x), v));
                    proof {
                        lemma_flatten_push(bposts, post);
                        assert(rest_fin == post + final(rest_back)@);
                        assert(flatten(bposts) + post + final(rest_back)@ =~= flatten(bposts) + (post
                            + final(rest_back)@));
                        bposts = bposts.push(post);
                        assert(fposts + bposts =~= posts.push(post));
                        pf = fl;
                        pb = pb + shard.len;
                    }
                },
            }
            let ghost out0 = out@;
            let ghost posts0 = posts;
            out.push(v);
            proof {
                posts = posts.push(post);
                assert forall|k: int|
                    #[trigger] index_in(k, i + 1) implies exists|values: &mut [T]|
                        #![trigger f.ensures((shards[k].start, values), out@[k])]
                        {
                            &&& values@ == shard_values(shards[k], f0, b0)
                            &&& final(values)@ == posts[k]
                            &&& final(values)@.len() == values@.len()
                            &&& f.ensures((shards[k].start, values), out@[k])
                        } by {
                    if k < i {
                        assert(index_in(k, i as int));
                        assert(out@[k] == out0[k]);
                        assert(posts[k] == posts0[k]);
                    } else {
                        assert(out@[k] == v);
                        assert(posts[k] == post);
                    }
                }
                if i + 1 < shards.len() {
                    assert(shard_end(shards[i as int]) == shards[i + 1].start);
                    assert(shard_placed(shards[i + 1], fl, bl));
                } else {
                    assert(shard_end(shards[i as int]) == fl + bl);
                }
            }
            i = i + 1;
        }
        proof {
            assert(rest_front@ =~= Seq::<T>::empty());
            assert(rest_back@ =~= Seq::<T>::empty());
        }
        let ghost fr = final(rest_front)@;
        let ghost br = final(rest_back)@;
        assert(fr =~= Seq::<T>::empty());
        assert(br =~= Seq::<T>::empty());
        proof {
            lemma_flatten_append(fposts, bposts);
            assert(flatten(fposts) + fr =~= flatten(fposts));
            assert(flatten(bposts) + br =~= flatten(bposts));
            assert(fin_f + fin_b == flatten(posts));
        }
        out
    }

    /// Hand every shard's values to `f` as a disjoint exclusive slice, with
    /// the shard's logical start, in partition order.
    pub fn for_each_mut<T, F>(&self, front: &mut [T], back: &mut [T], f: F)
        where
            F: Fn(usize, &mut [T]),
        requires
            old(front)@.len() == self.front_len(),
            old(back)@.len() == self.back_len(),
            forall|start: usize, values: &mut [T]| f.requires((start, values)),
        ensures
            forall|i: int|
                #![trigger self.shard_seq()[i]]
                0 <= i < self.shard_seq().len() ==> write_result(
                    f,
                    self.shard_seq()[i],
                    old(front)@,
                    old(back)@,
                    (),
                ),
            final(front)@.len() == old(front)@.len(),
            final(back)@.len() == old(back)@.len(),
            exists|posts: Seq<Seq<T>>|
                #![trigger flatten(posts)]
                {
                    &&& posts.len() == self.shard_seq().len()
                    &&& final(front)@ + final(back)@ == flatten(posts)
                    &&& forall|i: int|
                        #[trigger] index_in(i, posts.len() as int) ==> exists|values: &mut [T]|
                            #![trigger f.ensures((self.shard_seq()[i].start, values), ())]
                            {
                                &&& values@ == shard_values(self.shard_seq()[i], old(front)@, old(back)@)
                                &&& final(values)@ == posts[i]
                                &&& final(values)@.len() == values@.len()
                                &&& f.ensures((self.shard_seq()[i].start, values), ())
                            }
                },
    {
        let ghost f0 = front@;
        let ghost b0 = back@;
        let ghost fin = final(front)@ + final(back)@;
        let r = self.map_mut(front, back, f);
        assert forall|i: int|
            #![trigger self.shard_seq()[i]]
            0 <= i < self.shard_seq().len() implies write_result(
                f,
                self.shard_seq()[i],
                f0,
                b0,
                (),
            ) by {
            assert(r@[i] == ());
        }
        proof {
            let posts = choose|posts: Seq<Seq<T>>|
                #![trigger flatten(posts)]
                {
                    &&& posts.len() == r@.len()
                    &&& fin == flatten(posts)
                    &&& forall|i: int|
                        #[trigger] index_in(i, posts.len() as int) ==> exists|values: &mut [T]|
                            #![trigger f.ensures((self.shard_seq()[i].start, values), r@[i])]
                            {
                                &&& values@ == shard_values(self.shard_seq()[i], f0, b0)
                                &&& final(values)@ == posts[i]
                                &&& final(values)@.len() == values@.len()
                                &&& f.ensures((self.shard_seq()[i].start, values), r@[i])
                            }
                };
            assert forall|i: int|
                #[trigger] index_in(i, posts.len() as int) implies exists|values: &mut [T]|
                    #![trigger f.ensures((self.shard_seq()[i].start, values), ())]
                    {
                        &&& values@ == shard_values(self.shard_seq()[i], f0, b0)
                        &&& final(values)@ == posts[i]
                        &&& final(values)@.len() == values@.len()
                        &&& f.ensures((self.shard_seq()[i].start, values), ())
                    } by {
                assert(r@[i] == ());
            }
            assert(fin == flatten(posts));
        }
    }

    /// Whether the plan has no shards (an empty queue).
    pub fn is_empty(&self) -> (r: bool)
        ensures
            r == (self.shard_seq().len() == 0),
            r == (self.front_len() + self.back_len() == 0),
    {
        proof {
            use_type_invariant(self);
        }
        self.shards.len() == 0
    }

    /// The shards, in logical order.
    pub fn shards(&self) -> (r: &[DequeShard])
        ensures
            r@ == self.shard_seq(),
    {
        self.shards.as_slice()
    }
}

} // verus!
