use vstd::prelude::*;
use vstd::std_specs::iter::IteratorSpec;

verus! {

/// Why drawing the resampled cloud from a stream of ancestor indices failed.
#[derive(Debug, Clone, Copy, PartialEq, Eq, Structural)]
pub enum GatherError {
    /// An ancestor index does not name a propagated particle.
    IndexOutOfRange,
    /// The stream yielded more ancestor indices than there are slots.
    TooManyIndices,
}

/// Every ancestor index names a particle of a cloud of `n` particles.
pub open spec fn indices_in_range(indices: Seq<u32>, n: int) -> bool {
    forall|i: int| 0 <= i < indices.len() ==> #[trigger] indices[i] < n
}

/// Ancestor indices are in range exactly when each one names a particle.
pub proof fn lemma_indices_in_range_means(indices: Seq<u32>, n: int)
    ensures
        indices_in_range(indices, n) <==> !exists|i: int|
            0 <= i < indices.len() && (#[trigger] indices[i]) >= n,
{
}

/// Resampling gather: slot `i` of `dst` becomes a clone of `src[indices[i]]`.
///
/// Returns `false`, leaving `dst` as it was, when some index is out of range.
pub fn gather<S: Clone>(dst: &mut [S], src: &[S], indices: &[u32]) -> (ok: bool)
    requires
        old(dst)@.len() == src@.len(),
        indices@.len() == src@.len(),
    ensures
        final(dst)@.len() == old(dst)@.len(),
        ok == indices_in_range(indices@, src@.len() as int),
        (forall|i: int| 0 <= i < indices@.len() ==> (#[trigger] indices@[i]) < src@.len()) ==> ok,
        !ok ==> exists|i: int| 0 <= i < indices@.len() && (#[trigger] indices@[i]) >= src@.len(),
        ok ==> forall|i: int|
            0 <= i < src@.len() ==> cloned(src@[indices@[i] as int], #[trigger] final(dst)@[i]),
        !ok ==> final(dst)@ == old(dst)@,
{
    let n = src.len();
    let mut k: usize = 0;
    while k < n
        invariant
            n == src@.len(),
            indices@.len() == n,
            k <= n,
            forall|i: int| 0 <= i < k ==> #[trigger] indices@[i] < n,
        decreases n - k,
    {
        if indices[k] as usize >= n {
            return false;
        }
        k = k + 1;
    }
    for i in 0..n
        invariant
            n == src@.len(),
            indices@.len() == n,
            dst@.len() == n,
            indices_in_range(indices@, n as int),
            forall|j: int| 0 <= j < i ==> cloned(src@[indices@[j] as int], #[trigger] dst@[j]),
    {
        let j = indices[i] as usize;
        assert(indices@[i as int] < n);
        let p = src[j].clone();
        dst[i] = p;
    }
    true
}

/// The first `k` slots of `after` are clones of particles of `src`, and the other
/// slots are as they were in `before`.
pub open spec fn drawn_prefix<S: Clone>(src: Seq<S>, before: Seq<S>, after: Seq<S>, k: int) -> bool {
    &&& 0 <= k <= before.len()
    &&& after.len() == before.len()
    &&& forall|i: int|
        0 <= i < k ==> exists|j: int| 0 <= j < src.len() && cloned(src[j], #[trigger] after[i])
    &&& forall|i: int| k <= i < before.len() ==> #[trigger] after[i] == before[i]
}

/// Number of slots a streaming gather into `n` slots from a source of `m` particles
/// fills when the stream yields `ys`, counting from slot `i`: it stops at the end of
/// the slots, at the end of the stream, or at the first index out of range.
pub open spec fn streamed_count(ys: Seq<u32>, n: int, m: int, i: int) -> int
    decreases n - i,
{
    if i < 0 || i >= n || i >= ys.len() || ys[i] >= m {
        i
    } else {
        streamed_count(ys, n, m, i + 1)
    }
}

/// What a streaming gather into `n` slots from a source of `m` particles returns
/// when the stream yields `ys`.
pub open spec fn streamed_result(ys: Seq<u32>, n: int, m: int) -> Result<usize, GatherError> {
    let k = streamed_count(ys, n, m, 0);
    if k < n && k < ys.len() {
        Err(GatherError::IndexOutOfRange)
    } else if ys.len() > n {
        Err(GatherError::TooManyIndices)
    } else {
        Ok(k as usize)
    }
}

/// Slot `i` of `after` is a clone of `src[ys[i]]` below `k`, and as in `before` from
/// `k` on.
pub open spec fn drawn_from<S: Clone>(
    src: Seq<S>,
    ys: Seq<u32>,
    before: Seq<S>,
    after: Seq<S>,
    k: int,
) -> bool {
    &&& after.len() == before.len()
    &&& forall|i: int| 0 <= i < k ==> cloned(src[ys[i] as int], #[trigger] after[i])
    &&& forall|i: int| k <= i < before.len() ==> #[trigger] after[i] == before[i]
}

proof fn lemma_streamed_count_skip(ys: Seq<u32>, n: int, m: int, i: int)
    requires
        0 <= i,
        i <= n,
        i <= ys.len(),
        forall|j: int| 0 <= j < i ==> (#[trigger] ys[j]) < m,
    ensures
        streamed_count(ys, n, m, 0) == streamed_count(ys, n, m, i),
    decreases i,
{
    if i > 0 {
        lemma_streamed_count_skip(ys, n, m, i - 1);
        assert(ys[i - 1] < m);
    }
}

proof fn lemma_streamed_count_stops(ys: Seq<u32>, n: int, m: int, i: int)
    requires
        0 <= i,
        i <= n,
        i <= ys.len(),
    ensures
        i <= streamed_count(ys, n, m, i) <= n,
        streamed_count(ys, n, m, i) <= ys.len(),
        forall|j: int| i <= j < streamed_count(ys, n, m, i) ==> (#[trigger] ys[j]) < m,
        streamed_count(ys, n, m, i) == n || streamed_count(ys, n, m, i) == ys.len() || ys[streamed_count(
            ys,
            n,
            m,
            i,
        )] >= m,
    decreases n - i,
{
    if i < n && i < ys.len() && ys[i] < m {
        lemma_streamed_count_stops(ys, n, m, i + 1);
    }
}

/// A streaming gather into `n` slots from `m` particles succeeds exactly when the
/// stream yields at most `n` indices, all in range, and then fills one slot per
/// index; it reports too many indices when the first `n` are in range and more
/// follow; and it reports an index out of range when one of the first `n` is.
pub proof fn lemma_streamed_result_means(ys: Seq<u32>, n: int, m: int)
    requires
        0 <= n,
    ensures
        (forall|i: int| 0 <= i < ys.len() ==> (#[trigger] ys[i]) < m) && ys.len() <= n
            ==> streamed_result(ys, n, m) == Ok::<usize, GatherError>(ys.len() as usize)
            && streamed_count(ys, n, m, 0) == ys.len(),
        (forall|i: int| 0 <= i < n ==> (#[trigger] ys[i]) < m) && ys.len() > n
            ==> streamed_result(ys, n, m) == Err::<usize, GatherError>(GatherError::TooManyIndices)
            && streamed_count(ys, n, m, 0) == n,
        (exists|i: int| 0 <= i < n && i < ys.len() && (#[trigger] ys[i]) >= m) ==> streamed_result(
            ys,
            n,
            m,
        ) == Err::<usize, GatherError>(GatherError::IndexOutOfRange),
{
    lemma_streamed_count_stops(ys, n, m, 0);
    let k = streamed_count(ys, n, m, 0);
    if exists|i: int| 0 <= i < n && i < ys.len() && (#[trigger] ys[i]) >= m {
        let i = choose|i: int| 0 <= i < n && i < ys.len() && (#[trigger] ys[i]) >= m;
        assert(k <= i);
    }
}

/// Resampling gather driven by a stream of ancestor indices: the `i`-th index the
/// stream yields fills slot `i` of `dst` with a clone of the particle it names.
///
/// Returns the number of slots filled when the stream runs dry. Fails when an index
/// is out of range, or when the stream yields an index after every slot is filled;
/// the slots filled before the failure keep their new values. For a stream whose
/// `next` follows the iterator laws, the outcome is `streamed_result` of the indices
/// it will yield, and each filled slot `i` is a clone of `src[ys[i]]`.
pub fn gather_streaming<S: Clone, I: Iterator<Item = u32>>(
    dst: &mut [S],
    src: &[S],
    indices: &mut I,
) -> (res: Result<usize, GatherError>)
    ensures
        final(dst)@.len() == old(dst)@.len(),
        res matches Ok(k) ==> drawn_prefix(src@, old(dst)@, final(dst)@, k as int),
        res == Err::<usize, GatherError>(GatherError::TooManyIndices) ==> drawn_prefix(
            src@,
            old(dst)@,
            final(dst)@,
            old(dst)@.len() as int,
        ),
        res == Err::<usize, GatherError>(GatherError::IndexOutOfRange) ==> exists|k: int|
            #[trigger] drawn_prefix(src@, old(dst)@, final(dst)@, k),
        <I as IteratorSpec>::obeys_prophetic_iter_laws(old(indices)) ==> {
            let ys = <I as IteratorSpec>::remaining(old(indices));
            &&& res == streamed_result(ys, old(dst)@.len() as int, src@.len() as int)
            &&& drawn_from(
                src@,
                ys,
                old(dst)@,
                final(dst)@,
                streamed_count(ys, old(dst)@.len() as int, src@.len() as int, 0),
            )
        },
{
    let n = dst.len();
    let mut i: usize = 0;
    loop
        invariant
            n == dst@.len(),
            n == old(dst)@.len(),
            i <= n,
            drawn_prefix(src@, old(dst)@, dst@, i as int),
            <I as IteratorSpec>::obeys_prophetic_iter_laws(indices) == <I as IteratorSpec>::obeys_prophetic_iter_laws(old(indices)),
            <I as IteratorSpec>::obeys_prophetic_iter_laws(old(indices)) ==> {
                let ys = <I as IteratorSpec>::remaining(old(indices));
                &&& i <= ys.len()
                &&& <I as IteratorSpec>::remaining(indices) == ys.skip(i as int)
                &&& forall|j: int| 0 <= j < i ==> (#[trigger] ys[j]) < src@.len()
                &&& streamed_count(ys, n as int, src@.len() as int, 0) == streamed_count(
                    ys,
                    n as int,
                    src@.len() as int,
                    i as int,
                )
                &&& drawn_from(src@, ys, old(dst)@, dst@, i as int)
            },
        decreases n - i,
    {
        match indices.next() {
            None => {
                return Ok(i);
            },
            Some(j) => {
                if i >= n {
                    return Err(GatherError::TooManyIndices);
                }
                let j = j as usize;
                if j >= src.len() {
                    assert(drawn_prefix(src@, old(dst)@, dst@, i as int));
                    return Err(GatherError::IndexOutOfRange);
                }
                let p = src[j].clone();
                dst[i] = p;
                assert(cloned(src@[j as int], dst@[i as int]));
                proof {
                    if <I as IteratorSpec>::obeys_prophetic_iter_laws(old(indices)) {
                        let ys = <I as IteratorSpec>::remaining(old(indices));
                        assert(ys[i as int] == j);
                        assert(ys.skip(i as int).drop_first() =~= ys.skip(i + 1));
                        lemma_streamed_count_skip(ys, n as int, src@.len() as int, i + 1);
                    }
                }
                i = i + 1;
            },
        }
    }
}

} // verus!
