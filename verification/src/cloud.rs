use vstd::prelude::*;
use crate::kinds::{buffer_error, BufferError, ResamplerKind};
use crate::propagate::{call_index, propagate_all, propagated_from};
use crate::resample::{
    drawn_from, drawn_prefix, gather, gather_streaming, indices_in_range, streamed_count,
    streamed_result, GatherError,
};
use vstd::std_specs::iter::IteratorSpec;

verus! {

/// The particle side of a particle filter: the current cloud, the scratch cloud
/// that propagation fills, and the index scratch that resampling uses, all borrowed
/// from the caller, plus the choice of resampling backend.
pub struct ParticleCloud<'a, S> {
    curr: &'a mut [S],
    next: &'a mut [S],
    indices: &'a mut [u32],
    resampler: ResamplerKind,
}

impl<'a, S> ParticleCloud<'a, S> {
    /// The current particles.
    pub closed spec fn particles_view(&self) -> Seq<S> {
        self.curr@
    }

    /// The scratch particles (after `propagate`, the propagated cloud).
    pub closed spec fn scratch_view(&self) -> Seq<S> {
        self.next@
    }

    /// The resampling index scratch.
    pub closed spec fn indices_view(&self) -> Seq<u32> {
        self.indices@
    }

    /// The borrowed buffer that holds the current particles.
    pub closed spec fn particles_buffer(&self) -> &'a mut [S] {
        self.curr
    }

    /// The borrowed buffer that holds the scratch particles.
    pub closed spec fn scratch_buffer(&self) -> &'a mut [S] {
        self.next
    }

    /// The borrowed index buffer.
    pub closed spec fn indices_buffer(&self) -> &'a mut [u32] {
        self.indices
    }

    /// The resampling backend.
    pub closed spec fn kind(&self) -> ResamplerKind {
        self.resampler
    }

    /// The two particle buffers share one nonzero length that fits in a `u32`. (The
    /// index buffer has that length when the cloud is built; `resample_buffered`
    /// hands it to a writer whose contract promises nothing about it, and checks its
    /// length again before drawing from it.)
    pub closed spec fn wf(&self) -> bool {
        &&& self.curr@.len() > 0
        &&& self.curr@.len() <= u32::MAX
        &&& self.next@.len() == self.curr@.len()
    }

    /// Borrows the buffers of a filter whose weight buffer has length `n_weights`.
    /// Fails, as the buffer rules in `buffer_error` say, when the lengths do not agree.
    /// The caller's buffers end up holding what the cloud's buffers hold when the
    /// cloud is dropped (see `lemma_dropped_cloud_hands_back`).
    pub fn new(curr: &'a mut [S], next: &'a mut [S], indices: &'a mut [u32], n_weights: usize) -> (res:
        Result<Self, BufferError>)
        ensures
            res matches Ok(c) ==> c.indices_view().len() == c.particles_view().len(),
            res matches Ok(c) ==> &*final(c.particles_buffer()) == &*final(curr),
            res matches Ok(c) ==> &*final(c.scratch_buffer()) == &*final(next),
            res matches Ok(c) ==> &*final(c.indices_buffer()) == &*final(indices),
            match buffer_error(
                old(curr)@.len(),
                old(next)@.len(),
                n_weights as nat,
                old(indices)@.len(),
            ) {
                None => res matches Ok(c) && c.wf() && c.particles_view() == old(curr)@
                    && c.scratch_view() == old(next)@ && c.indices_view() == old(indices)@
                    && c.kind() == ResamplerKind::Buffered,
                Some(e) => res matches Err(f) && f == e,
            },
    {
        match crate::kinds::check_buffer_lengths(curr.len(), next.len(), n_weights, indices.len()) {
            Ok(_) => Ok(ParticleCloud { curr, next, indices, resampler: ResamplerKind::Buffered }),
            Err(e) => Err(e),
        }
    }

    /// Selects the resampling backend.
    pub fn with_resampler(self, kind: ResamplerKind) -> (c: Self)
        ensures
            c.kind() == kind,
            c.particles_view() == self.particles_view(),
            c.scratch_view() == self.scratch_view(),
            c.indices_view() == self.indices_view(),
            &*final(c.particles_buffer()) == &*final(self.particles_buffer()),
            &*final(c.scratch_buffer()) == &*final(self.scratch_buffer()),
            &*final(c.indices_buffer()) == &*final(self.indices_buffer()),
            self.wf() ==> c.wf(),
    {
        let ParticleCloud { curr, next, indices, resampler: _ } = self;
        ParticleCloud { curr, next, indices, resampler: kind }
    }

    /// The resampling backend in use.
    pub fn resampler(&self) -> (k: ResamplerKind)
        ensures
            k == self.kind(),
    {
        self.resampler
    }

    /// Particle count `n`.
    pub fn n(&self) -> (n: usize)
        ensures
            n == self.particles_view().len(),
    {
        self.curr.len()
    }

    /// The current particle cloud.
    pub fn particles(&self) -> (p: &[S])
        ensures
            p@ == self.particles_view(),
    {
        &*self.curr
    }

    /// The scratch cloud; after `propagate`, the propagated particles.
    pub fn scratch(&self) -> (p: &[S])
        ensures
            p@ == self.scratch_view(),
    {
        &*self.next
    }

    /// The resampling index scratch.
    pub fn indices(&self) -> (p: &[u32])
        ensures
            p@ == self.indices_view(),
    {
        &*self.indices
    }

    /// Fills the scratch cloud: slot `i` gets the user's transition applied to
    /// particle `i`, one call per particle in index order, each call taking the random
    /// source as the call before left it.
    pub fn propagate<R: ?Sized, F: FnMut(&mut R, &S) -> S>(&mut self, propagate: &mut F, rng: &mut R)
        requires
            old(self).wf(),
            forall|r: &mut R, s: &S| call_requires(*old(propagate), (r, s)),
        ensures
            final(self).wf(),
            final(self).particles_view().len() == old(self).particles_view().len(),
            &*final(final(self).particles_buffer()) == &*final(old(self).particles_buffer()),
            &*final(final(self).scratch_buffer()) == &*final(old(self).scratch_buffer()),
            &*final(final(self).indices_buffer()) == &*final(old(self).indices_buffer()),
            final(self).particles_view() == old(self).particles_view(),
            final(self).indices_view() == old(self).indices_view(),
            final(self).kind() == old(self).kind(),
            final(self).scratch_view().len() == old(self).scratch_view().len(),
            forall|i: int|
                0 <= i < old(self).particles_view().len() ==> #[trigger] propagated_from::<S, R, F>(
                    old(self).particles_view()[i],
                    final(self).scratch_view()[i],
                ),
            exists|states: Seq<&R>|
                #![trigger states[0]]
                states.len() == old(self).particles_view().len() + 1 && states[0] == &*old(rng)
                    && states[old(self).particles_view().len() as int] == &*final(rng) && forall|i: int|
                    #[trigger] call_index(i, old(self).particles_view().len() as int) ==> exists|
                        x: &mut R,
                    |
                        #[trigger] call_ensures(
                            *old(propagate),
                            (x, &old(self).particles_view()[i]),
                            final(self).scratch_view()[i],
                        ) && &*x == states[i] && &*final(x) == states[i + 1],
    {
        propagate_all(propagate, rng, &*self.curr, &mut *self.next);
    }

    /// Importance-sampling step without resampling: the propagated cloud becomes the
    /// current cloud (the old current cloud becomes scratch).
    pub fn carry_forward(&mut self)
        requires
            old(self).wf(),
        ensures
            final(self).wf(),
            final(self).particles_view().len() == old(self).particles_view().len(),
            &*final(final(self).particles_buffer()) == &*final(old(self).scratch_buffer()),
            &*final(final(self).scratch_buffer()) == &*final(old(self).particles_buffer()),
            &*final(final(self).indices_buffer()) == &*final(old(self).indices_buffer()),
            final(self).particles_view() == old(self).scratch_view(),
            final(self).scratch_view() == old(self).particles_view(),
            final(self).indices_view() == old(self).indices_view(),
            final(self).kind() == old(self).kind(),
    {
        core::mem::swap(&mut self.curr, &mut self.next);
    }
}

/// Once a cloud is dropped, the caller's buffers hold what the cloud's buffers held:
/// the buffer that held the current particles holds them still, and likewise the
/// scratch and index buffers.
pub proof fn lemma_dropped_cloud_hands_back<'a, S>(c: ParticleCloud<'a, S>)
    requires
        has_resolved(c),
    ensures
        (*final(c.particles_buffer()))@ == c.particles_view(),
        (*final(c.scratch_buffer()))@ == c.scratch_view(),
        (*final(c.indices_buffer()))@ == c.indices_view(),
{
}

impl<'a, S: Clone> ParticleCloud<'a, S> {
    /// Buffered resampling: `fill` is called once on the index buffer and writes one
    /// ancestor index per slot, then slot `i` of the current cloud becomes a clone of propagated
    /// particle `indices[i]`. Fails, leaving the current cloud as it was, when an
    /// index is out of range.
    pub fn resample_buffered<F: FnOnce(&mut [u32])>(&mut self, fill: F) -> (res: Result<(), GatherError>)
        requires
            old(self).wf(),
            forall|x: &mut [u32]| call_requires(fill, (x,)),
        ensures
            final(self).wf(),
            final(self).particles_view().len() == old(self).particles_view().len(),
            &*final(final(self).particles_buffer()) == &*final(old(self).particles_buffer()),
            &*final(final(self).scratch_buffer()) == &*final(old(self).scratch_buffer()),
            &*final(final(self).indices_buffer()) == &*final(old(self).indices_buffer()),
            final(self).scratch_view() == old(self).scratch_view(),
            final(self).kind() == old(self).kind(),
            (res is Ok) == (final(self).indices_view().len() == old(self).particles_view().len()
                && indices_in_range(final(self).indices_view(), old(self).particles_view().len() as int)),
            res is Ok ==> forall|i: int|
                0 <= i < old(self).particles_view().len() ==> cloned(
                    old(self).scratch_view()[final(self).indices_view()[i] as int],
                    #[trigger] final(self).particles_view()[i],
                ),
            res is Err ==> res == Err::<(), GatherError>(GatherError::IndexOutOfRange)
                && final(self).particles_view() == old(self).particles_view(),
            exists|x: &mut [u32]|
                #[trigger] call_ensures(fill, (x,), ()) && (*x)@ == old(self).indices_view() && (
                *final(x))@ == final(self).indices_view(),
    {
        fill(&mut *self.indices);
        if self.indices.len() != self.curr.len() {
            return Err(GatherError::IndexOutOfRange);
        }
        if gather(&mut *self.curr, &*self.next, &*self.indices) {
            Ok(())
        } else {
            Err(GatherError::IndexOutOfRange)
        }
    }

    /// Streaming resampling: the `i`-th index the stream yields fills slot `i` of the
    /// current cloud with a clone of the propagated particle it names. The index
    /// buffer is not touched. For a stream that follows the iterator laws, the outcome
    /// is `streamed_result` of the indices it will yield.
    pub fn resample_streaming<I: Iterator<Item = u32>>(&mut self, stream: &mut I) -> (res: Result<
        usize,
        GatherError,
    >)
        requires
            old(self).wf(),
        ensures
            final(self).wf(),
            final(self).particles_view().len() == old(self).particles_view().len(),
            &*final(final(self).particles_buffer()) == &*final(old(self).particles_buffer()),
            &*final(final(self).scratch_buffer()) == &*final(old(self).scratch_buffer()),
            &*final(final(self).indices_buffer()) == &*final(old(self).indices_buffer()),
            final(self).scratch_view() == old(self).scratch_view(),
            final(self).indices_view() == old(self).indices_view(),
            final(self).kind() == old(self).kind(),
            res matches Ok(k) ==> drawn_prefix(
                old(self).scratch_view(),
                old(self).particles_view(),
                final(self).particles_view(),
                k as int,
            ),
            res == Err::<usize, GatherError>(GatherError::TooManyIndices) ==> drawn_prefix(
                old(self).scratch_view(),
                old(self).particles_view(),
                final(self).particles_view(),
                old(self).particles_view().len() as int,
            ),
            res == Err::<usize, GatherError>(GatherError::IndexOutOfRange) ==> exists|k: int|
                #[trigger] drawn_prefix(
                    old(self).scratch_view(),
                    old(self).particles_view(),
                    final(self).particles_view(),
                    k,
                ),
            <I as IteratorSpec>::obeys_prophetic_iter_laws(old(stream)) ==> {
                let ys = <I as IteratorSpec>::remaining(old(stream));
                let n = old(self).particles_view().len() as int;
                &&& res == streamed_result(ys, n, n)
                &&& drawn_from(
                    old(self).scratch_view(),
                    ys,
                    old(self).particles_view(),
                    final(self).particles_view(),
                    streamed_count(ys, n, n, 0),
                )
            },
    {
        let ghost before = self.curr@;
        let res = gather_streaming(&mut *self.curr, &*self.next, stream);
        proof {
            if res == Err::<usize, GatherError>(GatherError::IndexOutOfRange) {
                let k = choose|k: int| #[trigger] drawn_prefix(self.next@, before, self.curr@, k);
                assert(drawn_prefix(old(self).scratch_view(), old(self).particles_view(), self.particles_view(), k));
            }
        }
        res
    }
}

} // verus!
