use vstd::prelude::*;

verus! {

/// Which resampling backend a particle filter uses.
#[derive(Debug, Clone, Copy, PartialEq, Eq, Structural)]
pub enum ResamplerKind {
    /// The buffered linear-time resampler, which fills the index buffer.
    Buffered,
    /// The iterator-driven resampler, which leaves the index buffer untouched.
    Streaming,
}

impl Default for ResamplerKind {
    fn default() -> (k: Self)
        ensures
            k == ResamplerKind::Buffered,
    {
        ResamplerKind::Buffered
    }
}

/// Reasons a filter step fails at run time. Either one means the particle cloud no
/// longer approximates the posterior.
#[derive(Debug, Clone, Copy, PartialEq, Eq, Structural)]
#[non_exhaustive]
pub enum StepError {
    /// Every particle's weight has gone to zero.
    AllWeightsZero,
    /// The likelihood gave NaN, an infinity or a negative number for some particle,
    /// or a weight stopped being finite.
    NonFiniteWeight,
}

/// Why a set of caller-owned buffers cannot back a particle filter.
#[derive(Debug, Clone, Copy, PartialEq, Eq, Structural)]
pub enum BufferError {
    /// The particle buffer is empty.
    Empty,
    /// The scratch particle buffer has another length than the particle buffer.
    NextLengthMismatch,
    /// The weight buffer has another length than the particle buffer.
    WeightsLengthMismatch,
    /// The index buffer has another length than the particle buffer.
    IndicesLengthMismatch,
    /// The particle count does not fit in a `u32`.
    TooManyParticles,
}

/// The first rule, in the order a filter checks them, that four buffer lengths
/// break; `None` when they may back a filter.
pub open spec fn buffer_error(curr: nat, next: nat, weights: nat, indices: nat) -> Option<BufferError> {
    if curr == 0 {
        Some(BufferError::Empty)
    } else if next != curr {
        Some(BufferError::NextLengthMismatch)
    } else if weights != curr {
        Some(BufferError::WeightsLengthMismatch)
    } else if indices != curr {
        Some(BufferError::IndicesLengthMismatch)
    } else if curr > u32::MAX {
        Some(BufferError::TooManyParticles)
    } else {
        None
    }
}

/// Four buffer lengths may back a filter exactly when they are equal, nonzero, and
/// fit in a `u32`.
pub proof fn lemma_buffer_rules(curr: nat, next: nat, weights: nat, indices: nat)
    ensures
        buffer_error(curr, next, weights, indices) is None <==> (curr > 0 && next == curr
            && weights == curr && indices == curr && curr <= u32::MAX),
{
}

/// Checks the lengths of the four buffers of a filter and returns the particle
/// count `n` they agree on.
pub fn check_buffer_lengths(curr: usize, next: usize, weights: usize, indices: usize) -> (res: Result<
    usize,
    BufferError,
>)
    ensures
        res matches Ok(n) ==> n == curr && buffer_error(
            curr as nat,
            next as nat,
            weights as nat,
            indices as nat,
        ) is None,
        res matches Err(e) ==> buffer_error(curr as nat, next as nat, weights as nat, indices as nat)
            == Some(e),
        res is Ok <==> (curr > 0 && next == curr && weights == curr && indices == curr && curr
            <= u32::MAX),
{
    if curr == 0 {
        Err(BufferError::Empty)
    } else if next != curr {
        Err(BufferError::NextLengthMismatch)
    } else if weights != curr {
        Err(BufferError::WeightsLengthMismatch)
    } else if indices != curr {
        Err(BufferError::IndicesLengthMismatch)
    } else if curr as u64 > 0xFFFF_FFFFu64 {
        Err(BufferError::TooManyParticles)
    } else {
        Ok(curr)
    }
}

} // verus!
