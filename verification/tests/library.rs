use ltbpf::estimate::map_particle;
use ltbpf::kinds::{check_buffer_lengths, BufferError, ResamplerKind, StepError};
use ltbpf::propagate::propagate_all;
use ltbpf::resample::{gather, gather_streaming, GatherError};
use ltbpf::weight_bits::{
    ess_threshold_is_valid, likelihood_is_valid, resample_is_due, weight_equal, weight_greater, weight_is_finite,
    weight_is_nan,
};

fn bits(x: f32) -> u32 {
    x.to_bits()
}

#[test]
fn default_resampler_is_buffered() {
    assert_eq!(ResamplerKind::default(), ResamplerKind::Buffered);
    assert_ne!(ResamplerKind::default(), ResamplerKind::Streaming);
}

#[test]
fn step_errors_are_distinct() {
    assert_ne!(StepError::AllWeightsZero, StepError::NonFiniteWeight);
}

#[test]
fn propagate_threads_the_random_source_in_order() {
    let curr = vec![1u32, 2, 3];
    let mut next = vec![0u32; 3];
    let mut rng = 0u32;
    let mut prop = |r: &mut u32, s: &u32| {
        *r += 1;
        *s * 100 + *r
    };
    propagate_all(&mut prop, &mut rng, &curr, &mut next);
    assert_eq!(next, vec![101, 202, 303]);
    assert_eq!(rng, 3);
}

#[test]
fn buffer_lengths_that_agree_give_the_particle_count() {
    assert_eq!(check_buffer_lengths(8, 8, 8, 8), Ok(8));
    assert_eq!(check_buffer_lengths(1, 1, 1, 1), Ok(1));
}

#[test]
fn buffer_length_errors_come_in_order() {
    assert_eq!(check_buffer_lengths(0, 0, 0, 0), Err(BufferError::Empty));
    assert_eq!(check_buffer_lengths(0, 3, 2, 1), Err(BufferError::Empty));
    assert_eq!(check_buffer_lengths(4, 3, 2, 1), Err(BufferError::NextLengthMismatch));
    assert_eq!(check_buffer_lengths(4, 4, 2, 1), Err(BufferError::WeightsLengthMismatch));
    assert_eq!(check_buffer_lengths(4, 4, 4, 1), Err(BufferError::IndicesLengthMismatch));
}

#[test]
fn buffer_too_many_particles() {
    if usize::BITS > 32 {
        let n = (u32::MAX as u64 + 1) as usize;
        assert_eq!(check_buffer_lengths(n, n, n, n), Err(BufferError::TooManyParticles));
        let m = u32::MAX as usize;
        assert_eq!(check_buffer_lengths(m, m, m, m), Ok(m));
    }
}

#[test]
fn propagate_applies_the_model_to_every_particle() {
    let curr = vec![0.0_f32, 1.0, 2.0, 3.0];
    let mut next = vec![0.0_f32; 4];
    let mut calls = 0u32;
    let mut prop = |c: &mut u32, s: &f32| {
        *c += 1;
        *s + 10.0
    };
    propagate_all(&mut prop, &mut calls, &curr, &mut next);
    assert_eq!(next, vec![10.0, 11.0, 12.0, 13.0]);
    assert_eq!(calls, 4);
    assert_eq!(curr, vec![0.0, 1.0, 2.0, 3.0]);
}

#[test]
fn gather_copies_the_named_ancestors() {
    let src = vec![10, 20, 30, 40];
    let mut dst = vec![0, 0, 0, 0];
    assert!(gather(&mut dst, &src, &[3, 0, 0, 2]));
    assert_eq!(dst, vec![40, 10, 10, 30]);
}

#[test]
fn gather_refuses_an_out_of_range_index() {
    let src = vec![10, 20, 30];
    let mut dst = vec![1, 2, 3];
    assert!(!gather(&mut dst, &src, &[0, 3, 1]));
    assert_eq!(dst, vec![1, 2, 3]);
}

#[test]
fn gather_streaming_fills_every_slot() {
    let src = vec![10, 20, 30, 40];
    let mut dst = vec![0, 0, 0, 0];
    let mut it = vec![0u32, 0, 2, 3].into_iter();
    assert_eq!(gather_streaming(&mut dst, &src, &mut it), Ok(4));
    assert_eq!(dst, vec![10, 10, 30, 40]);
}

#[test]
fn gather_streaming_short_stream_leaves_the_rest() {
    let src = vec![10, 20, 30, 40];
    let mut dst = vec![1, 2, 3, 4];
    let mut it = vec![3u32, 1].into_iter();
    assert_eq!(gather_streaming(&mut dst, &src, &mut it), Ok(2));
    assert_eq!(dst, vec![40, 20, 3, 4]);
}

#[test]
fn gather_streaming_errors() {
    let src = vec![10, 20];
    let mut dst = vec![1, 2];
    let mut it = vec![1u32, 5].into_iter();
    assert_eq!(gather_streaming(&mut dst, &src, &mut it), Err(GatherError::IndexOutOfRange));
    assert_eq!(dst, vec![20, 2]);
    let mut dst = vec![1, 2];
    let mut it = vec![1u32, 0, 1].into_iter();
    assert_eq!(gather_streaming(&mut dst, &src, &mut it), Err(GatherError::TooManyIndices));
    assert_eq!(dst, vec![20, 10]);
}

#[test]
fn weight_order_matches_the_numbers() {
    assert!(weight_greater(bits(1.0), bits(0.5)));
    assert!(!weight_greater(bits(0.5), bits(1.0)));
    assert!(!weight_greater(bits(0.5), bits(0.5)));
    assert!(weight_greater(bits(0.5), bits(-2.0)));
    assert!(weight_greater(bits(-1.0), bits(-2.0)));
    assert!(weight_greater(bits(f32::INFINITY), bits(f32::MAX)));
    assert!(weight_greater(bits(f32::MIN), bits(f32::NEG_INFINITY)));
    assert!(!weight_greater(bits(0.0), bits(-0.0)));
    assert!(!weight_greater(bits(-0.0), bits(0.0)));
    assert!(weight_equal(bits(0.0), bits(-0.0)));
    assert!(!weight_equal(bits(1.0), bits(0.0)));
    assert!(!weight_greater(bits(f32::NAN), bits(0.0)));
    assert!(!weight_greater(bits(0.0), bits(f32::NAN)));
    assert!(!weight_equal(bits(f32::NAN), bits(f32::NAN)));
}

#[test]
fn weight_order_agrees_with_float_comparison() {
    let xs = [
        -f32::INFINITY, -3.5, -1.0, -1e-30, -0.0, 0.0, 1e-40, 1e-30, 0.25, 1.0, 7.0, f32::MAX,
        f32::INFINITY, f32::NAN,
    ];
    for &a in &xs {
        for &b in &xs {
            assert_eq!(weight_greater(bits(a), bits(b)), a > b, "{a} > {b}");
            assert_eq!(weight_equal(bits(a), bits(b)), a == b, "{a} == {b}");
        }
        assert_eq!(weight_is_nan(bits(a)), a.is_nan());
        assert_eq!(weight_is_finite(bits(a)), a.is_finite());
    }
}

#[test]
fn ess_threshold_range() {
    assert!(ess_threshold_is_valid(bits(0.0)));
    assert!(ess_threshold_is_valid(bits(-0.0)));
    assert!(ess_threshold_is_valid(bits(0.5)));
    assert!(ess_threshold_is_valid(bits(1.0)));
    assert!(!ess_threshold_is_valid(bits(1.01)));
    assert!(!ess_threshold_is_valid(bits(-0.1)));
    assert!(!ess_threshold_is_valid(bits(f32::NAN)));
    assert!(!ess_threshold_is_valid(bits(f32::INFINITY)));
}

#[test]
fn likelihood_validity() {
    assert!(likelihood_is_valid(bits(0.0)));
    assert!(likelihood_is_valid(bits(-0.0)));
    assert!(likelihood_is_valid(bits(2.5)));
    assert!(likelihood_is_valid(bits(f32::MAX)));
    assert!(!likelihood_is_valid(bits(-1.0)));
    assert!(!likelihood_is_valid(bits(f32::NAN)));
    assert!(!likelihood_is_valid(bits(f32::INFINITY)));
}

#[test]
fn map_particle_picks_largest_weight() {
    let particles = vec!["a", "b", "c", "d"];
    let w = [0.1_f32, 0.9, 0.3, 0.2];
    assert_eq!(map_particle(&particles, &w, |x: &f32| x.to_bits()), "b");
}

#[test]
fn map_particle_breaks_ties_by_lower_index() {
    let particles = vec![1, 2, 3, 4];
    let w = [0.5_f32, 1.0, 0.7, 1.0];
    assert_eq!(map_particle(&particles, &w, |x: &f32| x.to_bits()), 2);
    let w = [-0.0_f32, 0.0];
    assert_eq!(map_particle(&particles[..2], &w, |x: &f32| x.to_bits()), 1);
}

#[test]
fn map_particle_single_and_nan() {
    assert_eq!(map_particle(&[7], &[bits(0.0)], |b: &u32| *b), 7);
    // A NaN in front is never beaten: every comparison with it is false.
    let w = [bits(f32::NAN), bits(1.0)];
    assert_eq!(map_particle(&[1, 2], &w, |b: &u32| *b), 1);
}

#[test]
fn map_particle_reads_each_weight_once() {
    let reads = std::cell::Cell::new(0u32);
    let w = [0.25_f32, 0.75, 0.5];
    let p = map_particle(&['x', 'y', 'z'], &w, |x: &f32| {
        reads.set(reads.get() + 1);
        x.to_bits()
    });
    assert_eq!(p, 'y');
    assert_eq!(reads.get(), 3);
}

#[test]
fn resample_decision() {
    // Below the scaled threshold: resample.
    assert!(resample_is_due(bits(3.0), bits(4.0), bits(0.5)));
    // At or above it: keep the weights.
    assert!(!resample_is_due(bits(4.0), bits(4.0), bits(0.5)));
    assert!(!resample_is_due(bits(6.0), bits(4.0), bits(0.5)));
    // A threshold of one resamples even when the weights are uniform.
    assert!(resample_is_due(bits(8.0), bits(8.0), bits(1.0)));
    // A threshold of zero never resamples.
    assert!(!resample_is_due(bits(1.0), bits(0.0), bits(0.0)));
}
