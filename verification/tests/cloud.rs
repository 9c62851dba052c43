use ltbpf::cloud::ParticleCloud;
use ltbpf::kinds::{BufferError, ResamplerKind};
use ltbpf::resample::GatherError;

#[test]
fn cloud_new_checks_lengths() {
    let (mut a, mut b, mut idx) = (vec![1, 2, 3], vec![0, 0, 0], vec![0u32; 3]);
    let c = ParticleCloud::new(&mut a, &mut b, &mut idx, 3).ok().unwrap();
    assert_eq!(c.n(), 3);
    assert_eq!(c.particles(), &[1, 2, 3]);
    assert_eq!(c.resampler(), ResamplerKind::Buffered);

    let (mut a, mut b, mut idx) = (vec![1, 2, 3], vec![0, 0, 0], vec![0u32; 3]);
    let e = ParticleCloud::new(&mut a, &mut b, &mut idx, 2).err().unwrap();
    assert_eq!(e, BufferError::WeightsLengthMismatch);

    let (mut a, mut b, mut idx) = (vec![1, 2, 3], vec![0, 0], vec![0u32; 3]);
    let e = ParticleCloud::new(&mut a, &mut b, &mut idx, 3).err().unwrap();
    assert_eq!(e, BufferError::NextLengthMismatch);

    let (mut a, mut b, mut idx) = (vec![1, 2, 3], vec![0, 0, 0], vec![0u32; 4]);
    let e = ParticleCloud::new(&mut a, &mut b, &mut idx, 3).err().unwrap();
    assert_eq!(e, BufferError::IndicesLengthMismatch);

    let (mut a, mut b, mut idx): (Vec<i32>, Vec<i32>, Vec<u32>) = (vec![], vec![], vec![]);
    let e = ParticleCloud::new(&mut a, &mut b, &mut idx, 0).err().unwrap();
    assert_eq!(e, BufferError::Empty);
}

#[test]
fn cloud_with_resampler() {
    let (mut a, mut b, mut idx) = (vec![1], vec![0], vec![0u32]);
    let c = ParticleCloud::new(&mut a, &mut b, &mut idx, 1)
        .ok()
        .unwrap()
        .with_resampler(ResamplerKind::Streaming);
    assert_eq!(c.resampler(), ResamplerKind::Streaming);
    assert_eq!(c.particles(), &[1]);
}

#[test]
fn cloud_propagate_then_carry_forward() {
    let (mut a, mut b, mut idx) = (vec![1, 2, 3], vec![0, 0, 0], vec![7u32, 8, 9]);
    {
        let mut c = ParticleCloud::new(&mut a, &mut b, &mut idx, 3).ok().unwrap();
        let mut step = 0i32;
        let mut prop = |k: &mut i32, s: &i32| {
            *k += 1;
            *s * 10 + *k
        };
        c.propagate(&mut prop, &mut step);
        assert_eq!(c.scratch(), &[11, 22, 33]);
        assert_eq!(c.particles(), &[1, 2, 3]);
        c.carry_forward();
        assert_eq!(c.particles(), &[11, 22, 33]);
        assert_eq!(c.scratch(), &[1, 2, 3]);
        assert_eq!(c.indices(), &[7, 8, 9]);
    }
    // The swap exchanges the borrowed buffers; the caller's vectors keep their own
    // contents, with `b` holding the propagated cloud.
    assert_eq!(b, vec![11, 22, 33]);
}

#[test]
fn cloud_resample_buffered_draws_from_the_propagated_cloud() {
    let (mut a, mut b, mut idx) = (vec![1, 2, 3, 4], vec![0; 4], vec![0u32; 4]);
    let mut c = ParticleCloud::new(&mut a, &mut b, &mut idx, 4).ok().unwrap();
    let mut prop = |_r: &mut (), s: &i32| *s + 100;
    c.propagate(&mut prop, &mut ());
    let res = c.resample_buffered(|out: &mut [u32]| out.copy_from_slice(&[3, 3, 0, 1]));
    assert_eq!(res, Ok(()));
    assert_eq!(c.particles(), &[104, 104, 101, 102]);
    assert_eq!(c.scratch(), &[101, 102, 103, 104]);
    assert_eq!(c.indices(), &[3, 3, 0, 1]);
}

#[test]
fn cloud_resample_buffered_refuses_a_bad_index() {
    let (mut a, mut b, mut idx) = (vec![1, 2], vec![5, 6], vec![0u32; 2]);
    let mut c = ParticleCloud::new(&mut a, &mut b, &mut idx, 2).ok().unwrap();
    let res = c.resample_buffered(|out: &mut [u32]| out.copy_from_slice(&[0, 2]));
    assert_eq!(res, Err(GatherError::IndexOutOfRange));
    assert_eq!(c.particles(), &[1, 2]);
}

#[test]
fn cloud_resample_streaming_leaves_indices_untouched() {
    let n = 8usize;
    let mut a: Vec<u64> = (0..n as u64).collect();
    let mut b = vec![0u64; n];
    let mut idx: Vec<u32> = (0..n as u32).map(|i| 0xDEAD_0000 | i).collect();
    let sentinel = idx.clone();
    {
        let mut c = ParticleCloud::new(&mut a, &mut b, &mut idx, n)
            .ok()
            .unwrap()
            .with_resampler(ResamplerKind::Streaming);
        let mut prop = |_r: &mut (), s: &u64| *s * 2;
        c.propagate(&mut prop, &mut ());
        let mut stream = vec![0u32, 0, 1, 2, 4, 4, 6, 7].into_iter();
        assert_eq!(c.resample_streaming(&mut stream), Ok(8));
        assert_eq!(c.particles(), &[0, 0, 2, 4, 8, 8, 12, 14]);
    }
    assert_eq!(idx, sentinel, "streaming resampling wrote to the index buffer");
}

#[test]
fn cloud_length_invariants_hold_across_steps() {
    let n = 32usize;
    let mut a: Vec<u32> = (0..n as u32).collect();
    let mut b = vec![0u32; n];
    let mut idx = vec![0u32; n];
    let mut c = ParticleCloud::new(&mut a, &mut b, &mut idx, n).ok().unwrap();
    let mut prop = |r: &mut u32, s: &u32| {
        *r = r.wrapping_mul(1_103_515_245).wrapping_add(12_345);
        s.wrapping_add(*r % 7)
    };
    let mut rng = 1u32;
    for step in 0..50u32 {
        c.propagate(&mut prop, &mut rng);
        if step % 3 == 0 {
            let k = step;
            let res = c.resample_buffered(|out: &mut [u32]| {
                for (i, o) in out.iter_mut().enumerate() {
                    *o = (i as u32 + k) % n as u32;
                }
            });
            assert_eq!(res, Ok(()));
        } else {
            c.carry_forward();
        }
        assert_eq!(c.n(), n);
        assert_eq!(c.particles().len(), n);
        assert_eq!(c.scratch().len(), n);
        assert_eq!(c.indices().len(), n);
    }
}
