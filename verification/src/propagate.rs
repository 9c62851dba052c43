use vstd::prelude::*;

verus! {

/// `t` is a possible result of the user's transition `F` applied to `s`, for some
/// state of the transition and of its random source.
pub open spec fn propagated_from<S, R: ?Sized, F: FnMut(&mut R, &S) -> S>(s: S, t: S) -> bool {
    exists|f: F, r: &mut R| call_ensures(f, (r, &s), t)
}

/// `k` is the index of one of the first `n` calls.
pub open spec fn call_index(k: int, n: int) -> bool {
    0 <= k < n
}

/// Samples one step of the state transition for every particle: slot `i` of `next`
/// gets the transition applied to `curr[i]`, the calls made once each in index order,
/// each taking the random source as the one before left it.
pub fn propagate_all<S, R: ?Sized, F: FnMut(&mut R, &S) -> S>(
    propagate: &mut F,
    rng: &mut R,
    curr: &[S],
    next: &mut [S],
)
    requires
        old(next)@.len() == curr@.len(),
        forall|r: &mut R, s: &S| call_requires(*old(propagate), (r, s)),
    ensures
        final(next)@.len() == curr@.len(),
        forall|i: int| 0 <= i < curr@.len() ==> #[trigger] propagated_from::<S, R, F>(curr@[i], final(next)@[i]),
        exists|states: Seq<&R>|
            #![trigger states[0]]
            states.len() == curr@.len() + 1 && states[0] == &*old(rng) && states[curr@.len() as int]
                == &*final(rng) && forall|i: int|
                #[trigger] call_index(i, curr@.len() as int) ==> exists|x: &mut R|
                    #[trigger] call_ensures(*old(propagate), (x, &curr@[i]), final(next)@[i]) && &*x
                        == states[i] && &*final(x) == states[i + 1],
{
    let n = curr.len();
    let ghost mut states: Seq<&R> = seq![&*rng];
    let mut i: usize = 0;
    while i < n
        invariant
            i <= n,
            n == curr@.len(),
            next@.len() == n,
            *propagate == *old(propagate),
            forall|r: &mut R, s: &S| call_requires(*old(propagate), (r, s)),
            forall|k: int| 0 <= k < i ==> #[trigger] propagated_from::<S, R, F>(curr@[k], next@[k]),
            states.len() == i + 1,
            states[0] == &*old(rng),
            states[i as int] == &*rng,
            forall|k: int|
                #[trigger] call_index(k, i as int) ==> exists|x: &mut R|
                    #[trigger] call_ensures(*old(propagate), (x, &curr@[k]), next@[k]) && &*x
                        == states[k] && &*final(x) == states[k + 1],
        decreases n - i,
    {
        let ghost prev_states = states;
        let ghost prev_next = next@;
        let p = propagate(rng, &curr[i]);
        proof {
            assert(exists|x: &mut R|
                #[trigger] call_ensures(*old(propagate), (x, &curr@[i as int]), p) && &*x
                    == prev_states[i as int] && &*final(x) == &*rng);
            states = states.push(&*rng);
        }
        next[i] = p;
        let ghost j = i as int;
        i = i + 1;
        proof {
            assert forall|k: int|
                #[trigger] call_index(k, i as int) implies exists|x: &mut R|
                    #[trigger] call_ensures(*old(propagate), (x, &curr@[k]), next@[k]) && &*x
                        == states[k] && &*final(x) == states[k + 1] by {
                assert(states[k] == prev_states[k]);
                if k < j {
                    assert(call_index(k, j));
                    assert(next@[k] == prev_next[k]);
                    assert(states[k + 1] == prev_states[k + 1]);
                    assert(prev_states[k] == states[k]);
                } else {
                    assert(k == j);
                    assert(next@[k] == p);
                    assert(states[k + 1] == &*rng);
                }
            }
        }
    }
}

} // verus!
