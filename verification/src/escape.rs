use crate::point::{deterministic_orbit, Point};
use vstd::prelude::*;

verus! {

/// The point numbered `k` of `orbit` is what `advance` returned for the point before it.
pub open spec fn step_at<P: Point>(orbit: Seq<P>, c: P, k: int) -> bool {
    call_ensures(P::advance, (&orbit[k - 1], &c), orbit[k])
}

/// `orbit` is a run of the orbit of `c`: it starts at an origin, and each later point is
/// what `advance` returned for the point before it.
pub open spec fn is_orbit<P: Point>(orbit: Seq<P>, c: P) -> bool {
    &&& orbit.len() > 0
    &&& call_ensures(P::origin, (), orbit[0])
    &&& forall|k: int| 0 < k < orbit.len() ==> #[trigger] step_at(orbit, c, k)
}

/// Each of the first `n` points of `orbit` was tested and found inside the circle.
pub open spec fn all_inside<P: Point>(orbit: Seq<P>, n: int) -> bool {
    forall|k: int| 0 <= k < n ==> call_ensures(P::escaped, (&#[trigger] orbit[k],), false)
}

/// `outcome` is what following `orbit` for at most `limit` tests comes to.
///
/// `Some(i)`: the points before the one numbered `i` were found inside, that one outside,
/// and the orbit was followed no further. `None`: all `limit` points that were tested
/// were found inside; the orbit holds one point more, which was computed and not tested.
pub open spec fn follows<P: Point>(
    orbit: Seq<P>,
    c: P,
    limit: usize,
    outcome: Option<usize>,
) -> bool {
    &&& is_orbit(orbit, c)
    &&& match outcome {
        Some(i) => {
            &&& i < limit
            &&& orbit.len() == i + 1
            &&& all_inside(orbit, i as int)
            &&& call_ensures(P::escaped, (&orbit[i as int],), true)
        },
        None => {
            &&& orbit.len() == limit + 1
            &&& all_inside(orbit, limit as int)
        },
    }
}

/// `outcome` is a possible escape time of `c` within `limit` iterations.
pub open spec fn escapes<P: Point>(c: P, limit: usize, outcome: Option<usize>) -> bool {
    exists|orbit: Seq<P>| follows(orbit, c, limit, outcome)
}

/// Follows the orbit of `c` from the origin and returns the number of the first point
/// found outside the circle of radius 2, if one of the first `limit` points is.
///
/// The point numbered `i` is tested before the orbit is advanced, so the origin is the
/// point numbered 0 and `c` can be reported at 1 at the earliest.
pub fn escape_time<P: Point>(c: P, limit: usize) -> (outcome: Option<usize>)
    ensures
        escapes(c, limit, outcome),
        outcome matches Some(i) ==> i < limit,
{
    let mut z = P::origin();
    let ghost mut orbit: Seq<P> = seq![z];
    let mut i: usize = 0;
    while i < limit
        invariant
            i <= limit,
            is_orbit(orbit, c),
            orbit.len() == i + 1,
            orbit[i as int] == z,
            all_inside(orbit, i as int),
        decreases limit - i,
    {
        if z.escaped() {
            assert(follows(orbit, c, limit, Some(i)));
            return Some(i);
        }
        let next = z.advance(&c);
        proof {
            let longer = orbit.push(next);
            assert forall|k: int| 0 < k < longer.len() implies #[trigger] step_at(longer, c, k) by {
                if k < orbit.len() {
                    assert(step_at(orbit, c, k));
                }
            }
            orbit = longer;
        }
        z = next;
        i += 1;
    }
    assert(follows(orbit, c, limit, None));
    None
}

/// With deterministic operations, two runs of the orbit of `c` agree as far as both go.
pub proof fn lemma_orbits_agree<P: Point>(first: Seq<P>, second: Seq<P>, c: P, k: int)
    requires
        deterministic_orbit::<P>(),
        is_orbit(first, c),
        is_orbit(second, c),
        0 <= k < first.len(),
        k < second.len(),
    ensures
        first[k] == second[k],
    decreases k,
{
    if k > 0 {
        lemma_orbits_agree(first, second, c, k - 1);
        assert(step_at(first, c, k) && step_at(second, c, k));
    }
}

/// Evaluating a point twice gives the same escape time, as long as the arithmetic
/// underneath returns the same values for the same arguments.
pub proof fn lemma_escape_time_unique<P: Point>(
    c: P,
    limit: usize,
    first: Option<usize>,
    second: Option<usize>,
)
    requires
        deterministic_orbit::<P>(),
        escapes(c, limit, first),
        escapes(c, limit, second),
    ensures
        first == second,
{
    let a = choose|orbit: Seq<P>| follows(orbit, c, limit, first);
    let b = choose|orbit: Seq<P>| follows(orbit, c, limit, second);
    match (first, second) {
        (Some(i), Some(j)) => {
            let k = if i <= j {
                i as int
            } else {
                j as int
            };
            lemma_orbits_agree(a, b, c, k);
        },
        (Some(i), None) => {
            lemma_orbits_agree(a, b, c, i as int);
        },
        (None, Some(j)) => {
            lemma_orbits_agree(a, b, c, j as int);
        },
        (None, None) => {},
    }
}

/// The origin is the first point to be tested, and `c` the second. So where the origin
/// is always found inside the circle and the point after it always outside, the escape
/// time is 1 if the limit allows a second test, and there is none if it does not.
pub proof fn lemma_escape_on_first_step<P: Point>(c: P, limit: usize, outcome: Option<usize>)
    requires
        escapes(c, limit, outcome),
        forall|z: P, b: bool|
            call_ensures(P::origin, (), z) && #[trigger] call_ensures(P::escaped, (&z,), b) ==> !b,
        forall|z: P, next: P, b: bool|
            call_ensures(P::origin, (), z) && #[trigger] call_ensures(P::advance, (&z, &c), next)
                && #[trigger] call_ensures(P::escaped, (&next,), b) ==> b,
    ensures
        limit >= 2 ==> outcome == Some(1usize),
        limit < 2 ==> outcome is None,
{
    let orbit = choose|orbit: Seq<P>| follows(orbit, c, limit, outcome);
    match outcome {
        Some(i) => {
            if i >= 2 {
                assert(step_at(orbit, c, 1));
                assert(call_ensures(P::escaped, (&orbit[1],), false));
            }
        },
        None => {
            if limit >= 2 {
                assert(step_at(orbit, c, 1));
                assert(call_ensures(P::escaped, (&orbit[1],), false));
            }
        },
    }
}

} // verus!
