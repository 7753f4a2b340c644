use vstd::prelude::*;

verus! {

/// A point of the complex plane, in the arithmetic of whoever implements it.
///
/// The library never looks inside a point: it hands points to these four operations and
/// acts on what they return. None of them carries a postcondition, so everything that is
/// proved about the library holds for every implementation, whatever its arithmetic does.
pub trait Point: Sized {
    /// Zero, where every orbit starts.
    fn origin() -> Self;

    /// Whether the point lies outside the circle of radius 2 about the origin, which is
    /// to say whether its squared norm exceeds 4.
    fn escaped(&self) -> bool;

    /// The point that follows this one on the orbit of `c`: its square, plus `c`.
    fn advance(&self, c: &Self) -> Self;

    /// The point that `pixel`, a column and a row, stands for when a grid of `bounds`,
    /// a width and a height, is laid over the rectangle between `upper_left` and
    /// `lower_right`. Rows count downwards, the imaginary axis points upwards.
    fn pixel_to_point(
        bounds: (usize, usize),
        pixel: (usize, usize),
        upper_left: &Self,
        lower_right: &Self,
    ) -> Self
        requires
            pixel.0 < bounds.0,
            pixel.1 < bounds.1,
    ;
}

/// Each of the three operations that an orbit is followed with returns one value for
/// given arguments: it is a function of them, as arithmetic without hidden state is.
pub open spec fn deterministic_orbit<P: Point>() -> bool {
    &&& forall|a: P, b: P|
        #![trigger call_ensures(P::origin, (), a), call_ensures(P::origin, (), b)]
        call_ensures(P::origin, (), a) && call_ensures(P::origin, (), b) ==> a == b
    &&& forall|z: P, a: bool, b: bool|
        #![trigger call_ensures(P::escaped, (&z,), a), call_ensures(P::escaped, (&z,), b)]
        call_ensures(P::escaped, (&z,), a) && call_ensures(P::escaped, (&z,), b) ==> a == b
    &&& forall|z: P, c: P, a: P, b: P|
        #![trigger call_ensures(P::advance, (&z, &c), a), call_ensures(P::advance, (&z, &c), b)]
        call_ensures(P::advance, (&z, &c), a) && call_ensures(P::advance, (&z, &c), b) ==> a == b
}

/// The mapping from pixels to points returns one point for given arguments.
pub open spec fn deterministic_mapping<P: Point>() -> bool {
    forall|
        bounds: (usize, usize),
        pixel: (usize, usize),
        upper_left: P,
        lower_right: P,
        a: P,
        b: P,
    |
        #![trigger
            call_ensures(P::pixel_to_point, (bounds, pixel, &upper_left, &lower_right), a),
            call_ensures(P::pixel_to_point, (bounds, pixel, &upper_left, &lower_right), b)]
        call_ensures(P::pixel_to_point, (bounds, pixel, &upper_left, &lower_right), a)
            && call_ensures(P::pixel_to_point, (bounds, pixel, &upper_left, &lower_right), b) ==> a
            == b
}

/// All four operations of `P` are functions of their arguments.
pub open spec fn deterministic<P: Point>() -> bool {
    deterministic_orbit::<P>() && deterministic_mapping::<P>()
}

} // verus!
