//! Lines: a ray given by an origin point and a direction vector. A data
//! holder only; no direction normalization is imposed and no line arithmetic
//! is exposed.

use vstd::prelude::*;

use crate::point::Point;
use crate::vector::Vector;

verus! {

/// An origin point together with a direction vector, both owned by value.
#[derive(Clone, Copy, Debug)]
pub struct Line<const N: usize> {
    origin: Point<N>,
    dir: Vector<N>,
}

impl<const N: usize> View for Line<N> {
    type V = (Seq<int>, Seq<int>);

    closed spec fn view(&self) -> (Seq<int>, Seq<int>) {
        (self.origin@, self.dir@)
    }
}

impl<const N: usize> From<(Point<N>, Vector<N>)> for Line<N> {
    /// The line through `origin` pointing along `dir`.
    fn from(pair: (Point<N>, Vector<N>)) -> (r: Self)
        ensures
            r@.0 == pair.0@,
            r@.1 == pair.1@,
    {
        let (origin, dir) = pair;
        Line { origin, dir }
    }
}

impl<const N: usize> vstd::std_specs::convert::FromSpecImpl<(Point<N>, Vector<N>)> for Line<N> {
    open spec fn obeys_from_spec() -> bool {
        true
    }

    closed spec fn from_spec(pair: (Point<N>, Vector<N>)) -> Self {
        Line { origin: pair.0, dir: pair.1 }
    }
}

} // verus!
