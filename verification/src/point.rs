//! Points: locations in `N`-dimensional space, represented by a vector of
//! coordinates but kept as a distinct type, since a location is not a
//! displacement.

use vstd::prelude::*;

use crate::display::{comps_str, point_str};
use crate::vector::{repeat_seq, Vector};

verus! {

broadcast use crate::vector::lemma_vector_view_len;

/// A location with `N` integer coordinates. Deliberately minimal: a point
/// converts to and from its coordinate vector, and no point arithmetic is
/// exposed.
#[derive(Clone, Copy, Debug)]
pub struct Point<const N: usize>(Vector<N>);

impl<const N: usize> View for Point<N> {
    type V = Seq<int>;

    closed spec fn view(&self) -> Seq<int> {
        self.0@
    }
}

impl<const N: usize> Point<N> {
    /// The coordinates of the point, as a displacement vector from the
    /// origin.
    pub fn to_vector(self) -> (r: Vector<N>)
        ensures
            r@ == self@,
    {
        self.0
    }

    /// Renders the point as `(c0,c1,...,)`: the coordinates in order, each
    /// followed by a comma, inside parentheses.
    pub fn to_display_string(&self) -> (s: String)
        ensures
            s@ == point_str(self@),
    {
        let mut s = String::new();
        s.append("(");
        self.0.push_components(&mut s, 0);
        s.append(")");
        proof {
            reveal_strlit("(");
            reveal_strlit(")");
            assert(self.0@.subrange(0, N as int) =~= self@);
            assert(Seq::<char>::empty() + "("@ + comps_str(self@) + ")"@ =~= point_str(self@));
        }
        s
    }
}

impl<const N: usize> From<Vector<N>> for Point<N> {
    /// The point whose coordinates are the components of `v`.
    fn from(v: Vector<N>) -> (r: Self)
        ensures
            r@ == v@,
    {
        Point(v)
    }
}

impl<const N: usize> vstd::std_specs::convert::FromSpecImpl<Vector<N>> for Point<N> {
    open spec fn obeys_from_spec() -> bool {
        true
    }

    closed spec fn from_spec(v: Vector<N>) -> Self {
        Point(v)
    }
}

impl<const N: usize> Default for Point<N> {
    /// The origin: all `N` coordinates zero.
    fn default() -> (r: Self)
        ensures
            r@ == repeat_seq(N as int, 0),
    {
        Point(Vector::default())
    }
}

} // verus!
