//! Transposition, which every layer of a chart offers.

use vstd::prelude::*;

verus! {

/// How a pitch class that has no natural name is spelled.
#[derive(Clone, Copy, Debug, PartialEq, Eq, Structural)]
pub enum Scale {
    /// Spell with sharps.
    Major,
    /// Spell with flats.
    Minor,
}

/// A value that can be moved by a number of semitones. The result is a new
/// value; the one that is transposed stays as it is.
pub trait Transpose: View + Sized {
    /// The view of what `transpose` returns for a value with view `v`.
    spec fn transposed(v: Self::V, semitone_incr: int, scale: Scale) -> Self::V;

    fn transpose(&self, semitone_incr: &i32, scale: &Scale) -> (r: Self)
        ensures
            r@ == Self::transposed(self@, *semitone_incr as int, *scale),
    ;
}

} // verus!
