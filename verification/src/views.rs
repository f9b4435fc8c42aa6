//! Lifting sequences of values to sequences of their mathematical values.

use vstd::prelude::*;

verus! {

/// The sequence of the views of the elements of `s`.
pub open spec fn seq_view<T: View>(s: Seq<T>) -> Seq<T::V> {
    Seq::new(s.len(), |i: int| s[i]@)
}

} // verus!
