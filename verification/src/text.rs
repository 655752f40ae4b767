//! Lists of strings as mathematical values.

use vstd::prelude::*;

verus! {

/// The texts of a list of strings, in order.
pub open spec fn texts(list: Seq<String>) -> Seq<Seq<char>> {
    Seq::new(list.len(), |i: int| list[i]@)
}

} // verus!
