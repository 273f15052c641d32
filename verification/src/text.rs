//! Sequences of strings.

use vstd::prelude::*;

verus! {

/// The views of a sequence of strings.
pub open spec fn texts_view(texts: Seq<String>) -> Seq<Seq<char>> {
    Seq::new(texts.len(), |i: int| texts[i]@)
}

} // verus!
