//! A colour as three channels.

use vstd::prelude::*;

verus! {

/// A colour held as its red, green and blue channels. Nothing converts it
/// yet: it is kept for a mapping from colour names to hardware commands.
#[derive(Clone, Copy, Debug, PartialEq, Eq, Structural)]
pub struct RGB {
    pub red: u8,
    pub green: u8,
    pub blue: u8,
}

impl RGB {
    /// A colour from its three channels.
    pub fn new(red: u8, green: u8, blue: u8) -> (color: RGB)
        ensures
            color == (RGB { red, green, blue }),
    {
        RGB { red, green, blue }
    }
}

} // verus!
