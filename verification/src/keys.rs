//! Keyboard key identity carried by key events.

use vstd::prelude::*;

verus! {

/// An opaque key identifier: the translated code the backend reports for a
/// key press or release.
#[derive(Clone, Copy, Debug, PartialEq, Eq, Structural)]
pub struct Key {
    pub code: u32,
}

impl Key {
    pub fn new(code: u32) -> (r: Self)
        ensures
            r == (Key { code }),
    {
        Key { code }
    }
}

} // verus!
