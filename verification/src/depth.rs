//! Remaining call-frame distance until a scheduled action fires.

use vstd::prelude::*;

verus! {

/// How many more call-frame boundaries must pass before an action fires.
/// A depth of zero means "fire at the current frame".
#[derive(Debug, Clone, Copy, PartialEq, Eq, Structural)]
pub struct CallDepth(pub u8);

impl CallDepth {
    /// Create a new [`CallDepth`] instance.
    pub fn new(depth: u8) -> (r: CallDepth)
        ensures
            r.0 == depth,
    {
        CallDepth(depth)
    }

    /// Create a [`CallDepth`] with depth `0`.
    pub fn current() -> (r: CallDepth)
        ensures
            r.0 == 0,
    {
        CallDepth(0)
    }

    /// Create a [`CallDepth`] with depth `1`.
    pub fn next() -> (r: CallDepth)
        ensures
            r.0 == 1,
    {
        CallDepth(1)
    }

    /// Decrement the depth, saturating at `0`: a depth of `0` stays `0`.
    pub fn decrement(self) -> (r: CallDepth)
        ensures
            self.0 > 0 ==> r.0 == self.0 - 1,
            self.0 == 0 ==> r.0 == 0,
    {
        if self.0 > 0 {
            CallDepth(self.0 - 1)
        } else {
            CallDepth(0)
        }
    }
}

impl Default for CallDepth {
    /// The default depth is zero: fire at the current frame.
    fn default() -> (r: CallDepth)
        ensures
            r.0 == 0,
    {
        CallDepth(0)
    }
}

} // verus!
