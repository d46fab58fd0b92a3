//! Why a grab can fail.

use vstd::prelude::*;

verus! {

/// The ways a grab ends without a frame.
#[derive(Clone, Copy, Debug, PartialEq, Eq, Structural)]
pub enum Error {
    /// No window of the class exists right now, or its client area has
    /// collapsed to nothing. Trying again later may succeed.
    WindowNotFound,
    /// The window changed size since the surface was made. The surface is
    /// gone; the next grab makes a new one.
    InvalidWindowSize,
    /// A host graphics call failed; the value is the code the host reported.
    GraphicsApiError(i32),
}

} // verus!
