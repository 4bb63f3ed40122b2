//! What can go wrong with a request.

use vstd::prelude::*;

verus! {

/// A batch of commands could not be drawn.
#[derive(Clone, Copy, Debug, PartialEq, Eq, Structural)]
pub struct ApplyOperationError;

/// A fill or outline field is neither the word "none" nor one single
/// character.
#[derive(Clone, Copy, Debug, PartialEq, Eq, Structural)]
pub struct StringTooLong;

} // verus!
