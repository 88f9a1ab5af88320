//! What an adapter reports when it is given bytes that it cannot read.

use vstd::prelude::*;

verus! {

/// The codec found no document in the bytes.
#[derive(Debug, Clone, Copy, PartialEq, Eq, Structural)]
pub struct DecodeError;

} // verus!
