//! The trait that keeps the set of identity kinds closed.

use vstd::prelude::*;

verus! {

/// Implemented by the identity types of this crate.
pub trait Sealed {

}

} // verus!
