//! A placeholder error type for interfaces that demand one where no error
//! can actually occur.

use vstd::prelude::*;

verus! {

/// An error value that is never produced by the library's own operations;
/// it exists only to satisfy interfaces that require an error type.
#[derive(Debug)]
pub struct NoError;

} // verus!
