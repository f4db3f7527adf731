//! The error of decoding a contract error from its numeric code.

use vstd::prelude::*;

verus! {

/// A numeric code that names no error of the contract.
#[derive(Clone, Copy, Debug, PartialEq, Eq, Structural)]
pub struct ConversionError;

} // verus!
