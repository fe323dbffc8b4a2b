//! The closed enumeration of standard capability error codes. The runtime
//! passes codes through unchanged; these names are for callers that match
//! on a [`crate::errors::CapabilityError`].

use vstd::prelude::*;

verus! {

pub const CAPABILITY_NOT_FOUND: &'static str = "CAPABILITY_NOT_FOUND";

pub const HANDLE_NOT_FOUND: &'static str = "HANDLE_NOT_FOUND";

pub const TYPE_MISMATCH: &'static str = "TYPE_MISMATCH";

pub const INVALID_ARGUMENT: &'static str = "INVALID_ARGUMENT";

pub const ARGUMENT_OUT_OF_RANGE: &'static str = "ARGUMENT_OUT_OF_RANGE";

pub const CALLBACK_ERROR: &'static str = "CALLBACK_ERROR";

pub const INTERNAL_ERROR: &'static str = "INTERNAL_ERROR";

} // verus!
