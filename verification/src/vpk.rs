//! The boundary to the `vpk0` compression crate.
//!
//! The library never runs the decoder itself: `vpk0::decode` indexes past
//! its output buffer on some crafted inputs, so no contract promising a
//! returned verdict would be true of it. The caller runs the decoder and
//! hands the library its verdict; the export functions are verified for
//! every verdict they can be handed, and they carry the decoder's own error
//! value through unchanged.

use vstd::prelude::*;

verus! {

/// Error type of the `vpk0` crate, opaque to verification.
#[verifier::external_type_specification]
#[verifier::external_body]
pub struct ExVpkError(vpk0::errors::VpkError);

} // verus!
