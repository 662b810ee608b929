//! Declaration of the USB transport's error type, which the library
//! carries opaquely inside its own error.

use vstd::prelude::*;
use rusb::Error as RusbError;

verus! {

/// rusb's error code enum (a fieldless enum of transport failures). The
/// library never reads it; it only holds the value for the caller.
#[verifier::external_type_specification]
#[verifier::external_body]
pub struct ExRusbError(RusbError);

} // verus!
