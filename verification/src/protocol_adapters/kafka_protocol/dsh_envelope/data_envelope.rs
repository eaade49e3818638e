//! The `kind` alternatives of a [`super::DataEnvelope`].
use vstd::prelude::*;

verus! {

/// What a data envelope carries.
pub enum Kind {
    /// The message payload (field 1).
    Payload(Vec<u8>),
}

} // verus!
