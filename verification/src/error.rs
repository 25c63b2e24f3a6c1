//! Why the handling of one event ended without success.

use crate::store::StoreError;
use vstd::prelude::*;

verus! {

/// The failure of one handler invocation. It ends that event only.
#[derive(Clone, Copy, Debug, PartialEq, Eq, Structural)]
pub enum HandlerError {
    /// The content of a metadata event is no metadata document.
    MalformedPayload,
    /// A direct message names no recipient.
    MissingRecipient,
    /// The content of a direct message is not standard base64.
    InvalidEncoding,
    /// The decoded payload is longer than a recorded size can say.
    PayloadTooLarge,
    /// The store refused an operation.
    Store(StoreError),
}

/// The handler's result for the store's answer to a final write.
pub open spec fn surfaced(done: Result<(), StoreError>) -> Result<(), HandlerError> {
    match done {
        Ok(()) => Ok(()),
        Err(e) => Err(HandlerError::Store(e)),
    }
}

} // verus!
