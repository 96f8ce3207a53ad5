//! Errors that end a session.

use crate::coding::EncodeError;
use vstd::prelude::*;

verus! {

/// `web_transport::WriteError`, which is carried through unread.
#[verifier::external_type_specification]
#[verifier::external_body]
pub struct ExWriteError(web_transport::WriteError);

/// Why a stream, and with it the session that owns it, failed.
#[derive(Debug)]
pub enum SessionError {
    /// The transport refused a write.
    Write(web_transport::WriteError),
    /// A message could not be serialised, or a write made no progress.
    Encode(EncodeError),
}

} // verus!
