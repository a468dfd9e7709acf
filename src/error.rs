//! The error taxonomy of the subsystem.
use vstd::prelude::*;

use crate::message::RecordError;
use crate::text::write_decimal;

verus! {

/// Why an operation failed. Every failure is scoped to the operation that
/// produced it.
#[derive(Clone, Debug, PartialEq, Eq)]
pub enum SyncError {
    /// Hosting was started while already on.
    AlreadyActive,
    /// The listening socket could not be bound.
    BindFailure { cause: String },
    /// A discovery session could not be created or registered.
    DiscoveryFailure { cause: String },
    /// Every dial attempt failed; `last_error` tells the last cause.
    ConnectFailure { attempts: u32, last_error: String },
    /// A send was attempted with no active link.
    NotConnected,
    /// The link's queue no longer takes messages.
    SendFailed,
    /// An inbound record or payload could not be read.
    DecodeFailure { kind: RecordError },
    /// A local file could not be read or written.
    IoFailure { cause: String },
    /// The capability is not available on this platform.
    PlatformUnsupported,
}

impl SyncError {
    /// A human-readable description of the error.
    pub fn message(&self) -> (r: String)
        ensures
            self is NotConnected ==> r@ == "Not connected"@,
            self is AlreadyActive ==> r@ == "Already hosting"@,
            self is SendFailed ==> r@ == "Send failed"@,
            self is BindFailure ==> r@ == self->BindFailure_cause@,
            self is DiscoveryFailure ==> r@ == self->DiscoveryFailure_cause@,
            self is IoFailure ==> r@ == self->IoFailure_cause@,
            self is PlatformUnsupported ==> r@ == "Screenshot capture is only supported on macOS"@,
            self is DecodeFailure ==> r@ == (if self->DecodeFailure_kind == RecordError::Malformed {
                "Malformed record"@
            } else {
                "Unrecognized record"@
            }),
            self is ConnectFailure ==> r@ == "Failed after "@ + crate::text::decimal(
                self->ConnectFailure_attempts as nat,
            ) + " attempts. "@ + self->ConnectFailure_last_error@,
    {
        match self {
            SyncError::AlreadyActive => String::from_str("Already hosting"),
            SyncError::BindFailure { cause } => cause.clone(),
            SyncError::DiscoveryFailure { cause } => cause.clone(),
            SyncError::ConnectFailure { attempts, last_error } => {
                let mut r = String::from_str("Failed after ");
                write_decimal(&mut r, *attempts as u64);
                r.append(" attempts. ");
                r.append(last_error.as_str());
                r
            },
            SyncError::NotConnected => String::from_str("Not connected"),
            SyncError::SendFailed => String::from_str("Send failed"),
            SyncError::DecodeFailure { kind } => match kind {
                RecordError::Malformed => String::from_str("Malformed record"),
                RecordError::Unrecognized => String::from_str("Unrecognized record"),
            },
            SyncError::IoFailure { cause } => cause.clone(),
            SyncError::PlatformUnsupported => String::from_str(
                "Screenshot capture is only supported on macOS",
            ),
        }
    }
}

} // verus!
