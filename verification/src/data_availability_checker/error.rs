//! Errors of the availability checker.
use vstd::prelude::*;
use crate::primitives::Hash256;

verus! {

/// Errors raised while checking a block's data availability.
#[derive(Debug)]
pub enum AvailabilityCheckError {
    /// No pending block is known for this root, or the data for it was refused.
    UnknownBlock(Hash256),
    /// The slot clock could not be read.
    SlotClockError,
    /// An internal inconsistency, described by the message.
    Unexpected(String),
    /// Blobs failed KZG verification, for the reason given.
    InvalidBlobs(String),
    /// Data columns failed KZG verification, for the reason given.
    InvalidColumn(String),
}

impl AvailabilityCheckError {
    /// The variant's name, followed by the message in brackets for
    /// `Unexpected`.
    pub open spec fn spec_describe(&self) -> Seq<char> {
        match self {
            AvailabilityCheckError::UnknownBlock(_) => "UnknownBlock"@,
            AvailabilityCheckError::SlotClockError => "SlotClockError"@,
            AvailabilityCheckError::Unexpected(m) => "Unexpected("@ + m@ + ")"@,
            AvailabilityCheckError::InvalidBlobs(m) => "InvalidBlobs("@ + m@ + ")"@,
            AvailabilityCheckError::InvalidColumn(m) => "InvalidColumn("@ + m@ + ")"@,
        }
    }

    /// A one-line description of the error.
    pub fn describe(&self) -> (s: String)
        ensures
            s@ == self.spec_describe(),
    {
        match self {
            AvailabilityCheckError::UnknownBlock(_) => String::from_str("UnknownBlock"),
            AvailabilityCheckError::SlotClockError => String::from_str("SlotClockError"),
            AvailabilityCheckError::Unexpected(m) => {
                let mut s = String::from_str("Unexpected(");
                s.append(m.as_str());
                s.append(")");
                s
            },
            AvailabilityCheckError::InvalidBlobs(m) => {
                let mut s = String::from_str("InvalidBlobs(");
                s.append(m.as_str());
                s.append(")");
                s
            },
            AvailabilityCheckError::InvalidColumn(m) => {
                let mut s = String::from_str("InvalidColumn(");
                s.append(m.as_str());
                s.append(")");
                s
            },
        }
    }
}

} // verus!
