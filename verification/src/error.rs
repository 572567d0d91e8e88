//! Error taxonomy of the adapter: decode failures naming the payload that was
//! malformed, and domain failures surfaced by the capability itself.

use vstd::prelude::*;

verus! {

/// Which byte payload of an operation failed to decode.
#[derive(Clone, Copy, Debug, PartialEq, Eq, Structural)]
pub enum PayloadField {
    /// The parameters payload.
    Parameters,
    /// The current-state payload.
    CurrentState,
    /// The state-summary payload.
    Summary,
    /// The state-delta payload.
    Delta,
    /// The update entry at this 1-indexed position in the batch.
    UpdateEntry(usize),
}

/// A failure reported by the domain capability itself, carrying a
/// domain-chosen reason code.
#[derive(Clone, Copy, Debug, PartialEq, Eq, Structural)]
pub struct DomainError {
    pub code: u64,
}

/// Failure of an adapter operation.
#[derive(Clone, Copy, Debug, PartialEq, Eq, Structural)]
pub enum ContractError {
    /// A byte payload was malformed; names the payload that failed.
    Decode(PayloadField),
    /// An update entry was rejected by the domain capability; carries the
    /// 1-indexed position of the failing entry and the capability's error.
    Domain { index: usize, source: DomainError },
}

impl ContractError {
    /// A human-readable rendering of the error.
    pub fn message(&self) -> String {
        match self {
            ContractError::Decode(PayloadField::Parameters) => {
                "failed to decode the parameters payload".to_string()
            },
            ContractError::Decode(PayloadField::CurrentState) => {
                "failed to decode the state payload".to_string()
            },
            ContractError::Decode(PayloadField::Summary) => {
                "failed to decode the summary payload".to_string()
            },
            ContractError::Decode(PayloadField::Delta) => {
                "failed to decode the delta payload".to_string()
            },
            ContractError::Decode(PayloadField::UpdateEntry(_)) => {
                "failed to decode an update entry".to_string()
            },
            ContractError::Domain { .. } => {
                "an update entry was rejected by the domain logic".to_string()
            },
        }
    }
}

} // verus!
