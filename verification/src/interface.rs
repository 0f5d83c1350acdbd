//! The interface that contracts implement.

use vstd::prelude::*;
use vstd::string::*;
use crate::related::RelatedContracts;
use crate::state::{Parameters, State, StateDelta, StateSummary};
use crate::update::{UpdateData, UpdateModification, ValidateResult};

verus! {

/// Type of errors during interaction with a contract.
#[derive(Debug)]
pub enum ContractError {
    /// A value could not be serialized or deserialized; holds the reason.
    Deser(String),
    InvalidUpdate,
    InvalidState,
    InvalidDelta,
    /// Any other error; holds its text.
    Other(String),
}

impl ContractError {
    /// The text form of the error.
    pub fn to_string(&self) -> (r: String)
        ensures
            r@ == match *self {
                ContractError::Deser(reason) => "de/serialization error: "@ + reason@,
                ContractError::InvalidUpdate => "invalid contract update"@,
                ContractError::InvalidState => "trying to read an invalid state"@,
                ContractError::InvalidDelta => "trying to read an invalid delta"@,
                ContractError::Other(text) => text@,
            },
    {
        match self {
            ContractError::Deser(reason) => {
                "de/serialization error: ".to_string().concat(reason.as_str())
            },
            ContractError::InvalidUpdate => "invalid contract update".to_string(),
            ContractError::InvalidState => "trying to read an invalid state".to_string(),
            ContractError::InvalidDelta => "trying to read an invalid delta".to_string(),
            ContractError::Other(text) => text.clone(),
        }
    }
}

/// Trait to implement for the contract building.
///
/// Contains all necessary methods to interact with the contract.
pub trait ContractInterface {
    /// Verify that the state is valid, given the parameters.
    fn validate_state(
        parameters: Parameters<'static>,
        state: State<'static>,
        related: RelatedContracts<'static>,
    ) -> Result<ValidateResult, ContractError>;

    /// Verify that a delta is valid if possible, returns false if and only if the delta is
    /// definitely invalid, true otherwise.
    fn validate_delta(
        parameters: Parameters<'static>,
        delta: StateDelta<'static>,
    ) -> Result<bool, ContractError>;

    /// Update the state to account for the new data
    fn update_state(
        parameters: Parameters<'static>,
        state: State<'static>,
        data: Vec<UpdateData<'static>>,
    ) -> Result<UpdateModification<'static>, ContractError>;

    /// Generate a concise summary of a state that can be used to create deltas
    /// relative to this state.
    fn summarize_state(
        parameters: Parameters<'static>,
        state: State<'static>,
    ) -> Result<StateSummary<'static>, ContractError>;

    /// Generate a state delta using a summary from the current state.
    /// This along with [`Self::summarize_state`] allows flexible and efficient
    /// state synchronization between peers.
    fn get_state_delta(
        parameters: Parameters<'static>,
        state: State<'static>,
        summary: StateSummary<'static>,
    ) -> Result<StateDelta<'static>, ContractError>;
}

} // verus!
