//! Interface and related utilities for interaction with the compiled WASM contracts.
//!
//! Contracts have an isomorphic interface which partially maps to this interface, allowing
//! interaction between the runtime and the contracts themselves. The crate holds the data that
//! crosses that border, the keys that contracts are found by, and the rules by which both are read
//! from what clients and modules send.

pub mod base58;
pub mod bytes;
pub mod code;
pub mod contract;
pub mod decode;
pub mod digest;
pub mod display;
pub mod interface;
pub mod key;
pub mod msgpack;
pub mod numeral;
pub mod related;
pub mod state;
pub mod update;
pub mod wasm_interface;

pub use crate::base58::Base58Error;
pub use crate::code::ContractCode;
pub use crate::contract::{Contract, ReadError};
pub use crate::digest::CONTRACT_KEY_SIZE;
pub use crate::interface::{ContractError, ContractInterface};
pub use crate::key::{ContractInstanceId, ContractKey};
pub use crate::msgpack::{TryFromTsStd, Value, WsApiError};
pub use crate::related::{RelatedContract, RelatedContracts, RelatedMode};
pub use crate::state::{Parameters, State, StateDelta, StateSummary};
pub use crate::update::{UpdateData, UpdateModification, ValidateResult};
pub use crate::wasm_interface::{ContractInterfaceResult, ResultKind};
