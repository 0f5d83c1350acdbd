//! Results that cross the border between the host and a WebAssembly module.
//!
//! A result is serialized on one side; what crosses is the address and the length of the bytes, and
//! a number that says which function of the contract the result is of.

use vstd::prelude::*;
use crate::interface::ContractError;
use crate::state::{StateDelta, StateSummary};
use crate::update::{UpdateModification, ValidateResult};

verus! {

/// The function of a contract that a result is of.
#[derive(Debug, Clone, Copy, PartialEq, Eq, Structural)]
pub enum ResultKind {
    ValidateState,
    ValidateDelta,
    UpdateState,
    SummarizeState,
    StateDelta,
}

impl ResultKind {
    /// The number that stands for the kind.
    pub open spec fn spec_code(self) -> i32 {
        match self {
            ResultKind::ValidateState => 0,
            ResultKind::ValidateDelta => 1,
            ResultKind::UpdateState => 2,
            ResultKind::SummarizeState => 3,
            ResultKind::StateDelta => 4,
        }
    }

    /// The number that stands for the kind.
    pub fn code(self) -> (r: i32)
        ensures
            r == self.spec_code(),
    {
        match self {
            ResultKind::ValidateState => 0,
            ResultKind::ValidateDelta => 1,
            ResultKind::UpdateState => 2,
            ResultKind::SummarizeState => 3,
            ResultKind::StateDelta => 4,
        }
    }

    /// The kind that a number stands for, if it stands for one.
    pub fn from_code(v: i32) -> (r: Option<Self>)
        ensures
            r matches Some(kind) ==> kind.spec_code() == v,
            r is None ==> forall|kind: ResultKind| kind.spec_code() != v,
    {
        match v {
            0 => Some(ResultKind::ValidateState),
            1 => Some(ResultKind::ValidateDelta),
            2 => Some(ResultKind::UpdateState),
            3 => Some(ResultKind::SummarizeState),
            4 => Some(ResultKind::StateDelta),
            _ => None,
        }
    }
}

/// No number stands for two kinds.
pub proof fn law_kind_codes_distinct(a: ResultKind, b: ResultKind)
    requires
        a.spec_code() == b.spec_code(),
    ensures
        a == b,
{
}

/// A serialized result: the address and the number of its bytes, and its kind.
#[derive(Debug, Clone, Copy)]
pub struct ContractInterfaceResult {
    ptr: i64,
    kind: i32,
    size: u32,
}

/// What became of deserializing a result: the result, or the text of the error.
pub type Deserialized<T> = Result<Result<T, ContractError>, String>;

/// The result that deserializing gave, or the error that stands for its failure.
pub open spec fn flattened<T>(decoded: Deserialized<T>) -> Result<T, ContractError> {
    match decoded {
        Ok(value) => value,
        Err(text) => Err(ContractError::Other(text)),
    }
}

/// Takes the result that deserializing gave, or the error that stands for its failure.
fn flatten<T>(decoded: Deserialized<T>) -> (r: Result<T, ContractError>)
    ensures
        r == flattened(decoded),
{
    match decoded {
        Ok(value) => value,
        Err(text) => Err(ContractError::Other(text)),
    }
}

impl ContractInterfaceResult {
    /// The address of the bytes.
    pub closed spec fn spec_ptr(&self) -> i64 {
        self.ptr
    }

    /// The number that stands for the kind.
    pub closed spec fn spec_kind(&self) -> i32 {
        self.kind
    }

    /// The number of bytes.
    pub closed spec fn spec_size(&self) -> u32 {
        self.size
    }

    /// Puts a result together from the numbers that crossed the border.
    pub fn from_parts(ptr: i64, kind: i32, size: u32) -> (r: Self)
        ensures
            r.spec_ptr() == ptr,
            r.spec_kind() == kind,
            r.spec_size() == size,
    {
        ContractInterfaceResult { ptr, kind, size }
    }

    /// The result of the given kind whose `len` serialized bytes are at `ptr`. The length is kept
    /// in 32 bits.
    pub fn from_serialized(kind: ResultKind, ptr: i64, len: usize) -> (r: Self)
        ensures
            r.spec_ptr() == ptr,
            r.spec_kind() == kind.spec_code(),
            r.spec_size() == len as u32,
    {
        ContractInterfaceResult { ptr, kind: kind.code(), size: len as u32 }
    }

    /// The address of the bytes.
    pub fn ptr(&self) -> (r: i64)
        ensures
            r == self.spec_ptr(),
    {
        self.ptr
    }

    /// The number of bytes.
    pub fn size(&self) -> (r: u32)
        ensures
            r == self.spec_size(),
    {
        self.size
    }

    /// The kind of the result, if its number stands for one.
    pub fn kind(&self) -> (r: Option<ResultKind>)
        ensures
            r matches Some(kind) ==> kind.spec_code() == self.spec_kind(),
            r is None ==> forall|kind: ResultKind| kind.spec_code() != self.spec_kind(),
    {
        ResultKind::from_code(self.kind)
    }

    /// The number that stands for the kind.
    pub fn kind_code(&self) -> (r: i32)
        ensures
            r == self.spec_kind(),
    {
        self.kind
    }

    /// The result of validating a state, from what deserializing its bytes gave.
    pub fn unwrap_validate_state_res(self, decoded: Deserialized<ValidateResult>) -> (r: Result<
        ValidateResult,
        ContractError,
    >)
        requires
            self.spec_kind() == ResultKind::ValidateState.spec_code(),
        ensures
            r == flattened(decoded),
    {
        flatten(decoded)
    }

    /// The result of validating a delta, from what deserializing its bytes gave.
    pub fn unwrap_validate_delta_res(self, decoded: Deserialized<bool>) -> (r: Result<
        bool,
        ContractError,
    >)
        requires
            self.spec_kind() == ResultKind::ValidateDelta.spec_code(),
        ensures
            r == flattened(decoded),
    {
        flatten(decoded)
    }

    /// The result of updating a state, from what deserializing its bytes gave, in its owned form.
    pub fn unwrap_update_state(self, decoded: Deserialized<UpdateModification<'_>>) -> (r: Result<
        UpdateModification<'static>,
        ContractError,
    >)
        requires
            self.spec_kind() == ResultKind::UpdateState.spec_code(),
        ensures
            match (r, flattened(decoded)) {
                (Ok(owned), Ok(update)) => {
                    &&& crate::related::state_bytes(owned.new_state) == crate::related::state_bytes(
                        update.new_state,
                    )
                    &&& owned.new_state matches Some(s) ==> s.owned()
                    &&& owned.related == update.related
                },
                (Err(e), Err(cause)) => e == cause,
                _ => false,
            },
    {
        match flatten(decoded) {
            Ok(update) => Ok(update.into_owned()),
            Err(e) => Err(e),
        }
    }

    /// The result of summarizing a state, from what deserializing its bytes gave, in its owned form.
    pub fn unwrap_summarize_state(self, decoded: Deserialized<StateSummary<'_>>) -> (r: Result<
        StateSummary<'static>,
        ContractError,
    >)
        requires
            self.spec_kind() == ResultKind::SummarizeState.spec_code(),
        ensures
            match (r, flattened(decoded)) {
                (Ok(owned), Ok(summary)) => owned@ == summary@ && owned.owned(),
                (Err(e), Err(cause)) => e == cause,
                _ => false,
            },
    {
        match flatten(decoded) {
            Ok(s) => Ok(StateSummary::from(s.into_bytes())),
            Err(e) => Err(e),
        }
    }

    /// The result of computing a delta, from what deserializing its bytes gave, in its owned form.
    pub fn unwrap_get_state_delta(self, decoded: Deserialized<StateDelta<'_>>) -> (r: Result<
        StateDelta<'static>,
        ContractError,
    >)
        requires
            self.spec_kind() == ResultKind::StateDelta.spec_code(),
        ensures
            match (r, flattened(decoded)) {
                (Ok(owned), Ok(delta)) => owned@ == delta@ && owned.owned(),
                (Err(e), Err(cause)) => e == cause,
                _ => false,
            },
    {
        match flatten(decoded) {
            Ok(d) => Ok(StateDelta::from(d.into_bytes())),
            Err(e) => Err(e),
        }
    }
}

/// The numbers of the kinds.
pub proof fn law_kind_codes()
    ensures
        ResultKind::ValidateState.spec_code() == 0,
        ResultKind::ValidateDelta.spec_code() == 1,
        ResultKind::UpdateState.spec_code() == 2,
        ResultKind::SummarizeState.spec_code() == 3,
        ResultKind::StateDelta.spec_code() == 4,
{
}

/// A result that was deserialized is taken as it is, and the text of a failure becomes that of an
/// error.
pub proof fn law_flattened<T>(value: Result<T, ContractError>, text: String)
    ensures
        flattened::<T>(Ok(value)) == value,
        flattened::<T>(Err(text)) == Err::<T, ContractError>(ContractError::Other(text)),
{
}

} // verus!
