//! Updates, related contracts and the results of a module's functions.

use locutus_stdlib::{
    ContractError, ContractInstanceId, ContractInterface, ContractInterfaceResult, Parameters,
    RelatedContract, RelatedContracts, RelatedMode, ResultKind, State, StateDelta, StateSummary,
    UpdateData, UpdateModification, ValidateResult,
};
use std::borrow::Cow;

fn id(n: u8) -> ContractInstanceId {
    ContractInstanceId::new([n; 32])
}

struct AlwaysValid;

impl ContractInterface for AlwaysValid {
    fn validate_state(
        _parameters: Parameters<'static>,
        _state: State<'static>,
        _related: RelatedContracts<'static>,
    ) -> Result<ValidateResult, ContractError> {
        Ok(ValidateResult::Valid)
    }

    fn validate_delta(
        _parameters: Parameters<'static>,
        _delta: StateDelta<'static>,
    ) -> Result<bool, ContractError> {
        Ok(true)
    }

    fn update_state(
        _parameters: Parameters<'static>,
        state: State<'static>,
        _data: Vec<UpdateData<'static>>,
    ) -> Result<UpdateModification<'static>, ContractError> {
        Ok(UpdateModification::valid(state))
    }

    fn summarize_state(
        _parameters: Parameters<'static>,
        _state: State<'static>,
    ) -> Result<StateSummary<'static>, ContractError> {
        Ok(StateSummary::from(vec![]))
    }

    fn get_state_delta(
        _parameters: Parameters<'static>,
        _state: State<'static>,
        _summary: StateSummary<'static>,
    ) -> Result<StateDelta<'static>, ContractError> {
        Ok(StateDelta::from(vec![]))
    }
}

#[test]
fn a_contract_that_accepts_everything() {
    let parameters = || Parameters::from(vec![]);
    let state = || State::from(vec![1]);
    let validated = AlwaysValid::validate_state(parameters(), state(), RelatedContracts::new());
    assert_eq!(validated.unwrap(), ValidateResult::Valid);
    assert!(AlwaysValid::validate_delta(parameters(), StateDelta::from(vec![])).unwrap());
    let update = AlwaysValid::update_state(parameters(), state(), vec![]).unwrap();
    assert!(update.get_related().is_empty());
    assert_eq!(update.unwrap_valid(), state());
    let summary = AlwaysValid::summarize_state(parameters(), state()).unwrap();
    assert_eq!(summary.size(), 0);
    let delta = AlwaysValid::get_state_delta(parameters(), state(), summary).unwrap();
    assert_eq!(delta.size(), 0);
}

#[test]
fn modifications() {
    let bytes = [1u8, 2];
    let update = UpdateModification::valid(State::from(&bytes[..]));
    assert!(update.get_related().is_empty());
    let owned = update.into_owned();
    let state = owned.unwrap_valid();
    assert!(matches!(*state, Cow::Owned(_)));
    assert_eq!(state, State::from(vec![1, 2]));

    let update = UpdateModification::requires_related(vec![RelatedContract {
        contract_instance_id: id(5),
        mode: RelatedMode::StateOnceThenDeltas,
    }]);
    assert!(update.new_state.is_none());
    let owned = update.into_owned();
    assert!(owned.new_state.is_none());
    assert_eq!(owned.get_related().len(), 1);
    assert_eq!(owned.get_related()[0].contract_instance_id, id(5));
    assert!(matches!(owned.get_related()[0].mode, RelatedMode::StateOnceThenDeltas));
}

#[test]
fn related_contracts() {
    assert_eq!(RelatedContracts::default(), RelatedContracts::new());
    let a = RelatedContracts::from_entries(vec![
        (id(1), Some(State::from(vec![1]))),
        (id(2), None),
        (id(1), Some(State::from(vec![3]))),
    ]);
    assert_eq!(a.entries().len(), 2);
    let b = RelatedContracts::from_entries(vec![
        (id(2), None),
        (id(1), Some(State::from(&[3u8][..]))),
    ]);
    assert_eq!(a, b);
    assert_eq!(b, a);
    assert_ne!(a, RelatedContracts::new());
    assert_ne!(RelatedContracts::new(), a);
    let missing = RelatedContracts::from_entries(vec![(id(2), None), (id(1), None)]);
    assert_ne!(a, missing);
    assert_ne!(missing, a);
    assert_eq!(b.clone(), b);
    let copy = b.clone();
    assert!(matches!(**copy.entries()[1].1.as_ref().unwrap(), Cow::Borrowed(_)));
    let owned = b.clone().into_owned();
    assert_eq!(owned, b);
    for (_, state) in owned.entries() {
        if let Some(state) = state {
            assert!(matches!(**state, Cow::Owned(_)));
        }
    }
}

#[test]
fn collecting_entries_again_gives_the_same() {
    let a = RelatedContracts::from_entries(vec![
        (id(3), Some(State::from(vec![1]))),
        (id(2), None),
    ]);
    let entries = a.entries().iter().map(|(id, state)| (*id, state.clone())).collect();
    assert_eq!(RelatedContracts::from_entries(entries), a);
}

fn all_updates() -> Vec<(UpdateData<'static>, usize)> {
    let state = State::from(vec![1, 2, 3]);
    let delta = StateDelta::from(vec![4, 5]);
    let related_to = id(9);
    vec![
        (UpdateData::State(state.clone()), 3),
        (UpdateData::Delta(delta.clone()), 2),
        (UpdateData::StateAndDelta { state: state.clone(), delta: delta.clone() }, 5),
        (UpdateData::RelatedState { related_to, state: state.clone() }, 35),
        (UpdateData::RelatedDelta { related_to, delta: delta.clone() }, 34),
        (UpdateData::RelatedStateAndDelta { related_to, state, delta }, 37),
    ]
}

#[test]
fn sizes_and_copies_of_updates() {
    for (update, size) in all_updates() {
        assert_eq!(update.size(), size);
        let copy = update.clone();
        assert_eq!(copy, update);
        let owned = update.into_owned();
        assert_eq!(owned, copy);
        assert_eq!(owned.size(), size);
    }
}

#[test]
fn updates_of_different_kinds_differ() {
    let updates = all_updates();
    for (i, (a, _)) in updates.iter().enumerate() {
        for (j, (b, _)) in updates.iter().enumerate() {
            assert_eq!(a == b, i == j);
        }
    }
}

#[test]
fn delta_of_an_update() {
    let update = UpdateData::from(StateDelta::from(vec![4]));
    assert_eq!(update.unwrap_delta(), &StateDelta::from(vec![4]));
}

#[test]
fn validation_results() {
    assert_eq!(ValidateResult::Valid, ValidateResult::Valid);
    assert_ne!(ValidateResult::Valid, ValidateResult::Invalid);
    let a = ValidateResult::RequestRelated(vec![id(1), id(2)]);
    assert_eq!(a, ValidateResult::RequestRelated(vec![id(1), id(2)]));
    assert_ne!(a, ValidateResult::RequestRelated(vec![id(2), id(1)]));
    assert_ne!(a, ValidateResult::RequestRelated(vec![id(1)]));
    assert_ne!(a, ValidateResult::Invalid);
}

#[test]
fn text_of_contract_errors() {
    let text = |error: ContractError| error.to_string();
    assert_eq!(text(ContractError::Deser("x".to_string())), "de/serialization error: x");
    assert_eq!(text(ContractError::InvalidUpdate), "invalid contract update");
    assert_eq!(text(ContractError::InvalidState), "trying to read an invalid state");
    assert_eq!(text(ContractError::InvalidDelta), "trying to read an invalid delta");
    assert_eq!(text(ContractError::Other("y".to_string())), "y");
}

#[test]
fn kinds_and_their_numbers() {
    let kinds = [
        ResultKind::ValidateState,
        ResultKind::ValidateDelta,
        ResultKind::UpdateState,
        ResultKind::SummarizeState,
        ResultKind::StateDelta,
    ];
    for (code, kind) in kinds.into_iter().enumerate() {
        assert_eq!(kind.code(), code as i32);
        assert_eq!(ResultKind::from_code(code as i32), Some(kind));
        let result = ContractInterfaceResult::from_serialized(kind, 77, 12);
        assert_eq!(result.kind(), Some(kind));
        assert_eq!(result.kind_code(), code as i32);
        assert_eq!(result.ptr(), 77);
        assert_eq!(result.size(), 12);
    }
    assert_eq!(ResultKind::from_code(5), None);
    assert_eq!(ResultKind::from_code(-1), None);
    assert_eq!(ContractInterfaceResult::from_parts(1, 9, 2).kind(), None);
}

#[test]
fn results_of_functions() {
    let made = |kind| ContractInterfaceResult::from_serialized(kind, 0, 0);

    let result = made(ResultKind::ValidateState);
    let value = result.unwrap_validate_state_res(Ok(Ok(ValidateResult::Invalid)));
    assert_eq!(value.unwrap(), ValidateResult::Invalid);
    let value = result.unwrap_validate_state_res(Err("bad".to_string()));
    assert!(matches!(value, Err(ContractError::Other(text)) if text == "bad"));

    let result = made(ResultKind::ValidateDelta);
    assert!(result.unwrap_validate_delta_res(Ok(Ok(true))).unwrap());
    let value = result.unwrap_validate_delta_res(Ok(Err(ContractError::InvalidDelta)));
    assert!(matches!(value, Err(ContractError::InvalidDelta)));

    let bytes = [1u8, 2];
    let result = made(ResultKind::UpdateState);
    let update = UpdateModification::valid(State::from(&bytes[..]));
    let state = result.unwrap_update_state(Ok(Ok(update))).unwrap().unwrap_valid();
    assert_eq!(state, State::from(vec![1, 2]));
    assert!(matches!(*state, Cow::Owned(_)));
    let value = result.unwrap_update_state(Err("bad".to_string()));
    assert!(matches!(value, Err(ContractError::Other(_))));

    let result = made(ResultKind::SummarizeState);
    let summary = result.unwrap_summarize_state(Ok(Ok(StateSummary::from(&bytes[..])))).unwrap();
    assert_eq!(summary.as_ref(), &[1, 2]);
    assert!(matches!(*summary, Cow::Owned(_)));

    let result = made(ResultKind::StateDelta);
    let delta = result.unwrap_get_state_delta(Ok(Ok(StateDelta::from(&bytes[..])))).unwrap();
    assert_eq!(delta.as_ref(), &[1, 2]);
    assert!(matches!(*delta, Cow::Owned(_)));
    let value = result.unwrap_get_state_delta(Ok(Err(ContractError::InvalidState)));
    assert!(matches!(value, Err(ContractError::InvalidState)));
}
