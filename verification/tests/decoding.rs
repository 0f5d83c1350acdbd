//! Values sent by clients.

use std::borrow::Cow;

use locutus_stdlib::{
    ContractCode, ContractInstanceId, ContractKey, Parameters, RelatedContracts, State,
    StateDelta, TryFromTsStd, UpdateData, Value, WsApiError,
};

fn text(s: &str) -> Value {
    Value::Text(s.to_string())
}

fn binary(bytes: &[u8]) -> Value {
    Value::Binary(bytes.to_vec())
}

fn id(n: u8) -> ContractInstanceId {
    ContractInstanceId::new([n; 32])
}

#[test]
fn parts_of_values() {
    assert_eq!(text("ab").as_str(), Some("ab"));
    assert_eq!(text("ab").as_slice(), Some(&b"ab"[..]));
    assert_eq!(binary(b"ab").as_str(), None);
    assert_eq!(binary(b"ab").as_slice(), Some(&b"ab"[..]));
    assert_eq!(Value::RawText(vec![0xff]).as_str(), None);
    assert_eq!(Value::RawText(vec![0xff]).as_slice(), Some(&[0xff][..]));
    assert_eq!(Value::Other.as_slice(), None);
    assert!(Value::Other.as_map().is_none());
    assert_eq!(Value::Pairs(vec![(text("a"), Value::Other)]).as_map().unwrap().len(), 1);
}

#[test]
fn parameters_and_code() {
    let value = binary(&[1, 2, 3]);
    let parameters = Parameters::try_decode(&value).unwrap();
    assert_eq!(parameters.as_ref(), &[1, 2, 3]);
    let code = ContractCode::try_decode(&value).unwrap();
    assert_eq!(code, ContractCode::from(vec![1, 2, 3]));
    assert_eq!(code.data(), &[1, 2, 3]);
    let value = text("abc");
    assert_eq!(Parameters::try_decode(&value).unwrap().as_ref(), b"abc");
}

#[test]
fn key_from_a_value() {
    let value = Value::Pairs(vec![
        (text("code"), binary(&[5; 32])),
        (text("instance"), binary(&[1; 32])),
    ]);
    let key = ContractKey::try_decode(&value).unwrap();
    assert_eq!(key.bytes(), &[1; 32]);
    assert_eq!(key.code_hash(), None);

    let value = Value::Pairs(vec![
        (text("instance"), binary(&[1; 32])),
        (text("instance"), binary(&[2; 3])),
    ]);
    let key = ContractKey::try_decode(&value).unwrap();
    let mut expected = [0; 32];
    expected[..3].copy_from_slice(&[2; 3]);
    assert_eq!(key.bytes(), &expected);
}

#[test]
fn key_from_a_value_without_one() {
    let cause = match ContractKey::try_decode(&Value::Other) {
        Err(WsApiError::MsgpackDecodeError { cause }) => cause,
        other => panic!("unexpected: {other:?}"),
    };
    assert_eq!(cause, "Failed decoding ContractKey, input value is not a map");
    let value = Value::Pairs(vec![(text("code"), Value::Other)]);
    let cause = match ContractKey::try_decode(&value) {
        Err(WsApiError::MsgpackDecodeError { cause }) => cause,
        other => panic!("unexpected: {other:?}"),
    };
    assert_eq!(cause, "Failed decoding WrappedContract, instance not found");
}

#[test]
fn values_that_are_no_key() {
    let value = Value::Pairs(vec![(text("instance"), binary(&[1; 33]))]);
    assert!(ContractKey::from_value(&value).is_none());
    let value = Value::Pairs(vec![(text("instance"), Value::Other)]);
    assert!(ContractKey::from_value(&value).is_none());
    let value = Value::Pairs(vec![(binary(b"instance"), binary(&[1; 32]))]);
    assert!(ContractKey::from_value(&value).is_none());
    let value = Value::Pairs(vec![(text("instance"), binary(&[1; 32]))]);
    assert!(matches!(ContractKey::from_value(&value), Some(Ok(_))));
}

#[test]
fn related_contracts_from_a_value() {
    let value = Value::Pairs(vec![
        (text(&id(1).encode()), binary(&[10])),
        (binary(id(2).encode().as_bytes()), binary(&[20])),
        (text(&id(1).encode()), text("x")),
    ]);
    let related = RelatedContracts::try_decode(&value).unwrap();
    let expected = RelatedContracts::from_entries(vec![
        (id(2), Some(State::from(vec![20]))),
        (id(1), Some(State::from(b"x".to_vec()))),
    ]);
    assert_eq!(related, expected);
    assert_eq!(related.entries().len(), 2);
    for (_, state) in related.entries() {
        assert!(matches!(**state.as_ref().unwrap(), Cow::Borrowed(_)));
    }
    assert_eq!(RelatedContracts::try_from(&value).unwrap(), expected);
    assert_eq!(RelatedContracts::from_value(&value), Some(expected));
    let empty = Value::Pairs(vec![]);
    assert_eq!(RelatedContracts::try_decode(&empty).unwrap(), RelatedContracts::new());
}

#[test]
fn values_that_are_no_related_contracts() {
    assert!(RelatedContracts::from_value(&text("x")).is_none());
    let value = Value::Pairs(vec![(text("0"), binary(&[]))]);
    assert!(RelatedContracts::from_value(&value).is_none());
    let value = Value::Pairs(vec![(text("1"), Value::Other)]);
    assert!(RelatedContracts::from_value(&value).is_none());
    let value = Value::Pairs(vec![
        (Value::Other, binary(&[])),
        (text("1"), binary(&[])),
    ]);
    assert!(RelatedContracts::from_value(&value).is_none());
}

#[test]
fn updates_from_values() {
    let value = Value::Pairs(vec![(text("delta"), binary(&[1]))]);
    let update = UpdateData::try_decode(&value).unwrap();
    assert_eq!(update, UpdateData::Delta(StateDelta::from(vec![1])));
    assert!(matches!(**update.unwrap_delta(), Cow::Borrowed(_)));

    let value = Value::Pairs(vec![(text("state"), binary(&[2]))]);
    let update = UpdateData::try_decode(&value).unwrap();
    assert_eq!(update, UpdateData::Delta(StateDelta::from(vec![2])));

    let expected = UpdateData::StateAndDelta {
        state: State::from(vec![2]),
        delta: StateDelta::from(vec![1]),
    };
    let value = Value::Pairs(vec![(text("delta"), binary(&[1])), (text("state"), binary(&[2]))]);
    assert_eq!(UpdateData::try_decode(&value).unwrap(), expected);
    let value = Value::Pairs(vec![
        (text("state"), binary(&[3])),
        (text("delta"), binary(&[1])),
        (text("state"), binary(&[2])),
    ]);
    assert_eq!(UpdateData::try_decode(&value).unwrap(), expected);

    let value = Value::Pairs(vec![
        (text("relatedTo"), text(&id(7).encode())),
        (text("delta"), binary(&[1])),
    ]);
    let update = UpdateData::try_decode(&value).unwrap();
    let expected = UpdateData::RelatedDelta {
        related_to: id(7),
        delta: StateDelta::from(vec![1]),
    };
    assert_eq!(update, expected);
}

#[test]
fn values_that_are_no_update() {
    let related = || (text("relatedTo"), text(&id(7).encode()));
    let state = || (text("state"), binary(&[2]));
    let delta = || (text("delta"), binary(&[1]));
    for pairs in [
        vec![],
        vec![related()],
        vec![related(), state()],
        vec![related(), state(), delta()],
        vec![delta(), (text("other"), binary(&[]))],
        vec![(text("delta"), Value::Other)],
        vec![(Value::Other, binary(&[1]))],
        vec![delta(), (text("relatedTo"), text("0"))],
    ] {
        assert!(UpdateData::from_value(&Value::Pairs(pairs)).is_none());
    }
    assert!(UpdateData::from_value(&binary(&[1])).is_none());
}

#[test]
fn text_of_client_errors() {
    let error = WsApiError::deserialization("why".to_string());
    assert_eq!(
        error.to_string(),
        "Failed decoding msgpack message from client request: why"
    );
    assert_eq!(
        WsApiError::UnsupportedContractVersion.to_string(),
        "Unsupported contract version"
    );
    assert_eq!(
        WsApiError::UnpackingContractContainerError("x".to_string()).to_string(),
        "Failed unpacking contract container"
    );
}
