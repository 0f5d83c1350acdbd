//! Decoding parameters, code and keys from the values sent by clients.

use vstd::prelude::*;
use crate::base58;
use crate::code::ContractCode;
use crate::digest::CONTRACT_KEY_SIZE;
use crate::key::ContractKey;
use crate::msgpack;
use crate::msgpack::{find_field, has_text_keys, TryFromTsStd, Value, WsApiError};
use crate::state::Parameters;

verus! {

impl<'a> TryFromTsStd<&'a Value> for Parameters<'a> {
    open spec fn decodable(value: &'a Value) -> bool {
        value.bytes() is Some
    }

    fn try_decode(value: &'a Value) -> (r: Result<Self, WsApiError>)
        ensures
            r matches Ok(parameters) && value.bytes() == Some(parameters@) && !parameters.owned(),
    {
        let params = value.as_slice().unwrap();
        Ok(Parameters::from(params))
    }
}

impl<'a> TryFromTsStd<&'a Value> for ContractCode<'a> {
    open spec fn decodable(value: &'a Value) -> bool {
        value.bytes() is Some
    }

    fn try_decode(value: &'a Value) -> (r: Result<Self, WsApiError>)
        ensures
            r matches Ok(code) && value.bytes() == Some(code@) && code.wf() && !code.owned(),
            r matches Ok(code) && code.spec_hash() == crate::digest::blake2s256(code@),
    {
        let data = value.as_slice().unwrap();
        Ok(ContractCode::from(data))
    }
}

/// The bytes of the instance id in a key sent by a client, or the text of the error that is returned
/// instead; `None` where the value is a map that does not have the form of a key.
///
/// The id is the field `instance`, with zeros behind it where it is shorter than a key.
pub open spec fn key_of_value(value: Value) -> Option<Result<Seq<u8>, Seq<char>>> {
    match value.entries() {
        None => Some(Err("Failed decoding ContractKey, input value is not a map"@)),
        Some(entries) => if !msgpack::text_keys(entries) {
            None
        } else {
            match msgpack::field(entries, "instance"@) {
                None => Some(Err("Failed decoding WrappedContract, instance not found"@)),
                Some(instance) => match instance.bytes() {
                    Some(bytes) => if bytes.len() <= CONTRACT_KEY_SIZE {
                        Some(Ok(crate::key::pad_key(bytes)))
                    } else {
                        None
                    },
                    None => None,
                },
            }
        },
    }
}

/// `r` is what [`key_of_value`] says.
pub open spec fn is_key_of_value(value: Value, r: Result<ContractKey, WsApiError>) -> bool {
    match r {
        Ok(key) => {
            &&& key_of_value(value) == Some(Ok::<Seq<u8>, Seq<char>>(key@.instance))
            &&& key@.code is None
        },
        Err(WsApiError::MsgpackDecodeError { cause }) => key_of_value(value) == Some(
            Err::<Seq<u8>, Seq<char>>(cause@),
        ),
        Err(_) => false,
    }
}

impl ContractKey {
    /// Decodes a key sent by a client; `None` where the value is a map that does not have the form
    /// of a key.
    pub fn from_value(value: &Value) -> (r: Option<Result<Self, WsApiError>>)
        ensures
            match r {
                Some(decoded) => is_key_of_value(*value, decoded),
                None => key_of_value(*value) is None,
            },
            match value.entries() {
                Some(entries) if msgpack::text_keys(entries) => match msgpack::field(
                    entries,
                    "instance"@,
                ) {
                    Some(instance) => match instance.bytes() {
                        Some(bytes) => bytes.len() == CONTRACT_KEY_SIZE ==> (r matches Some(Ok(key))
                            && key@.instance == bytes && key@.code is None),
                        None => true,
                    },
                    None => true,
                },
                _ => true,
            },
    {
        let key_map = match value.as_map() {
            Some(map_value) => map_value,
            None => {
                return Some(
                    Err(
                        WsApiError::MsgpackDecodeError {
                            cause: "Failed decoding ContractKey, input value is not a map".to_string(),
                        },
                    ),
                );
            },
        };
        if !has_text_keys(key_map) {
            return None;
        }
        let instance_value = match find_field(key_map, "instance") {
            Some(instance_value) => instance_value,
            None => {
                return Some(
                    Err(
                        WsApiError::MsgpackDecodeError {
                            cause: "Failed decoding WrappedContract, instance not found".to_string(),
                        },
                    ),
                );
            },
        };
        let bytes = match instance_value.as_slice() {
            Some(bytes) => bytes,
            None => {
                return None;
            },
        };
        if bytes.len() > CONTRACT_KEY_SIZE {
            return None;
        }
        let instance_id = base58::encode(bytes);
        proof {
            base58::law_base58_round_trip(bytes@, CONTRACT_KEY_SIZE as nat);
        }
        match ContractKey::from_id(instance_id) {
            Ok(key) => Some(Ok(key)),
            Err(_) => None,
        }
    }
}

impl<'a> TryFromTsStd<&'a Value> for ContractKey {
    open spec fn decodable(value: &'a Value) -> bool {
        key_of_value(*value) is Some
    }

    fn try_decode(value: &'a Value) -> (r: Result<Self, WsApiError>)
        ensures
            is_key_of_value(*value, r),
            match value.entries() {
                Some(entries) if msgpack::text_keys(entries) => match msgpack::field(
                    entries,
                    "instance"@,
                ) {
                    Some(instance) => match instance.bytes() {
                        Some(bytes) => bytes.len() == CONTRACT_KEY_SIZE ==> (r matches Ok(key)
                            && key@.instance == bytes && key@.code is None),
                        None => true,
                    },
                    None => true,
                },
                _ => true,
            },
    {
        ContractKey::from_value(value).unwrap()
    }
}

/// A key whose field `instance` has the size of a key is decoded to the key with those bytes.
pub proof fn law_key_of_instance(value: Value, entries: Seq<(Value, Value)>, instance: Value, bytes: Seq<u8>)
    requires
        value.entries() == Some(entries),
        msgpack::text_keys(entries),
        msgpack::field(entries, "instance"@) == Some(instance),
        instance.bytes() == Some(bytes),
        bytes.len() == CONTRACT_KEY_SIZE,
    ensures
        key_of_value(value) == Some(Ok::<Seq<u8>, Seq<char>>(bytes)),
{
    assert(crate::key::pad_key(bytes) =~= bytes);
}

/// Parameters and code are decoded from every value that has bytes.
pub proof fn law_bytes_decodable(value: &Value)
    ensures
        <Parameters<'_> as TryFromTsStd<&Value>>::decodable(value) == (value.bytes() is Some),
        <ContractCode<'_> as TryFromTsStd<&Value>>::decodable(value) == (value.bytes() is Some),
{
}

/// What a value that is not a map is decoded to as a key: an error that says so.
pub proof fn law_key_of_no_map(value: Value, r: Result<ContractKey, WsApiError>)
    requires
        !(value is Pairs),
        is_key_of_value(value, r),
    ensures
        r matches Err(WsApiError::MsgpackDecodeError { cause }) && cause@
            == "Failed decoding ContractKey, input value is not a map"@,
{
}

/// What a map with text keys, none of them `instance`, is decoded to as a key: an error that says
/// so.
pub proof fn law_key_without_instance(
    pairs: Vec<(Value, Value)>,
    r: Result<ContractKey, WsApiError>,
)
    requires
        forall|i: int|
            0 <= i < pairs@.len() ==> (#[trigger] pairs@[i]).0.text() is Some
                && pairs@[i].0.text() != Some("instance"@),
        is_key_of_value(Value::Pairs(pairs), r),
    ensures
        r matches Err(WsApiError::MsgpackDecodeError { cause }) && cause@
            == "Failed decoding WrappedContract, instance not found"@,
{
    msgpack::law_field_absent(pairs@, "instance"@);
}

/// What a map with text keys is decoded to as a key, where the last of its pairs with the key
/// `instance` holds at most as many bytes as a key has: the key of an instance with those bytes, in
/// their order, and zeros behind them, without a code hash.
pub proof fn law_key_with_instance(
    pairs: Vec<(Value, Value)>,
    i: int,
    bytes: Seq<u8>,
    r: Result<ContractKey, WsApiError>,
)
    requires
        forall|j: int| 0 <= j < pairs@.len() ==> (#[trigger] pairs@[j]).0.text() is Some,
        0 <= i < pairs@.len(),
        pairs@[i].0.text() == Some("instance"@),
        forall|j: int| i < j < pairs@.len() ==> (#[trigger] pairs@[j]).0.text() != Some("instance"@),
        pairs@[i].1.bytes() == Some(bytes),
        bytes.len() <= CONTRACT_KEY_SIZE,
        is_key_of_value(Value::Pairs(pairs), r),
    ensures
        r is Ok,
        r.unwrap()@.instance.len() == CONTRACT_KEY_SIZE,
        forall|j: int| 0 <= j < bytes.len() ==> #[trigger] r.unwrap()@.instance[j] == bytes[j],
        forall|j: int|
            bytes.len() <= j < CONTRACT_KEY_SIZE ==> #[trigger] r.unwrap()@.instance[j] == 0,
        bytes.len() == CONTRACT_KEY_SIZE ==> r.unwrap()@.instance == bytes,
        r.unwrap()@.code is None,
{
    msgpack::law_field_is_last(pairs@, "instance"@, i);
    crate::key::law_pad_key(bytes);
}

/// The values that no key is decoded from: maps with a key that is not text, and maps whose field
/// `instance` has no bytes or more than a key.
pub proof fn law_key_undecodable(value: &Value)
    ensures
        <ContractKey as TryFromTsStd<&Value>>::decodable(value) == (key_of_value(*value) is Some),
        key_of_value(*value) is None == match value.entries() {
            Some(entries) => !msgpack::text_keys(entries) || match msgpack::field(
                entries,
                "instance"@,
            ) {
                Some(instance) => match instance.bytes() {
                    Some(bytes) => bytes.len() > CONTRACT_KEY_SIZE,
                    None => true,
                },
                None => false,
            },
            None => false,
        },
{
}

/// Decoding a value as a key has one outcome: two results for a value are the same key, or errors
/// with the same text.
pub proof fn law_key_of_value_unique(
    value: Value,
    r: Result<ContractKey, WsApiError>,
    s: Result<ContractKey, WsApiError>,
)
    requires
        is_key_of_value(value, r),
        is_key_of_value(value, s),
    ensures
        key_of_value(value) is Some,
        match (r, s) {
            (Ok(a), Ok(b)) => a@ == b@,
            (
                Err(WsApiError::MsgpackDecodeError { cause: a }),
                Err(WsApiError::MsgpackDecodeError { cause: b }),
            ) => a@ == b@,
            _ => false,
        },
{
}

} // verus!
