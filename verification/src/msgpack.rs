//! MessagePack values sent by clients, and what is decoded from them.

use vstd::prelude::*;
use vstd::string::*;
use vstd::utf8;
use crate::bytes::bytes_eq;

verus! {

/// A MessagePack value, as far as decoding looks into it.
#[derive(Debug)]
pub enum Value {
    /// A string of valid UTF-8.
    Text(String),
    /// A string whose bytes are not valid UTF-8.
    RawText(Vec<u8>),
    /// A byte array.
    Binary(Vec<u8>),
    /// Key-value pairs, in the order in which they were sent.
    Pairs(Vec<(Value, Value)>),
    /// Any other value: nil, a boolean, a number, an array or an extension.
    Other,
}

impl Value {
    /// The characters of a string of valid UTF-8.
    pub open spec fn text(self) -> Option<Seq<char>> {
        match self {
            Value::Text(s) => Some(s@),
            _ => None,
        }
    }

    /// The bytes of a byte array or of a string.
    pub open spec fn bytes(self) -> Option<Seq<u8>> {
        match self {
            Value::Text(s) => Some(utf8::encode_utf8(s@)),
            Value::RawText(b) => Some(b@),
            Value::Binary(b) => Some(b@),
            _ => None,
        }
    }

    /// The pairs of a map.
    pub open spec fn entries(self) -> Option<Seq<(Value, Value)>> {
        match self {
            Value::Pairs(m) => Some(m@),
            _ => None,
        }
    }

    /// If the value is a string of valid UTF-8, returns it.
    pub fn as_str(&self) -> (r: Option<&str>)
        ensures
            self.text() == match r {
                Some(s) => Some(s@),
                None => None,
            },
    {
        match self {
            Value::Text(s) => Some(s.as_str()),
            _ => None,
        }
    }

    /// If the value is a byte array or a string, returns its bytes.
    pub fn as_slice(&self) -> (r: Option<&[u8]>)
        ensures
            self.bytes() == match r {
                Some(b) => Some(b@),
                None => None,
            },
    {
        match self {
            Value::Text(s) => Some(s.as_str().as_bytes()),
            Value::RawText(b) => Some(b.as_slice()),
            Value::Binary(b) => Some(b.as_slice()),
            _ => None,
        }
    }

    /// If the value is a map, returns its pairs.
    pub fn as_map(&self) -> (r: Option<&Vec<(Value, Value)>>)
        ensures
            self.entries() == match r {
                Some(m) => Some(m@),
                None => None,
            },
    {
        match self {
            Value::Pairs(m) => Some(m),
            _ => None,
        }
    }
}

/// Every key is a string of valid UTF-8.
pub open spec fn text_keys(entries: Seq<(Value, Value)>) -> bool {
    forall|i: int| 0 <= i < entries.len() ==> (#[trigger] entries[i]).0.text() is Some
}

/// The value of the key `name`: the last one, if the key occurs more than once.
pub open spec fn field(entries: Seq<(Value, Value)>, name: Seq<char>) -> Option<Value>
    decreases entries.len(),
{
    if entries.len() == 0 {
        None
    } else if entries.last().0.text() == Some(name) {
        Some(entries.last().1)
    } else {
        field(entries.drop_last(), name)
    }
}

/// The value of a key is the one of its last pair, wherever that stands among the others.
pub proof fn law_field_is_last(entries: Seq<(Value, Value)>, name: Seq<char>, i: int)
    requires
        0 <= i < entries.len(),
        entries[i].0.text() == Some(name),
        forall|j: int| i < j < entries.len() ==> (#[trigger] entries[j]).0.text() != Some(name),
    ensures
        field(entries, name) == Some(entries[i].1),
    decreases entries.len(),
{
    if i + 1 < entries.len() {
        law_field_is_last(entries.drop_last(), name, i);
    }
}

/// A key that no pair has is without a value.
pub proof fn law_field_absent(entries: Seq<(Value, Value)>, name: Seq<char>)
    requires
        forall|j: int| 0 <= j < entries.len() ==> (#[trigger] entries[j]).0.text() != Some(name),
    ensures
        field(entries, name) is None,
    decreases entries.len(),
{
    if entries.len() > 0 {
        law_field_absent(entries.drop_last(), name);
    }
}

/// Compares two strings.
pub fn str_eq(a: &str, b: &str) -> (r: bool)
    ensures
        r == (a@ == b@),
{
    proof {
        utf8::encode_utf8_decode_utf8(a@);
        utf8::encode_utf8_decode_utf8(b@);
    }
    bytes_eq(a.as_bytes(), b.as_bytes())
}

/// Whether every key is a string of valid UTF-8.
pub fn has_text_keys(entries: &Vec<(Value, Value)>) -> (r: bool)
    ensures
        r == text_keys(entries@),
{
    let mut i: usize = 0;
    while i < entries.len()
        invariant
            i <= entries@.len(),
            forall|j: int| 0 <= j < i ==> (#[trigger] entries@[j]).0.text() is Some,
        decreases entries@.len() - i,
    {
        if entries[i].0.as_str().is_none() {
            assert(entries@[i as int].0.text() is None);
            return false;
        }
        i += 1;
    }
    true
}

/// Finds the value of the key `name`: the last one, if the key occurs more than once.
pub fn find_field<'b>(entries: &'b Vec<(Value, Value)>, name: &str) -> (r: Option<&'b Value>)
    ensures
        field(entries@, name@) == match r {
            Some(v) => Some(*v),
            None => None,
        },
{
    let mut i: usize = entries.len();
    assert(entries@.take(i as int) =~= entries@);
    while i > 0
        invariant
            i <= entries@.len(),
            field(entries@.take(i as int), name@) == field(entries@, name@),
        decreases i,
    {
        assert(entries@.take(i as int).drop_last() =~= entries@.take(i - 1));
        assert(entries@.take(i as int).last() == entries@[i - 1]);
        i -= 1;
        if let Some(key) = entries[i].0.as_str() {
            if str_eq(key, name) {
                return Some(&entries[i].1);
            }
        }
    }
    None
}

/// Errors of the interface that clients connect to.
#[derive(Debug)]
pub enum WsApiError {
    /// A message could not be decoded.
    MsgpackDecodeError {
        /// What was wrong with it.
        cause: String,
    },
    /// The contract has a version that is not supported.
    UnsupportedContractVersion,
    /// The container of the contract could not be unpacked; holds the text of the cause.
    UnpackingContractContainerError(String),
}

impl WsApiError {
    /// The error for a message that could not be decoded.
    pub fn deserialization(cause: String) -> (r: Self)
        ensures
            r == (WsApiError::MsgpackDecodeError { cause }),
    {
        WsApiError::MsgpackDecodeError { cause }
    }

    /// The text form of the error.
    pub fn to_string(&self) -> (r: String)
        ensures
            r@ == match *self {
                WsApiError::MsgpackDecodeError { cause } =>
                    "Failed decoding msgpack message from client request: "@ + cause@,
                WsApiError::UnsupportedContractVersion => "Unsupported contract version"@,
                WsApiError::UnpackingContractContainerError(_) =>
                    "Failed unpacking contract container"@,
            },
    {
        match self {
            WsApiError::MsgpackDecodeError { cause } => {
                "Failed decoding msgpack message from client request: ".to_string().concat(
                    cause.as_str(),
                )
            },
            WsApiError::UnsupportedContractVersion => "Unsupported contract version".to_string(),
            WsApiError::UnpackingContractContainerError(_) => {
                "Failed unpacking contract container".to_string()
            },
        }
    }
}

/// Types that are decoded from the values sent by clients written in TypeScript.
pub trait TryFromTsStd<T>: Sized {
    /// The values that decoding is meant for; it does not look out for others.
    spec fn decodable(value: T) -> bool;

    fn try_decode(value: T) -> (r: Result<Self, WsApiError>)
        requires
            Self::decodable(value),
    ;
}

/// A value has text exactly if it is a string of valid UTF-8: the characters of the string.
pub proof fn law_text_of_value(value: Value)
    ensures
        value matches Value::Text(s) ==> value.text() == Some(s@),
        value.text() is Some ==> value is Text,
{
}

/// A value has bytes exactly if it is a byte array or a string: all of the bytes that it was sent
/// with, in their order.
pub proof fn law_bytes_of_value(value: Value)
    ensures
        value matches Value::Binary(b) ==> value.bytes() == Some(b@),
        value matches Value::RawText(b) ==> value.bytes() == Some(b@),
        value matches Value::Text(s) ==> value.bytes() == Some(utf8::encode_utf8(s@)),
        value.bytes() is Some ==> value is Binary || value is RawText || value is Text,
{
}

/// A value has pairs exactly if it is a map: all of them, in their order.
pub proof fn law_entries_of_value(value: Value)
    ensures
        value matches Value::Pairs(m) ==> value.entries() == Some(m@),
        value.entries() is Some ==> value is Pairs,
{
}

/// The keys of a map are text if each of them is a string of valid UTF-8.
pub proof fn law_text_keys(entries: Seq<(Value, Value)>)
    ensures
        text_keys(entries) == (forall|i: int|
            0 <= i < entries.len() ==> (#[trigger] entries[i]).0 is Text),
{
    if text_keys(entries) {
        assert forall|i: int| 0 <= i < entries.len() implies (#[trigger] entries[i]).0 is Text by {
            assert(entries[i].0.text() is Some);
        }
    }
    if forall|i: int| 0 <= i < entries.len() ==> (#[trigger] entries[i]).0 is Text {
        assert forall|i: int| 0 <= i < entries.len() implies (
        #[trigger] entries[i]).0.text() is Some by {
            assert(entries[i].0 is Text);
        }
    }
}

/// A key has a value only if some pair has the key: the value of the last such pair.
pub proof fn law_field_came_from(entries: Seq<(Value, Value)>, name: Seq<char>)
    ensures
        field(entries, name) matches Some(value) ==> exists|i: int|
            0 <= i < entries.len() && (#[trigger] entries[i]).0.text() == Some(name) && entries[i].1
                == value && forall|j: int|
                i < j < entries.len() ==> (#[trigger] entries[j]).0.text() != Some(name),
    decreases entries.len(),
{
    if entries.len() > 0 {
        let n = entries.len() - 1;
        if entries[n].0.text() != Some(name) {
            let rest = entries.drop_last();
            law_field_came_from(rest, name);
            if let Some(value) = field(rest, name) {
                let i = choose|i: int|
                    0 <= i < rest.len() && (#[trigger] rest[i]).0.text() == Some(name) && rest[i].1
                        == value && forall|j: int|
                        i < j < rest.len() ==> (#[trigger] rest[j]).0.text() != Some(name);
                assert(entries[i] == rest[i]);
                assert forall|j: int| i < j < entries.len() implies (
                #[trigger] entries[j]).0.text() != Some(name) by {
                    if j < n {
                        assert(rest[j] == entries[j]);
                    }
                }
            }
        }
    }
}

} // verus!
