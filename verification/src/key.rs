//! The keys that identify contracts.

use std::hash::{Hash, Hasher};
use std::ops::Deref;
use std::str::FromStr;
use vstd::prelude::*;
use vstd::std_specs::cmp::PartialEqSpec;
use vstd::utf8;
use crate::base58;
use crate::base58::Base58Error;
use crate::bytes::bytes_eq;
use crate::code::ContractCode;
use crate::digest;
use crate::digest::{digest_pair, CONTRACT_KEY_SIZE};
use crate::state::Parameters;

verus! {

/// The key representing the hash of the contract executable code hash and a set of `parameters`.
///
/// It is seen as the sequence of its bytes.
#[derive(Debug, Clone, Copy, Hash)]
pub struct ContractInstanceId([u8; CONTRACT_KEY_SIZE]);

impl View for ContractInstanceId {
    type V = Seq<u8>;

    closed spec fn view(&self) -> Seq<u8> {
        self.0@
    }
}

/// The key bytes that `text` stands for: the decoded bytes, and zeros up to the size of a key.
pub open spec fn decode_key_bytes(text: Seq<u8>) -> Result<Seq<u8>, Base58Error> {
    match base58::base58_decode(text, CONTRACT_KEY_SIZE as nat) {
        Ok(bytes) => Ok(pad_key(bytes)),
        Err(e) => Err(e),
    }
}

/// `bytes`, and zeros up to the size of a key.
pub open spec fn pad_key(bytes: Seq<u8>) -> Seq<u8> {
    bytes + Seq::new((CONTRACT_KEY_SIZE - bytes.len()) as nat, |i: int| 0u8)
}

/// Decodes Base58 text into the bytes of a key.
fn decode_key(text: &[u8]) -> (r: Result<[u8; CONTRACT_KEY_SIZE], Base58Error>)
    ensures
        match r {
            Ok(key) => decode_key_bytes(text@) == Ok::<Seq<u8>, Base58Error>(key@),
            Err(e) => decode_key_bytes(text@) == Err::<Seq<u8>, Base58Error>(e),
        },
{
    let mut key: [u8; CONTRACT_KEY_SIZE] = [0u8; CONTRACT_KEY_SIZE];
    match base58::decode_into(text, &mut key) {
        Ok(n) => {
            assert(key@ =~= pad_key(base58::base58_decode(text@, CONTRACT_KEY_SIZE as nat).unwrap()));
            Ok(key)
        },
        Err(e) => Err(e),
    }
}

impl ContractInstanceId {
    /// The id with the given bytes.
    pub fn new(bytes: [u8; CONTRACT_KEY_SIZE]) -> (r: Self)
        ensures
            r@ == bytes@,
    {
        ContractInstanceId(bytes)
    }

    /// The bytes of the id.
    pub fn as_bytes(&self) -> (r: &[u8; CONTRACT_KEY_SIZE])
        ensures
            r@ == self@,
    {
        &self.0
    }

    /// `Base58` string representation of the `contract id`.
    pub fn encode(&self) -> (r: String)
        ensures
            r@ == base58::base58_text(self@),
    {
        base58::encode(self.0.as_slice())
    }

    /// The text form of the id.
    pub fn to_string(&self) -> (r: String)
        ensures
            r@ == base58::base58_text(self@),
    {
        self.encode()
    }

    /// Builds the id from the binary representation, with zeros behind it where it is shorter than
    /// a key.
    pub fn from_bytes(bytes: &[u8]) -> (r: Result<Self, Base58Error>)
        ensures
            match r {
                Ok(id) => bytes@.len() <= CONTRACT_KEY_SIZE && id@ == pad_key(bytes@),
                Err(e) => bytes@.len() > CONTRACT_KEY_SIZE && e == Base58Error::BufferTooSmall,
            },
    {
        if bytes.len() > CONTRACT_KEY_SIZE {
            return Err(Base58Error::BufferTooSmall);
        }
        let mut key: [u8; CONTRACT_KEY_SIZE] = [0u8; CONTRACT_KEY_SIZE];
        let mut i: usize = 0;
        while i < bytes.len()
            invariant
                i <= bytes@.len() <= CONTRACT_KEY_SIZE,
                key@ =~= pad_key(bytes@.take(i as int)),
            decreases bytes@.len() - i,
        {
            key[i] = bytes[i];
            i += 1;
        }
        assert(bytes@.take(i as int) =~= bytes@);
        Ok(ContractInstanceId(key))
    }

    /// Builds the id from the bytes of its `Base58` text.
    pub fn from_base58(text: &[u8]) -> (r: Result<Self, Base58Error>)
        ensures
            match r {
                Ok(id) => decode_key_bytes(text@) == Ok::<Seq<u8>, Base58Error>(id@),
                Err(e) => decode_key_bytes(text@) == Err::<Seq<u8>, Base58Error>(e),
            },
    {
        match decode_key(text) {
            Ok(key) => Ok(ContractInstanceId(key)),
            Err(e) => Err(e),
        }
    }
}

impl FromStr for ContractInstanceId {
    type Err = Base58Error;

    fn from_str(s: &str) -> (r: Result<Self, Base58Error>)
        ensures
            match r {
                Ok(id) => decode_key_bytes(utf8::encode_utf8(s@)) == Ok::<Seq<u8>, Base58Error>(id@),
                Err(e) => decode_key_bytes(utf8::encode_utf8(s@)) == Err::<Seq<u8>, Base58Error>(e),
            },
    {
        ContractInstanceId::from_base58(s.as_bytes())
    }
}

impl TryFrom<String> for ContractInstanceId {
    type Error = Base58Error;

    fn try_from(s: String) -> (r: Result<Self, Base58Error>)
        ensures
            match r {
                Ok(id) => decode_key_bytes(utf8::encode_utf8(s@)) == Ok::<Seq<u8>, Base58Error>(id@),
                Err(e) => decode_key_bytes(utf8::encode_utf8(s@)) == Err::<Seq<u8>, Base58Error>(e),
            },
    {
        let r = ContractInstanceId::from_base58(s.as_str().as_bytes());
        proof {
            if let Ok(id) = r {
                digest::lemma_key_array(id.0);
            }
        }
        r
    }
}

impl vstd::std_specs::convert::TryFromSpecImpl<String> for ContractInstanceId {
    open spec fn obeys_try_from_spec() -> bool {
        true
    }

    closed spec fn try_from_spec(s: String) -> Result<Self, Base58Error> {
        match decode_key_bytes(utf8::encode_utf8(s@)) {
            Ok(bytes) => Ok(ContractInstanceId(digest::key_array(bytes))),
            Err(e) => Err(e),
        }
    }
}

impl PartialEq for ContractInstanceId {
    fn eq(&self, other: &Self) -> (r: bool)
        ensures
            r == (self@ == other@),
    {
        bytes_eq(self.0.as_slice(), other.0.as_slice())
    }
}

impl vstd::std_specs::cmp::PartialEqSpecImpl for ContractInstanceId {
    open spec fn obeys_eq_spec() -> bool {
        true
    }

    open spec fn eq_spec(&self, other: &Self) -> bool {
        self@ == other@
    }
}

impl Eq for ContractInstanceId {

}

/// The bytes of the id of the contract with code hash `hash` and the given parameters.
pub open spec fn instance_bytes(hash: Seq<u8>, parameters: Seq<u8>) -> Seq<u8> {
    digest::blake2s256(hash + parameters)
}

/// The id of the contract with the given parameters and code.
pub fn generate_id<'a>(parameters: &Parameters<'a>, code_data: &ContractCode<'a>) -> (r: ContractInstanceId)
    ensures
        r@ == instance_bytes(code_data.spec_hash(), parameters@),
        r@ == digest::blake2s256(code_data.spec_hash() + parameters@),
{
    ContractInstanceId(digest_pair(code_data.hash().as_slice(), parameters.as_ref()))
}

/// What a [`ContractKey`] holds.
pub struct ContractKeyView {
    /// The bytes of the instance id.
    pub instance: Seq<u8>,
    /// The code hash, if the key is fully specified.
    pub code: Option<Seq<u8>>,
}

/// The key of the contract with code hash `hash` and the given parameters.
pub open spec fn contract_key(hash: Seq<u8>, parameters: Seq<u8>) -> ContractKeyView {
    ContractKeyView { instance: instance_bytes(hash, parameters), code: Some(hash) }
}

/// A complete key specification, that represents a cryptographic hash that identifies the contract.
#[derive(Debug)]
pub struct ContractKey {
    instance: ContractInstanceId,
    code: Option<[u8; CONTRACT_KEY_SIZE]>,
}

impl View for ContractKey {
    type V = ContractKeyView;

    closed spec fn view(&self) -> ContractKeyView {
        ContractKeyView {
            instance: self.instance@,
            code: match self.code {
                Some(c) => Some(c@),
                None => None,
            },
        }
    }
}

impl PartialEq for ContractKey {
    fn eq(&self, other: &Self) -> (r: bool)
        ensures
            r == (self@.instance == other@.instance),
    {
        self.instance == other.instance
    }
}

impl vstd::std_specs::cmp::PartialEqSpecImpl for ContractKey {
    open spec fn obeys_eq_spec() -> bool {
        true
    }

    open spec fn eq_spec(&self, other: &Self) -> bool {
        self@.instance == other@.instance
    }
}

impl Eq for ContractKey {

}

/// Calls `Hash::hash` of the standard library on an array of bytes. Nothing is promised of the state
/// that it leaves in the hasher: that is up to the hasher.
#[verifier::external_body]
pub(crate) fn hash_bytes<H: Hasher>(bytes: &[u8; CONTRACT_KEY_SIZE], state: &mut H) {
    bytes.hash(state)
}

/// Calls `f` once, on `bytes` and `state`.
fn feed<H: Hasher, F: FnOnce(&[u8; CONTRACT_KEY_SIZE], &mut H)>(
    f: F,
    bytes: &[u8; CONTRACT_KEY_SIZE],
    state: &mut H,
)
    requires
        forall|s: &mut H| call_requires(f, (bytes, s)),
    ensures
        exists|s: &mut H|
            *s == *old(state) && *final(s) == *final(state) && #[trigger] call_ensures(
                f,
                (bytes, s),
                (),
            ),
{
    f(bytes, state)
}

/// Hashing the array of the bytes `bytes` can take the hasher `s` from the state that it has to the
/// one that it is left in.
pub closed spec fn hashed<H: Hasher>(bytes: Seq<u8>, s: &mut H) -> bool {
    call_ensures(hash_bytes::<H>, (&digest::key_array(bytes), s), ())
}

impl Hash for ContractKey {
    fn hash<H: Hasher>(&self, state: &mut H)
        ensures
            exists|s: &mut H|
                *s == *old(state) && *final(s) == *final(state) && #[trigger] hashed(
                    self@.instance,
                    s,
                ),
    {
        proof {
            digest::lemma_key_array(self.instance.0);
        }
        assert(forall|s: &mut H| #[trigger]
            call_ensures(hash_bytes::<H>, (&self.instance.0, s), ()) ==> hashed(
                self@.instance,
                s,
            ));
        feed(hash_bytes::<H>, &self.instance.0, state);
    }
}

impl Clone for ContractKey {
    fn clone(&self) -> (r: Self)
        ensures
            r == *self,
    {
        ContractKey { instance: self.instance, code: self.code }
    }
}

impl From<ContractInstanceId> for ContractKey {
    fn from(instance: ContractInstanceId) -> (r: Self)
        ensures
            r@ == (ContractKeyView { instance: instance@, code: None }),
    {
        ContractKey { instance, code: None }
    }
}

impl vstd::std_specs::convert::FromSpecImpl<ContractInstanceId> for ContractKey {
    open spec fn obeys_from_spec() -> bool {
        true
    }

    closed spec fn from_spec(instance: ContractInstanceId) -> Self {
        ContractKey { instance, code: None }
    }
}

/// The id that is made from parameters and code.
closed spec fn made_id(hash: Seq<u8>, parameters: Seq<u8>) -> ContractInstanceId {
    ContractInstanceId(digest::key_array(instance_bytes(hash, parameters)))
}

/// The key that is made from parameters and code.
closed spec fn made_key(hash: Seq<u8>, parameters: Seq<u8>) -> ContractKey {
    ContractKey { instance: made_id(hash, parameters), code: Some(digest::key_array(hash)) }
}

/// Makes the id of the contract with the given parameters and code.
fn make_id<'a>(parameters: &Parameters<'a>, code_data: &ContractCode<'a>) -> (r: ContractInstanceId)
    ensures
        r@ == instance_bytes(code_data.spec_hash(), parameters@),
        r@ == digest::blake2s256(code_data.spec_hash() + parameters@),
        r == made_id(code_data.spec_hash(), parameters@),
{
    let id = generate_id(parameters, code_data);
    proof {
        digest::lemma_key_array(id.0);
    }
    id
}

/// Makes the key of the contract with the given parameters and code.
fn make_key<'a>(parameters: &Parameters<'a>, code_data: &ContractCode<'a>) -> (r: ContractKey)
    ensures
        r@ == contract_key(code_data.spec_hash(), parameters@),
        r@.instance == digest::blake2s256(code_data.spec_hash() + parameters@),
        r@.code == Some(code_data.spec_hash()),
        r == made_key(code_data.spec_hash(), parameters@),
{
    let instance = make_id(parameters, code_data);
    let contract_hash = code_data.hash();
    proof {
        digest::lemma_key_array(*contract_hash);
    }
    ContractKey { instance, code: Some(*contract_hash) }
}

impl<'a> From<(Parameters<'a>, ContractCode<'a>)> for ContractInstanceId {
    fn from(val: (Parameters<'a>, ContractCode<'a>)) -> (r: Self)
        ensures
            r@ == instance_bytes(val.1.spec_hash(), val.0@),
            r@ == digest::blake2s256(val.1.spec_hash() + val.0@),
    {
        make_id(&val.0, &val.1)
    }
}

impl<'a> vstd::std_specs::convert::FromSpecImpl<(Parameters<'a>, ContractCode<'a>)> for ContractInstanceId {
    open spec fn obeys_from_spec() -> bool {
        true
    }

    closed spec fn from_spec(val: (Parameters<'a>, ContractCode<'a>)) -> Self {
        made_id(val.1.spec_hash(), val.0@)
    }
}

impl<'a, 'b> From<(Parameters<'a>, &'b ContractCode<'a>)> for ContractInstanceId {
    fn from(val: (Parameters<'a>, &'b ContractCode<'a>)) -> (r: Self)
        ensures
            r@ == instance_bytes(val.1.spec_hash(), val.0@),
            r@ == digest::blake2s256(val.1.spec_hash() + val.0@),
    {
        make_id(&val.0, val.1)
    }
}

impl<'a, 'b> vstd::std_specs::convert::FromSpecImpl<(Parameters<'a>, &'b ContractCode<'a>)> for ContractInstanceId {
    open spec fn obeys_from_spec() -> bool {
        true
    }

    closed spec fn from_spec(val: (Parameters<'a>, &'b ContractCode<'a>)) -> Self {
        made_id(val.1.spec_hash(), val.0@)
    }
}

impl<'a, 'b> From<(&'b Parameters<'a>, ContractCode<'a>)> for ContractInstanceId {
    fn from(val: (&'b Parameters<'a>, ContractCode<'a>)) -> (r: Self)
        ensures
            r@ == instance_bytes(val.1.spec_hash(), val.0@),
            r@ == digest::blake2s256(val.1.spec_hash() + val.0@),
    {
        make_id(val.0, &val.1)
    }
}

impl<'a, 'b> vstd::std_specs::convert::FromSpecImpl<(&'b Parameters<'a>, ContractCode<'a>)> for ContractInstanceId {
    open spec fn obeys_from_spec() -> bool {
        true
    }

    closed spec fn from_spec(val: (&'b Parameters<'a>, ContractCode<'a>)) -> Self {
        made_id(val.1.spec_hash(), val.0@)
    }
}

impl<'a, 'b> From<(&'b Parameters<'a>, &'b ContractCode<'a>)> for ContractInstanceId {
    fn from(val: (&'b Parameters<'a>, &'b ContractCode<'a>)) -> (r: Self)
        ensures
            r@ == instance_bytes(val.1.spec_hash(), val.0@),
            r@ == digest::blake2s256(val.1.spec_hash() + val.0@),
    {
        make_id(val.0, val.1)
    }
}

impl<'a, 'b> vstd::std_specs::convert::FromSpecImpl<(&'b Parameters<'a>, &'b ContractCode<'a>)> for ContractInstanceId {
    open spec fn obeys_from_spec() -> bool {
        true
    }

    closed spec fn from_spec(val: (&'b Parameters<'a>, &'b ContractCode<'a>)) -> Self {
        made_id(val.1.spec_hash(), val.0@)
    }
}

impl<'a> From<(Parameters<'a>, ContractCode<'a>)> for ContractKey {
    fn from(val: (Parameters<'a>, ContractCode<'a>)) -> (r: Self)
        ensures
            r@ == contract_key(val.1.spec_hash(), val.0@),
            r@.instance == digest::blake2s256(val.1.spec_hash() + val.0@),
            r@.code == Some(val.1.spec_hash()),
    {
        make_key(&val.0, &val.1)
    }
}

impl<'a> vstd::std_specs::convert::FromSpecImpl<(Parameters<'a>, ContractCode<'a>)> for ContractKey {
    open spec fn obeys_from_spec() -> bool {
        true
    }

    closed spec fn from_spec(val: (Parameters<'a>, ContractCode<'a>)) -> Self {
        made_key(val.1.spec_hash(), val.0@)
    }
}

impl<'a, 'b> From<(Parameters<'a>, &'b ContractCode<'a>)> for ContractKey {
    fn from(val: (Parameters<'a>, &'b ContractCode<'a>)) -> (r: Self)
        ensures
            r@ == contract_key(val.1.spec_hash(), val.0@),
            r@.instance == digest::blake2s256(val.1.spec_hash() + val.0@),
            r@.code == Some(val.1.spec_hash()),
    {
        make_key(&val.0, val.1)
    }
}

impl<'a, 'b> vstd::std_specs::convert::FromSpecImpl<(Parameters<'a>, &'b ContractCode<'a>)> for ContractKey {
    open spec fn obeys_from_spec() -> bool {
        true
    }

    closed spec fn from_spec(val: (Parameters<'a>, &'b ContractCode<'a>)) -> Self {
        made_key(val.1.spec_hash(), val.0@)
    }
}

impl<'a, 'b> From<(&'b Parameters<'a>, ContractCode<'a>)> for ContractKey {
    fn from(val: (&'b Parameters<'a>, ContractCode<'a>)) -> (r: Self)
        ensures
            r@ == contract_key(val.1.spec_hash(), val.0@),
            r@.instance == digest::blake2s256(val.1.spec_hash() + val.0@),
            r@.code == Some(val.1.spec_hash()),
    {
        make_key(val.0, &val.1)
    }
}

impl<'a, 'b> vstd::std_specs::convert::FromSpecImpl<(&'b Parameters<'a>, ContractCode<'a>)> for ContractKey {
    open spec fn obeys_from_spec() -> bool {
        true
    }

    closed spec fn from_spec(val: (&'b Parameters<'a>, ContractCode<'a>)) -> Self {
        made_key(val.1.spec_hash(), val.0@)
    }
}

impl<'a, 'b> From<(&'b Parameters<'a>, &'b ContractCode<'a>)> for ContractKey {
    fn from(val: (&'b Parameters<'a>, &'b ContractCode<'a>)) -> (r: Self)
        ensures
            r@ == contract_key(val.1.spec_hash(), val.0@),
            r@.instance == digest::blake2s256(val.1.spec_hash() + val.0@),
            r@.code == Some(val.1.spec_hash()),
    {
        make_key(val.0, val.1)
    }
}

impl<'a, 'b> vstd::std_specs::convert::FromSpecImpl<(&'b Parameters<'a>, &'b ContractCode<'a>)> for ContractKey {
    open spec fn obeys_from_spec() -> bool {
        true
    }

    closed spec fn from_spec(val: (&'b Parameters<'a>, &'b ContractCode<'a>)) -> Self {
        made_key(val.1.spec_hash(), val.0@)
    }
}

/// The key that the Base58 text of a code hash and parameters stand for.
pub open spec fn decode_contract_key(text: Seq<u8>, parameters: Seq<u8>) -> Result<
    ContractKeyView,
    Base58Error,
> {
    match decode_key_bytes(text) {
        Ok(hash) => Ok(contract_key(hash, parameters)),
        Err(e) => Err(e),
    }
}

impl ContractKey {
    /// Puts a key together from an instance id and the code hash that was stored with it.
    pub fn from_parts(instance: ContractInstanceId, code: Option<[u8; CONTRACT_KEY_SIZE]>) -> (r: Self)
        ensures
            r@.instance == instance@,
            r@.code == match code {
                Some(c) => Some(c@),
                None => None,
            },
    {
        ContractKey { instance, code }
    }

    /// The id of the contract instance.
    pub fn id(&self) -> (r: ContractInstanceId)
        ensures
            r@ == self@.instance,
    {
        self.instance
    }

    /// Builds a partial [`ContractKey`], the contract code part is unspecified.
    pub fn from_id(instance: String) -> (r: Result<Self, Base58Error>)
        ensures
            match r {
                Ok(key) => {
                    &&& decode_key_bytes(utf8::encode_utf8(instance@)) == Ok::<Seq<u8>, Base58Error>(
                        key@.instance,
                    )
                    &&& key@.code is None
                },
                Err(e) => decode_key_bytes(utf8::encode_utf8(instance@)) == Err::<
                    Seq<u8>,
                    Base58Error,
                >(e),
            },
    {
        match ContractInstanceId::try_from(instance) {
            Ok(instance) => Ok(ContractKey { instance, code: None }),
            Err(e) => Err(e),
        }
    }

    /// Gets the whole spec key hash.
    pub fn bytes(&self) -> (r: &[u8])
        ensures
            r@ == self@.instance,
            r@.len() == CONTRACT_KEY_SIZE,
    {
        self.instance.0.as_slice()
    }

    /// Returns the hash of the contract code only, if the key is fully specified.
    pub fn code_hash(&self) -> (r: Option<&[u8; CONTRACT_KEY_SIZE]>)
        ensures
            self@.code == match r {
                Some(hash) => Some(hash@),
                None => None,
            },
    {
        match &self.code {
            Some(hash) => Some(hash),
            None => None,
        }
    }

    /// Returns the encoded hash of the contract code, if the key is fully specified.
    pub fn encoded_code_hash(&self) -> (r: Option<String>)
        ensures
            match r {
                Some(text) => {
                    &&& self@.code matches Some(hash)
                    &&& text@ == base58::base58_text(hash)
                },
                None => self@.code is None,
            },
    {
        match &self.code {
            Some(hash) => Some(base58::encode(hash.as_slice())),
            None => None,
        }
    }

    /// Returns the decoded contract key from encoded hash of the contract key and the given
    /// parameters.
    pub fn decode(contract_key: String, parameters: Parameters<'_>) -> (r: Result<Self, Base58Error>)
        ensures
            match r {
                Ok(key) => decode_contract_key(utf8::encode_utf8(contract_key@), parameters@) == Ok::<
                    ContractKeyView,
                    Base58Error,
                >(key@),
                Err(e) => decode_contract_key(utf8::encode_utf8(contract_key@), parameters@) == Err::<
                    ContractKeyView,
                    Base58Error,
                >(e),
            },
            match r {
                Ok(key) => {
                    &&& decode_key_bytes(utf8::encode_utf8(contract_key@)) matches Ok(hash)
                    &&& key@.instance == digest::blake2s256(hash + parameters@)
                    &&& key@.code == Some(hash)
                },
                Err(e) => decode_key_bytes(utf8::encode_utf8(contract_key@)) == Err::<
                    Seq<u8>,
                    Base58Error,
                >(e),
            },
    {
        match decode_key(contract_key.as_str().as_bytes()) {
            Ok(contract) => {
                let spec = digest_pair(contract.as_slice(), parameters.as_ref());
                Ok(ContractKey { instance: ContractInstanceId(spec), code: Some(contract) })
            },
            Err(e) => Err(e),
        }
    }

    /// Returns the `Base58` encoded string of the [`ContractInstanceId`].
    pub fn encoded_contract_id(&self) -> (r: String)
        ensures
            r@ == base58::base58_text(self@.instance),
    {
        self.instance.encode()
    }

    /// The text form of the key: that of its instance id.
    pub fn to_string(&self) -> (r: String)
        ensures
            r@ == base58::base58_text(self@.instance),
    {
        self.instance.to_string()
    }
}

impl Deref for ContractKey {
    type Target = [u8];

    fn deref(&self) -> (r: &[u8])
        ensures
            r@ == self@.instance,
    {
        self.instance.0.as_slice()
    }
}

/// Equality of keys is an equivalence relation, and it looks at the instance alone.
pub proof fn law_key_equivalence(a: ContractKey, b: ContractKey, c: ContractKey)
    ensures
        a.eq_spec(&a),
        a.eq_spec(&b) ==> b.eq_spec(&a),
        a.eq_spec(&b) && b.eq_spec(&c) ==> a.eq_spec(&c),
        a@.instance == b@.instance ==> a.eq_spec(&b),
{
}

/// Equal keys feed a hasher in the same way: whatever the one can do to its state, the other can.
pub proof fn law_equal_keys_hash_alike<H: Hasher>(a: ContractKey, b: ContractKey)
    requires
        a.eq_spec(&b),
    ensures
        forall|s: &mut H| #[trigger] hashed(a@.instance, s) == hashed(b@.instance, s),
{
}

/// The text of the bytes of a key decodes to the bytes.
pub proof fn law_key_text_round_trip(bytes: Seq<u8>)
    requires
        bytes.len() == CONTRACT_KEY_SIZE,
    ensures
        decode_key_bytes(utf8::encode_utf8(base58::base58_text(bytes))) == Ok::<Seq<u8>, Base58Error>(bytes),
{
    base58::law_base58_round_trip(bytes, CONTRACT_KEY_SIZE as nat);
    assert(pad_key(bytes) =~= bytes);
}

/// Decoding the text of a code hash, with some parameters, gives the key that the code with that
/// hash and the parameters have.
pub proof fn law_decode_hash_text(hash: Seq<u8>, parameters: Seq<u8>)
    requires
        hash.len() == CONTRACT_KEY_SIZE,
    ensures
        decode_contract_key(utf8::encode_utf8(base58::base58_text(hash)), parameters) == Ok::<
            ContractKeyView,
            Base58Error,
        >(contract_key(hash, parameters)),
{
    law_key_text_round_trip(hash);
}

/// Zeros are put behind the bytes of a key, up to its size; the bytes stay as they are.
pub proof fn law_pad_key(bytes: Seq<u8>)
    requires
        bytes.len() <= CONTRACT_KEY_SIZE,
    ensures
        pad_key(bytes).len() == CONTRACT_KEY_SIZE,
        forall|i: int| 0 <= i < bytes.len() ==> #[trigger] pad_key(bytes)[i] == bytes[i],
        forall|i: int| bytes.len() <= i < CONTRACT_KEY_SIZE ==> #[trigger] pad_key(bytes)[i] == 0,
{
}

/// Text is refused as the bytes of a key for the reason for which it is refused as Base58 text of at
/// most as many bytes. Otherwise the key is the bytes that the text stands for, and zeros.
pub proof fn law_decode_key_bytes(text: Seq<u8>)
    ensures
        match base58::base58_decode(text, CONTRACT_KEY_SIZE as nat) {
            Ok(bytes) => {
                &&& bytes.len() <= CONTRACT_KEY_SIZE
                &&& decode_key_bytes(text) matches Ok(key)
                &&& key.len() == CONTRACT_KEY_SIZE
                &&& forall|i: int| 0 <= i < bytes.len() ==> #[trigger] key[i] == bytes[i]
                &&& forall|i: int| bytes.len() <= i < key.len() ==> #[trigger] key[i] == 0
            },
            Err(e) => decode_key_bytes(text) == Err::<Seq<u8>, Base58Error>(e),
        },
{
}

/// The instance is the digest of the code hash followed by all of the parameters.
pub proof fn law_instance_is_digest(hash: Seq<u8>, parameters: Seq<u8>)
    ensures
        instance_bytes(hash, parameters) == digest::blake2s256(hash + parameters),
{
}

/// A key is made of the digest of the code hash followed by all of the parameters, and of the code
/// hash.
pub proof fn law_key_is_digest(hash: Seq<u8>, parameters: Seq<u8>)
    ensures
        contract_key(hash, parameters).instance == digest::blake2s256(hash + parameters),
        contract_key(hash, parameters).code == Some(hash),
{
}

/// What is digested for the instance differs where the code hashes or the parameters differ.
pub proof fn law_digested_differs(h: Seq<u8>, p: Seq<u8>, g: Seq<u8>, q: Seq<u8>)
    requires
        h.len() == g.len(),
        h != g || p != q,
    ensures
        h + p != g + q,
{
    if h + p == g + q {
        assert((h + p).take(h.len() as int) =~= h);
        assert((g + q).take(h.len() as int) =~= g);
        assert((h + p).skip(h.len() as int) =~= p);
        assert((g + q).skip(h.len() as int) =~= q);
    }
}

/// Decoding a key fails exactly where the text of the code hash cannot be read, and for the same
/// reason. Otherwise the instance is the digest of the hash followed by all of the parameters.
pub proof fn law_decode_contract_key(text: Seq<u8>, parameters: Seq<u8>)
    ensures
        match decode_key_bytes(text) {
            Ok(hash) => {
                &&& decode_contract_key(text, parameters) matches Ok(key)
                &&& key.instance == digest::blake2s256(hash + parameters)
                &&& key.code == Some(hash)
            },
            Err(e) => decode_contract_key(text, parameters) == Err::<ContractKeyView, Base58Error>(e),
        },
{
}

/// Two ids are equal exactly if they have the same bytes.
pub proof fn law_id_equality(a: ContractInstanceId, b: ContractInstanceId)
    ensures
        ContractInstanceId::obeys_eq_spec(),
        a.eq_spec(&b) == (a@ == b@),
{
}

/// Two keys are equal exactly if they have the same instance.
pub proof fn law_key_equality(a: ContractKey, b: ContractKey)
    ensures
        ContractKey::obeys_eq_spec(),
        a.eq_spec(&b) == (a@.instance == b@.instance),
{
}

/// A hasher is fed with the array of all of the bytes.
pub(crate) proof fn law_hashed<H: Hasher>(key: [u8; CONTRACT_KEY_SIZE])
    ensures
        forall|s: &mut H| #[trigger]
            hashed(key@, s) == call_ensures(hash_bytes::<H>, (&key, s), ()),
{
    digest::lemma_key_array(key);
}

} // verus!
