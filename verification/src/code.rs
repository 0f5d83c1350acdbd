//! The executable part of a contract.

use std::borrow::Cow;
use vstd::prelude::*;
use vstd::slice::slice_to_vec;
use vstd::std_specs::cmp::PartialEqSpec;
use vstd::string::*;
use crate::base58;
use crate::bytes::{bytes_eq, cow_into_vec, cow_slice};
use crate::digest::{digest, CONTRACT_KEY_SIZE};
use crate::display::{internal_fmt_key, push_data};

verus! {

/// The executable contract.
///
/// It is the part of the executable belonging to the full specification
/// and does not include any other metadata (like the parameters).
///
/// It is seen as the sequence of its bytes. A code made from bytes carries their digest.
#[derive(Debug)]
pub struct ContractCode<'a> {
    data: Cow<'a, [u8]>,
    key: [u8; CONTRACT_KEY_SIZE],
}

impl<'a> View for ContractCode<'a> {
    type V = Seq<u8>;

    closed spec fn view(&self) -> Seq<u8> {
        self.data@
    }
}

impl<'a> ContractCode<'a> {
    /// The hash that the code carries.
    pub closed spec fn spec_hash(&self) -> Seq<u8> {
        self.key@
    }

    /// Whether the bytes are owned rather than borrowed.
    pub closed spec fn owned(&self) -> bool {
        self.data is Owned
    }

    /// The code carries the digest of its bytes.
    pub open spec fn wf(&self) -> bool {
        self.spec_hash() == crate::digest::blake2s256(self@)
    }

    /// Puts a code together from its bytes and a hash that was stored with them.
    pub fn from_parts(data: Vec<u8>, key: [u8; CONTRACT_KEY_SIZE]) -> (r: ContractCode<'a>)
        ensures
            r@ == data@,
            r.spec_hash() == key@,
            r.owned(),
    {
        ContractCode { data: Cow::Owned(data), key }
    }

    /// Contract key hash.
    pub fn hash(&self) -> (r: &[u8; CONTRACT_KEY_SIZE])
        ensures
            r@ == self.spec_hash(),
    {
        &self.key
    }

    /// Returns the `Base58` string representation of the contract key.
    pub fn hash_str(&self) -> (r: String)
        ensures
            r@ == base58::base58_text(self.spec_hash()),
    {
        Self::encode_hash(&self.key)
    }

    /// Reference to contract code.
    pub fn data(&self) -> (r: &[u8])
        ensures
            r@ == self@,
    {
        cow_slice(&self.data)
    }

    /// Extracts the owned contract code data as a `Vec<u8>`.
    pub fn into_bytes(self) -> (r: Vec<u8>)
        ensures
            r@ == self@,
    {
        slice_to_vec(cow_slice(&self.data))
    }

    /// Returns the `Base58` string representation of a hash.
    pub fn encode_hash(hash: &[u8; CONTRACT_KEY_SIZE]) -> (r: String)
        ensures
            r@ == base58::base58_text(hash@),
    {
        base58::encode(hash.as_slice())
    }

    /// Copies the data if not owned and returns an owned version of self.
    pub fn into_owned(self) -> (r: ContractCode<'static>)
        ensures
            r@ == self@,
            r.spec_hash() == self.spec_hash(),
            r.owned(),
    {
        ContractCode { data: Cow::Owned(cow_into_vec(self.data)), key: self.key }
    }

    /// The text form: the start of the key and the bytes of the code.
    pub fn to_string(&self) -> (r: String)
        ensures
            r@ == "Contract( key: "@ + crate::display::key_text(self.spec_hash()) + ", data: ["@
                + crate::display::data_text(self@) + "])"@,
    {
        let mut out = String::new();
        out.append("Contract( key: ");
        internal_fmt_key(&mut out, &self.key);
        out.append(", data: [");
        push_data(&mut out, cow_slice(&self.data));
        out.append("])");
        assert(Seq::<char>::empty() + "Contract( key: "@ =~= "Contract( key: "@);
        out
    }

    /// The digest of `data`.
    pub fn gen_key(data: &[u8]) -> (r: [u8; CONTRACT_KEY_SIZE])
        ensures
            r@ == crate::digest::blake2s256(data@),
    {
        digest(data)
    }
}

impl From<Vec<u8>> for ContractCode<'static> {
    fn from(data: Vec<u8>) -> (r: Self)
        ensures
            r@ == data@,
            r.spec_hash() == crate::digest::blake2s256(data@),
            r.wf(),
            r.owned(),
    {
        let key = ContractCode::gen_key(data.as_slice());
        proof {
            crate::digest::lemma_key_array(key);
        }
        ContractCode { data: Cow::Owned(data), key }
    }
}

impl vstd::std_specs::convert::FromSpecImpl<Vec<u8>> for ContractCode<'static> {
    open spec fn obeys_from_spec() -> bool {
        true
    }

    closed spec fn from_spec(data: Vec<u8>) -> Self {
        ContractCode {
            data: Cow::Owned(data),
            key: crate::digest::key_array(crate::digest::blake2s256(data@)),
        }
    }
}

impl<'a> From<&'a [u8]> for ContractCode<'a> {
    fn from(data: &'a [u8]) -> (r: Self)
        ensures
            r@ == data@,
            r.spec_hash() == crate::digest::blake2s256(data@),
            r.wf(),
            !r.owned(),
    {
        let key = ContractCode::gen_key(data);
        proof {
            crate::digest::lemma_key_array(key);
        }
        ContractCode { data: Cow::Borrowed(data), key }
    }
}

impl<'a> vstd::std_specs::convert::FromSpecImpl<&'a [u8]> for ContractCode<'a> {
    open spec fn obeys_from_spec() -> bool {
        true
    }

    closed spec fn from_spec(data: &'a [u8]) -> Self {
        ContractCode {
            data: Cow::Borrowed(data),
            key: crate::digest::key_array(crate::digest::blake2s256(data@)),
        }
    }
}

impl<'a> Clone for ContractCode<'a> {
    fn clone(&self) -> (r: Self)
        ensures
            r@ == self@,
            r.spec_hash() == self.spec_hash(),
            r.owned() == self.owned(),
    {
        let data = match &self.data {
            Cow::Borrowed(s) => Cow::Borrowed(*s),
            Cow::Owned(v) => Cow::Owned(slice_to_vec(v.as_slice())),
        };
        ContractCode { data, key: self.key }
    }
}

impl<'a> PartialEq for ContractCode<'a> {
    fn eq(&self, other: &Self) -> (r: bool)
        ensures
            r == (self.spec_hash() == other.spec_hash()),
    {
        bytes_eq(self.key.as_slice(), other.key.as_slice())
    }
}

impl<'a> vstd::std_specs::cmp::PartialEqSpecImpl for ContractCode<'a> {
    open spec fn obeys_eq_spec() -> bool {
        true
    }

    open spec fn eq_spec(&self, other: &Self) -> bool {
        self.spec_hash() == other.spec_hash()
    }
}

impl<'a> Eq for ContractCode<'a> {

}

/// Codes made from the same bytes are equal.
pub proof fn law_same_bytes_equal_code(a: ContractCode<'_>, b: ContractCode<'_>)
    requires
        a.wf(),
        b.wf(),
        a@ == b@,
    ensures
        a.spec_hash() == b.spec_hash(),
        a.eq_spec(&b),
{
}

/// Equality of codes is an equivalence relation.
pub proof fn law_code_equivalence(a: ContractCode<'_>, b: ContractCode<'_>, c: ContractCode<'_>)
    ensures
        a.eq_spec(&a),
        a.eq_spec(&b) ==> b.eq_spec(&a),
        a.eq_spec(&b) && b.eq_spec(&c) ==> a.eq_spec(&c),
{
}

/// A code is well formed exactly if it carries the digest of all of its bytes.
pub proof fn law_code_carries_digest(code: ContractCode<'_>)
    ensures
        code.wf() == (code.spec_hash() == crate::digest::blake2s256(code@)),
{
}

/// Two codes are equal exactly if they carry the same hash. So codes made from bytes are equal
/// exactly if all of the bytes of the one and all of the bytes of the other have the same digest.
pub proof fn law_code_equality(a: ContractCode<'_>, b: ContractCode<'_>)
    ensures
        ContractCode::obeys_eq_spec(),
        a.eq_spec(&b) == (a.spec_hash() == b.spec_hash()),
        a.wf() && b.wf() ==> a.eq_spec(&b) == (crate::digest::blake2s256(a@)
            == crate::digest::blake2s256(b@)),
{
}

} // verus!
