//! A contract: its code, its parameters and the key made from both.

use byteorder::{LittleEndian, ReadBytesExt};
use vstd::bytes as le_bytes;
use vstd::prelude::*;
use vstd::std_specs::cmp::PartialEqSpec;
use vstd::slice::{slice_subrange, slice_to_vec};
use vstd::string::*;
use crate::code::ContractCode;
use crate::display::{internal_fmt_key, push_data};
use crate::key::ContractKey;
use crate::state::Parameters;

verus! {

/// A complete contract specification requires a `parameters` section
/// and a `contract` section.
///
/// The parameters and the code can be replaced; the key is the one that the contract was made with.
#[derive(Debug)]
pub struct Contract<'a> {
    pub parameters: Parameters<'a>,
    pub data: ContractCode<'a>,
    key: ContractKey,
}

impl<'a> Contract<'a> {
    /// What the key of the contract holds.
    pub closed spec fn spec_key(&self) -> crate::key::ContractKeyView {
        self.key@
    }

    /// The parameters of the contract.
    pub closed spec fn spec_parameters(&self) -> Parameters<'a> {
        self.parameters
    }

    /// The code of the contract.
    pub closed spec fn spec_code(&self) -> ContractCode<'a> {
        self.data
    }

    /// The key is that of the code and the parameters.
    pub open spec fn wf(&self) -> bool {
        self.spec_key() == crate::key::contract_key(
            self.spec_code().spec_hash(),
            self.spec_parameters()@,
        )
    }

    /// The contract after its public fields have been assigned the given values.
    pub closed spec fn with_fields(self, parameters: Parameters<'a>, data: ContractCode<'a>) -> Self {
        Contract { parameters, data, ..self }
    }

    /// Returns a contract from [contract code](ContractCode) and given [parameters](Parameters).
    pub fn new(contract: ContractCode<'a>, parameters: Parameters<'a>) -> (r: Contract<'a>)
        ensures
            r.spec_code() == contract,
            r.spec_parameters() == parameters,
            r.spec_key().instance == crate::digest::blake2s256(contract.spec_hash() + parameters@),
            r.spec_key().code == Some(contract.spec_hash()),
            r.wf(),
    {
        let key = ContractKey::from((&parameters, &contract));
        Contract { parameters, data: contract, key }
    }

    /// Puts a contract together from its parts and a key that was stored with them.
    pub fn from_parts(parameters: Parameters<'a>, data: ContractCode<'a>, key: ContractKey) -> (r:
        Contract<'a>)
        ensures
            r.spec_code() == data,
            r.spec_parameters() == parameters,
            r.spec_key() == key@,
    {
        Contract { parameters, data, key }
    }

    /// Key portion of the specification.
    pub fn key(&self) -> (r: &ContractKey)
        ensures
            r@ == self.spec_key(),
    {
        &self.key
    }

    /// Code portion of the specification.
    pub fn into_code(self) -> (r: ContractCode<'a>)
        ensures
            r == self.spec_code(),
    {
        self.data
    }

    /// The text form: the start of the key and the bytes of the code.
    pub fn to_string(&self) -> (r: String)
        ensures
            r@ == "ContractSpec( key: "@ + crate::display::key_text(self.spec_key().instance)
                + ", data: ["@ + crate::display::data_text(self.spec_code()@) + "])"@,
    {
        let mut out = String::new();
        out.append("ContractSpec( key: ");
        let id = self.key.id();
        internal_fmt_key(&mut out, id.as_bytes());
        out.append(", data: [");
        push_data(&mut out, self.data.data());
        out.append("])");
        assert(Seq::<char>::empty() + "ContractSpec( key: "@ =~= "ContractSpec( key: "@);
        out
    }
}

impl<'a> Clone for Contract<'a> {
    fn clone(&self) -> (r: Self)
        ensures
            r.spec_parameters()@ == self.spec_parameters()@,
            r.spec_code()@ == self.spec_code()@,
            r.spec_code().spec_hash() == self.spec_code().spec_hash(),
            r.spec_key() == self.spec_key(),
            r.spec_parameters().owned() == self.spec_parameters().owned(),
            r.spec_code().owned() == self.spec_code().owned(),
    {
        Contract {
            parameters: self.parameters.clone(),
            data: self.data.clone(),
            key: self.key.clone(),
        }
    }
}

impl<'a> PartialEq for Contract<'a> {
    fn eq(&self, other: &Self) -> (r: bool)
        ensures
            r == (self.spec_key().instance == other.spec_key().instance),
    {
        self.key == other.key
    }
}

impl<'a> vstd::std_specs::cmp::PartialEqSpecImpl for Contract<'a> {
    open spec fn obeys_eq_spec() -> bool {
        true
    }

    open spec fn eq_spec(&self, other: &Self) -> bool {
        self.spec_key().instance == other.spec_key().instance
    }
}

impl<'a> Eq for Contract<'a> {

}

/// The reason why bytes do not hold a contract.
#[derive(Debug, Clone, Copy, PartialEq, Eq, Structural)]
pub enum ReadError {
    /// The bytes end before the contract does.
    UnexpectedEof,
}

/// The block that `data` begins with and what follows it: eight bytes hold the length of the block,
/// the least significant one first.
pub open spec fn first_block(data: Seq<u8>) -> Option<(Seq<u8>, Seq<u8>)> {
    let len = le_bytes::spec_u64_from_le_bytes(data.take(8)) as usize;
    if data.len() < 8 || data.len() - 8 < len {
        None
    } else {
        Some((data.subrange(8, 8 + len), data.skip(8 + len)))
    }
}

/// The parameters and the code that `data` begins with.
pub open spec fn contract_blocks(data: Seq<u8>) -> Option<(Seq<u8>, Seq<u8>)> {
    match first_block(data) {
        Some((parameters, rest)) => match first_block(rest) {
            Some((code, _)) => Some((parameters, code)),
            None => None,
        },
        None => None,
    }
}

/// `block` behind its length.
pub open spec fn framed(block: Seq<u8>) -> Seq<u8> {
    le_bytes::spec_u64_to_le_bytes(block.len() as u64) + block
}

/// Calls `byteorder::ReadBytesExt::read_u64::<LittleEndian>` on the slice: the number that its first
/// eight bytes hold, the least significant one first, or `None` if there are fewer.
#[verifier::external_body]
fn read_u64_le(data: &[u8]) -> (r: Option<u64>)
    ensures
        match r {
            Some(n) => data@.len() >= 8 && n == le_bytes::spec_u64_from_le_bytes(data@.take(8)),
            None => data@.len() < 8,
        },
{
    let mut reader = data;
    reader.read_u64::<LittleEndian>().ok()
}

/// Reads the block that `data` begins with; returns it and what follows it.
fn read_block(data: &[u8]) -> (r: Option<(Vec<u8>, &[u8])>)
    ensures
        match r {
            Some((block, rest)) => first_block(data@) == Some((block@, rest@)),
            None => first_block(data@) is None,
        },
{
    let len: usize = match read_u64_le(data) {
        Some(n) => n as usize,
        None => {
            return None;
        },
    };
    if data.len() - 8 < len {
        return None;
    }
    let block = slice_to_vec(slice_subrange(data, 8, 8 + len));
    let rest = slice_subrange(data, 8 + len, data.len());
    assert(rest@ =~= data@.skip(8 + len));
    Some((block, rest))
}

impl TryFrom<Vec<u8>> for Contract<'static> {
    type Error = ReadError;

    fn try_from(data: Vec<u8>) -> (r: Result<Self, ReadError>)
        ensures
            match r {
                Ok(contract) => {
                    &&& contract_blocks(data@) == Some(
                        (contract.spec_parameters()@, contract.spec_code()@),
                    )
                    &&& contract.spec_parameters().owned()
                    &&& contract.spec_code().owned()
                    &&& contract.spec_code().spec_hash() == crate::digest::blake2s256(
                        contract.spec_code()@,
                    )
                    &&& contract.spec_key().instance == crate::digest::blake2s256(
                        contract.spec_code().spec_hash() + contract.spec_parameters()@,
                    )
                    &&& contract.spec_key().code == Some(contract.spec_code().spec_hash())
                    &&& contract.spec_code().wf()
                    &&& contract.wf()
                },
                Err(ReadError::UnexpectedEof) => contract_blocks(data@) is None,
            },
    {
        let (params_buf, rest) = match read_block(data.as_slice()) {
            Some(read) => read,
            None => {
                return Err(ReadError::UnexpectedEof);
            },
        };
        let parameters = Parameters::from(params_buf);
        let (contract_buf, _) = match read_block(rest) {
            Some(read) => read,
            None => {
                return Err(ReadError::UnexpectedEof);
            },
        };
        let contract = ContractCode::from(contract_buf);
        Ok(Contract::new(contract, parameters))
    }
}

impl vstd::std_specs::convert::TryFromSpecImpl<Vec<u8>> for Contract<'static> {
    open spec fn obeys_try_from_spec() -> bool {
        false
    }

    open spec fn try_from_spec(data: Vec<u8>) -> Result<Self, ReadError> {
        arbitrary()
    }
}

/// Assigning the public fields of a contract leaves its key: it is still the one made from the code
/// and the parameters that the contract was made with.
pub proof fn law_fields_leave_key<'a>(
    contract: Contract<'a>,
    parameters: Parameters<'a>,
    data: ContractCode<'a>,
)
    ensures
        contract.with_fields(parameters, data).spec_parameters() == parameters,
        contract.with_fields(parameters, data).spec_code() == data,
        contract.with_fields(parameters, data).spec_key() == contract.spec_key(),
        contract.wf() ==> contract.with_fields(parameters, data).spec_key()
            == crate::key::contract_key(
            contract.spec_code().spec_hash(),
            contract.spec_parameters()@,
        ),
{
}

/// Contracts with the same code and the same parameters have the same key, and are equal.
pub proof fn law_same_parts_equal_contract(a: Contract<'_>, b: Contract<'_>)
    requires
        a.wf(),
        b.wf(),
        a.spec_code().wf(),
        b.spec_code().wf(),
        a.spec_code()@ == b.spec_code()@,
        a.spec_parameters()@ == b.spec_parameters()@,
    ensures
        a.spec_key() == b.spec_key(),
        a.eq_spec(&b),
{
}

/// Equality of contracts is an equivalence relation.
pub proof fn law_contract_equivalence(a: Contract<'_>, b: Contract<'_>, c: Contract<'_>)
    ensures
        a.eq_spec(&a),
        a.eq_spec(&b) ==> b.eq_spec(&a),
        a.eq_spec(&b) && b.eq_spec(&c) ==> a.eq_spec(&c),
{
}

/// A framed block is the first block, and what was written behind it follows.
pub proof fn law_first_block_of_framed(block: Seq<u8>, rest: Seq<u8>)
    requires
        block.len() <= usize::MAX,
    ensures
        first_block(framed(block) + rest) == Some((block, rest)),
{
    le_bytes::lemma_auto_spec_u64_to_from_le_bytes();
    let all = framed(block) + rest;
    let header = le_bytes::spec_u64_to_le_bytes(block.len() as u64);
    assert(header.len() == 8);
    assert(all.take(8) =~= header);
    assert(all.subrange(8, 8 + block.len() as int) =~= block);
    assert(all.skip(8 + block.len() as int) =~= rest);
}

/// Parameters and code that are framed one after the other are read back, whatever follows them.
pub proof fn law_contract_blocks_of_framed(parameters: Seq<u8>, code: Seq<u8>, rest: Seq<u8>)
    requires
        parameters.len() <= usize::MAX,
        code.len() <= usize::MAX,
    ensures
        contract_blocks(framed(parameters) + framed(code) + rest) == Some((parameters, code)),
{
    law_first_block_of_framed(code, rest);
    law_first_block_of_framed(parameters, framed(code) + rest);
    assert(framed(parameters) + framed(code) + rest =~= framed(parameters) + (framed(code) + rest));
}

/// A contract is well formed exactly if its instance is the digest of its code hash followed by all
/// of its parameters, and it carries that code hash.
pub proof fn law_contract_carries_key(contract: Contract<'_>)
    ensures
        contract.wf() == (contract.spec_key().instance == crate::digest::blake2s256(
            contract.spec_code().spec_hash() + contract.spec_parameters()@,
        ) && contract.spec_key().code == Some(contract.spec_code().spec_hash())),
{
}

/// Two contracts are equal exactly if their keys have the same instance.
pub proof fn law_contract_equality(a: Contract<'_>, b: Contract<'_>)
    ensures
        Contract::obeys_eq_spec(),
        a.eq_spec(&b) == (a.spec_key().instance == b.spec_key().instance),
{
}

/// A framed block is eight bytes of length, the least significant one first, and the block.
pub proof fn law_framed(block: Seq<u8>)
    ensures
        framed(block) == le_bytes::spec_u64_to_le_bytes(block.len() as u64) + block,
{
}

/// Bytes hold a first block exactly if there are eight bytes of length and as many bytes behind them
/// as the length says. The block has that length, and the length, the block and the rest are the
/// bytes.
pub proof fn law_first_block(data: Seq<u8>)
    ensures
        first_block(data) is None == (data.len() < 8 || data.len() - 8
            < le_bytes::spec_u64_from_le_bytes(data.take(8)) as usize),
        first_block(data) matches Some((block, rest)) ==> {
            &&& block.len() == le_bytes::spec_u64_from_le_bytes(data.take(8)) as usize
            &&& data == data.take(8) + block + rest
        },
{
    if data.len() >= 8 {
        let len = le_bytes::spec_u64_from_le_bytes(data.take(8)) as usize as int;
        if data.len() - 8 >= len {
            assert(data =~= data.take(8) + data.subrange(8, 8 + len) + data.skip(8 + len));
        }
    }
}

/// Bytes hold a contract exactly if they hold one block and what follows it holds another: the whole
/// of the first is the parameters, the whole of the second the code.
pub proof fn law_contract_blocks(data: Seq<u8>)
    ensures
        contract_blocks(data) is None == (first_block(data) is None || first_block(
            first_block(data).unwrap().1,
        ) is None),
        contract_blocks(data) matches Some((parameters, code)) ==> {
            &&& parameters == first_block(data).unwrap().0
            &&& code == first_block(first_block(data).unwrap().1).unwrap().0
        },
{
}

/// What is read from eight bytes of length and a block, twice, is the two blocks, whatever follows.
pub proof fn law_contract_read_back(parameters: Seq<u8>, code: Seq<u8>, rest: Seq<u8>)
    requires
        parameters.len() <= usize::MAX,
        code.len() <= usize::MAX,
    ensures
        contract_blocks(
            le_bytes::spec_u64_to_le_bytes(parameters.len() as u64) + parameters
                + le_bytes::spec_u64_to_le_bytes(code.len() as u64) + code + rest,
        ) == Some((parameters, code)),
{
    law_contract_blocks_of_framed(parameters, code, rest);
    let p = le_bytes::spec_u64_to_le_bytes(parameters.len() as u64);
    let c = le_bytes::spec_u64_to_le_bytes(code.len() as u64);
    assert(p + parameters + c + code + rest =~= framed(parameters) + framed(code) + rest);
}

} // verus!
