//! Contracts, their code and the byte strings they work on.

use locutus_stdlib::{
    Contract, ContractCode, ContractInstanceId, ContractKey, Parameters, ReadError, State,
    StateDelta, StateSummary,
};
use rand::rngs::SmallRng;
use rand::{Rng, SeedableRng};
use std::borrow::Cow;

fn random_bytes() -> [u8; 1024] {
    let mut bytes = [0; 1024];
    let mut rng = SmallRng::from_entropy();
    rng.fill(&mut bytes[..]);
    bytes
}

fn framed(block: &[u8]) -> Vec<u8> {
    let mut out = (block.len() as u64).to_le_bytes().to_vec();
    out.extend_from_slice(block);
    out
}

#[test]
fn contract_ser() -> Result<(), Box<dyn std::error::Error>> {
    let random = random_bytes();
    let mut gen = arbitrary::Unstructured::new(&random);
    let data: Vec<u8> = gen.arbitrary()?;
    let parameters: Vec<u8> = gen.arbitrary()?;
    let expected = Contract::new(ContractCode::from(data), Parameters::from(parameters));

    let serialized = bincode::serialize(&(
        expected.parameters.as_ref(),
        (expected.data.data(), expected.data.hash()),
        (expected.key().id().as_bytes(), expected.key().code_hash()),
    ))?;
    type Parts = (Vec<u8>, (Vec<u8>, [u8; 32]), ([u8; 32], Option<[u8; 32]>));
    let (parameters, (data, hash), (instance, code)): Parts = bincode::deserialize(&serialized)?;
    let deserialized = Contract::from_parts(
        Parameters::from(parameters),
        ContractCode::from_parts(data, hash),
        ContractKey::from_parts(ContractInstanceId::new(instance), code),
    );
    assert_eq!(deserialized, expected);
    assert_eq!(deserialized.data, expected.data);
    assert_eq!(deserialized.data.data(), expected.data.data());
    assert_eq!(deserialized.parameters.as_ref(), expected.parameters.as_ref());
    Ok(())
}

#[test]
fn contract_from_framed_bytes() {
    let mut data = framed(&[7, 8]);
    data.extend(framed(&[1, 2, 3]));
    let expected = Contract::new(ContractCode::from(vec![1, 2, 3]), Parameters::from(vec![7, 8]));
    let contract = Contract::try_from(data.clone()).unwrap();
    assert_eq!(contract, expected);
    assert_eq!(contract.parameters.as_ref(), &[7, 8]);
    assert_eq!(contract.data.data(), &[1, 2, 3]);
    assert_eq!(contract.key().code_hash(), expected.key().code_hash());
    assert_eq!(
        contract.key().encoded_contract_id(),
        "DLSRfTvq8hwcHBW58RKpvwScftjHEBTsf8c5btMTktyh"
    );
    // what follows the code is not looked at
    data.push(99);
    assert_eq!(Contract::try_from(data).unwrap(), expected);
}

#[test]
fn contract_from_truncated_bytes() {
    let mut data = framed(&[7, 8]);
    data.extend(framed(&[1, 2, 3]));
    for n in 0..data.len() {
        assert_eq!(Contract::try_from(data[..n].to_vec()), Err(ReadError::UnexpectedEof));
    }
    let empty = [framed(&[]), framed(&[])].concat();
    let contract = Contract::try_from(empty).unwrap();
    assert_eq!(contract.parameters.size(), 0);
    assert_eq!(contract.data.data(), &[] as &[u8]);
}

#[test]
fn lengths_have_their_least_significant_byte_first() {
    let mut data = vec![0, 1, 0, 0, 0, 0, 0, 0];
    data.extend(vec![5; 256]);
    data.extend(framed(&[6]));
    let contract = Contract::try_from(data).unwrap();
    assert_eq!(contract.parameters.as_ref(), &[5; 256]);
    assert_eq!(contract.data.data(), &[6]);
}

#[test]
fn contracts_are_compared_by_key() {
    let a = Contract::new(ContractCode::from(vec![1]), Parameters::from(vec![2]));
    let b = Contract::new(ContractCode::from(&[1u8][..]), Parameters::from(&[2u8][..]));
    let c = Contract::new(ContractCode::from(vec![1]), Parameters::from(vec![3]));
    let d = Contract::new(ContractCode::from(vec![4]), Parameters::from(vec![2]));
    assert_eq!(a, b);
    assert_eq!(b, a);
    assert_eq!(a.key(), b.key());
    assert_ne!(a, c);
    assert_ne!(a, d);
    let copy = c.clone();
    assert_eq!(copy, c);
    assert_eq!(copy.parameters.as_ref(), &[3]);
    assert_eq!(c.into_code().into_bytes(), vec![1]);
}

#[test]
fn replacing_the_parts_of_a_contract_leaves_its_key() {
    let mut contract = Contract::new(ContractCode::from(vec![1, 2, 3]), Parameters::from(vec![]));
    let key = contract.key().clone();
    contract.parameters = Parameters::from(vec![9]);
    contract.data = ContractCode::from(vec![8]);
    assert_eq!(contract.key().bytes(), key.bytes());
    assert_eq!(contract.key().code_hash(), key.code_hash());
    assert_eq!(
        contract.key().encoded_contract_id(),
        "FwDjppZv1CTAztivtqwxAcyQ81sLAX9XaH4dvVx2qnQF"
    );
}

#[test]
fn codes_are_compared_by_hash() {
    let code = ContractCode::from(vec![1, 2]);
    assert_eq!(code, ContractCode::from(&[1u8, 2][..]));
    assert_ne!(code, ContractCode::from(vec![2, 1]));
    let renamed = ContractCode::from_parts(vec![9, 9], *code.hash());
    assert_eq!(renamed, code);
    assert_eq!(renamed.data(), &[9, 9]);
    assert_eq!(renamed.clone().into_owned().hash(), code.hash());
    assert_eq!(renamed.into_bytes(), vec![9, 9]);
}

#[test]
fn text_form_of_code() {
    let code = ContractCode::from(b"abcdefgh".to_vec());
    assert_eq!(code.to_string(), "Contract( key: FhXJWCry, data: [abcdefgh])");
    let code = ContractCode::from(b"abcdefghi".to_vec());
    assert_eq!(code.to_string(), "Contract( key: 9XLweY4M, data: [abcd...efghi])");
    let code = ContractCode::from(b"\xe9abcdefghij".to_vec());
    assert_eq!(code.to_string(), "Contract( key: CPwQrKxj, data: [éabc...defghij])");
}

#[test]
fn text_form_of_contracts() {
    let contract = Contract::new(
        ContractCode::from(b"abcdefghi".to_vec()),
        Parameters::from(b"pp".to_vec()),
    );
    assert_eq!(contract.to_string(), "ContractSpec( key: kB42yYZz, data: [abcd...efghi])");
    let contract = Contract::new(ContractCode::from(vec![]), Parameters::from(vec![]));
    let key = contract.key().encoded_contract_id();
    assert_eq!(contract.to_string(), format!("ContractSpec( key: {}, data: [])", &key[..8]));
}

#[test]
fn byte_strings() {
    let parameters = Parameters::from(&[1u8, 2][..]);
    assert_eq!(parameters.size(), 2);
    assert_eq!(parameters.clone().into_owned().as_ref(), &[1, 2]);
    assert_eq!(parameters.into_bytes(), vec![1, 2]);

    let state = State::from(&[3u8][..]);
    assert_eq!(state.size(), 1);
    assert!(matches!(*state, Cow::Borrowed(_)));
    assert!(matches!(*state.clone().into_owned(), Cow::Owned(_)));
    assert_eq!(state, State::from(vec![3]));
    assert_ne!(state, State::from(vec![4]));
    assert_eq!(state.into_bytes(), vec![3]);

    let mut delta = StateDelta::from(vec![5, 6]);
    assert_eq!(delta.size(), 2);
    assert_eq!(delta, StateDelta::from(&[5u8, 6][..]));
    assert_ne!(delta, StateDelta::from(vec![5]));
    delta.to_mut().push(7);
    assert_eq!(delta.as_ref(), &[5, 6, 7]);
    assert_eq!(delta.into_owned().into_bytes(), vec![5, 6, 7]);

    let mut summary = StateSummary::from(&[8u8][..]);
    assert_eq!(summary.size(), 1);
    *summary = Cow::Owned(vec![1, 2, 3]);
    assert_eq!(summary.size(), 3);
    assert_eq!(summary.clone().into_owned().as_ref(), &[1, 2, 3]);
    assert_eq!(summary.into_bytes(), vec![1, 2, 3]);
}

#[test]
fn changing_a_borrowed_state_leaves_the_source_alone() {
    let source = [1u8, 2];
    let mut state = State::from(&source[..]);
    state.to_mut().push(3);
    assert_eq!(state.as_ref(), &[1, 2, 3]);
    assert!(matches!(*state, Cow::Owned(_)));
    assert_eq!(source, [1, 2]);
}

#[test]
fn reading_a_state_starts_over() {
    let state = State::from(vec![1, 2, 3]);
    let mut small = [0; 2];
    assert_eq!(state.read(&mut small), 2);
    assert_eq!(small, [1, 2]);
    let mut large = [9; 5];
    assert_eq!(state.read(&mut large), 3);
    assert_eq!(large, [1, 2, 3, 9, 9]);
    assert_eq!(state.read(&mut []), 0);
}
