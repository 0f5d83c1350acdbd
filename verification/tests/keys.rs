//! Keys, ids and the code hashes they are made of.

use std::collections::hash_map::DefaultHasher;
use std::hash::{Hash, Hasher};
use std::str::FromStr;

use locutus_stdlib::{
    Base58Error, ContractCode, ContractInstanceId, ContractKey, Parameters, CONTRACT_KEY_SIZE,
};
use rand::rngs::SmallRng;
use rand::{Rng, SeedableRng};

const CODE_HASH: [u8; 32] = [
    0x5f, 0x76, 0xd3, 0x9b, 0x04, 0x2c, 0x1b, 0x60, 0x00, 0x04, 0x1e, 0x7b, 0xa3, 0x74, 0x6c, 0x8f,
    0x1d, 0x47, 0x07, 0x42, 0x5c, 0x57, 0x1c, 0xeb, 0xd7, 0x0c, 0xab, 0x0f, 0x87, 0x31, 0x7e, 0xff,
];

fn random_bytes() -> [u8; 1024] {
    let mut bytes = [0; 1024];
    let mut rng = SmallRng::from_entropy();
    rng.fill(&mut bytes[..]);
    bytes
}

fn hash_of<T: Hash>(value: &T) -> u64 {
    let mut hasher = DefaultHasher::new();
    value.hash(&mut hasher);
    hasher.finish()
}

#[test]
fn key_encoding() {
    let code = ContractCode::from(vec![1, 2, 3]);
    let expected = ContractKey::from((Parameters::from(vec![]), &code));

    let decoded = ContractKey::decode(code.hash_str(), [].as_ref().into()).unwrap();
    assert_eq!(expected, decoded);
    assert_eq!(expected.code_hash(), decoded.code_hash());
}

#[test]
fn key_ser() -> Result<(), Box<dyn std::error::Error>> {
    let random = random_bytes();
    let mut gen = arbitrary::Unstructured::new(&random);
    let instance: [u8; 32] = gen.arbitrary()?;
    let code: Option<[u8; 32]> = gen.arbitrary()?;
    let expected = ContractKey::from_parts(ContractInstanceId::new(instance), code);
    let encoded = bs58::encode(expected.bytes()).into_string();

    let serialized = bincode::serialize(&(expected.id().as_bytes(), expected.code_hash()))?;
    let (instance, code): ([u8; 32], Option<[u8; 32]>) = bincode::deserialize(&serialized)?;
    let deserialized = ContractKey::from_parts(ContractInstanceId::new(instance), code);
    let decoded = bs58::encode(deserialized.bytes()).into_string();
    assert_eq!(encoded, decoded);
    assert_eq!(deserialized, expected);
    assert_eq!(deserialized.code_hash(), expected.code_hash());
    Ok(())
}

#[test]
fn code_hash_is_the_digest_of_the_code() {
    let key = ContractCode::gen_key(b"hello world");
    assert_eq!(
        key,
        [
            0x9a, 0xec, 0x68, 0x06, 0x79, 0x45, 0x61, 0x10, 0x7e, 0x59, 0x4b, 0x1f, 0x6a, 0x8a,
            0x6b, 0x0c, 0x92, 0xa0, 0xcb, 0xa9, 0xac, 0xf5, 0xe5, 0xe9, 0x3c, 0xca, 0x06, 0xf7,
            0x81, 0x81, 0x3b, 0x0b,
        ]
    );
    let code = ContractCode::from(vec![1, 2, 3]);
    assert_eq!(code.hash(), &CODE_HASH);
    assert_eq!(code.hash_str(), "7RepgccRgsvwtrGwmGTNMWbZ14U13eNt4cGxdGd6Wx6A");
    assert_eq!(ContractCode::from(&[1u8, 2, 3][..]).hash(), &CODE_HASH);
    let empty = ContractCode::from(vec![]);
    assert_eq!(empty.hash_str(), "85PR7cu3Rw8acAQELbaYVAbdJQSATiPUWAs9qFpw8xJC");
}

#[test]
fn id_is_the_digest_of_hash_and_parameters() {
    let code = ContractCode::from(vec![1, 2, 3]);
    let parameters = Parameters::from(vec![7, 8]);
    let id = ContractInstanceId::from((&parameters, &code));
    assert_eq!(id.encode(), "DLSRfTvq8hwcHBW58RKpvwScftjHEBTsf8c5btMTktyh");
    let key = ContractKey::from((&parameters, &code));
    assert_eq!(key.bytes(), id.as_bytes());
    assert_eq!(key.encoded_contract_id(), id.encode());
    assert_eq!(key.to_string(), id.to_string());
    assert_eq!(&key[..4], &[0xb7, 0x47, 0x06, 0xe1]);
    assert_eq!(key.code_hash(), Some(&CODE_HASH));
    assert_eq!(key.encoded_code_hash(), Some(code.hash_str()));

    let without = ContractKey::from((Parameters::from(vec![]), code));
    assert_eq!(
        without.encoded_contract_id(),
        "FwDjppZv1CTAztivtqwxAcyQ81sLAX9XaH4dvVx2qnQF"
    );
    assert_ne!(without, key);
}

#[test]
fn parameters_and_code_by_value_or_reference_give_the_same_key() {
    let code = ContractCode::from(vec![9]);
    let parameters = Parameters::from(vec![4]);
    let expected = ContractKey::from((&parameters, &code));
    assert_eq!(ContractKey::from((parameters.clone(), &code)), expected);
    assert_eq!(ContractKey::from((&parameters, code.clone())), expected);
    assert_eq!(ContractKey::from((parameters.clone(), code.clone())), expected);
    assert_eq!(ContractInstanceId::from((parameters.clone(), &code)), expected.id());
    assert_eq!(ContractInstanceId::from((&parameters, code.clone())), expected.id());
    assert_eq!(ContractInstanceId::from((parameters, code)), expected.id());
}

#[test]
fn base58_text_of_ids() {
    let mut bytes = [0; CONTRACT_KEY_SIZE];
    assert_eq!(ContractInstanceId::new(bytes).encode(), "1".repeat(32));
    bytes[2] = 1;
    let text = "11Cd4BX7vopdUjCBe56dfR9Mw86iDpdcAZbJ2yE8jR";
    assert_eq!(ContractInstanceId::new(bytes).encode(), text);
    assert_eq!(ContractInstanceId::from_str(text).unwrap().as_bytes(), &bytes);
    let largest = ContractInstanceId::new([0xff; CONTRACT_KEY_SIZE]);
    assert_eq!(largest.encode(), "JEKNVnkbo3jma5nREBBJCDoXFVeKkD56V3xKrvRmWxFG");
    assert_eq!(ContractCode::encode_hash(&[0xff; 32]), largest.encode());
}

#[test]
fn text_round_trip() {
    for seed in 0..50u8 {
        let mut bytes = [0; CONTRACT_KEY_SIZE];
        for (i, byte) in bytes.iter_mut().enumerate().skip(seed as usize % 7) {
            *byte = (i as u8).wrapping_mul(37).wrapping_add(seed.wrapping_mul(91));
        }
        let id = ContractInstanceId::new(bytes);
        assert_eq!(ContractInstanceId::from_str(&id.encode()), Ok(id));
        assert_eq!(ContractInstanceId::try_from(id.encode()), Ok(id));
        assert_eq!(ContractInstanceId::from_base58(id.encode().as_bytes()), Ok(id));
    }
}

#[test]
fn id_from_its_binary_representation() {
    let id = ContractInstanceId::from_bytes(&[7; 32]).unwrap();
    assert_eq!(id.as_bytes(), &[7; 32]);
    let mut expected = [0; CONTRACT_KEY_SIZE];
    expected[..3].copy_from_slice(&[1, 2, 3]);
    assert_eq!(ContractInstanceId::from_bytes(&[1, 2, 3]).unwrap().as_bytes(), &expected);
    assert_eq!(ContractInstanceId::from_bytes(&[7; 33]), Err(Base58Error::BufferTooSmall));
}

#[test]
fn different_bytes_have_different_text() {
    let a = ContractInstanceId::new([0; 32]);
    let mut bytes = [0; 32];
    bytes[31] = 1;
    let b = ContractInstanceId::new(bytes);
    assert_ne!(a.encode(), b.encode());
}

#[test]
fn short_text_is_filled_up_with_zeros() {
    let mut expected = [0; CONTRACT_KEY_SIZE];
    expected[..11].copy_from_slice(b"hello world");
    let id = ContractInstanceId::from_str("StV1DL6CwTryKyV").unwrap();
    assert_eq!(id.as_bytes(), &expected);
    let mut expected = [0; CONTRACT_KEY_SIZE];
    expected[2] = 5;
    assert_eq!(ContractInstanceId::from_str("116").unwrap().as_bytes(), &expected);
    assert_eq!(ContractInstanceId::from_str("").unwrap().as_bytes(), &[0; 32]);
}

#[test]
fn text_that_stands_for_too_many_bytes() {
    let text = "2K3n5t4wSaF5mj27Tw9vStXWLWyRjjiH5Cp3CFLpKVCr1c";
    assert_eq!(ContractInstanceId::from_str(text), Err(Base58Error::BufferTooSmall));
    assert_eq!(
        ContractInstanceId::from_str(&"1".repeat(33)),
        Err(Base58Error::BufferTooSmall)
    );
    assert_eq!(ContractInstanceId::from_str(&"1".repeat(32)), Ok(ContractInstanceId::new([0; 32])));
    // the number is too large before the invalid character is reached
    assert_eq!(
        ContractInstanceId::from_str(&format!("{text}0")),
        Err(Base58Error::BufferTooSmall)
    );
}

#[test]
fn text_with_invalid_characters() {
    assert_eq!(
        ContractInstanceId::from_str("ab0cd"),
        Err(Base58Error::InvalidCharacter { character: '0', index: 2 })
    );
    assert_eq!(
        ContractInstanceId::try_from("l".to_string()),
        Err(Base58Error::InvalidCharacter { character: 'l', index: 0 })
    );
    assert_eq!(
        ContractInstanceId::from_str("aé"),
        Err(Base58Error::NonAsciiCharacter { index: 1 })
    );
    // too many zero bytes are noticed only behind the last character
    let text = format!("{}I", "1".repeat(40));
    assert_eq!(
        ContractInstanceId::from_str(&text),
        Err(Base58Error::InvalidCharacter { character: 'I', index: 40 })
    );
}

#[test]
fn key_from_id() {
    let id = ContractInstanceId::new([3; 32]);
    let key = ContractKey::from_id(id.encode()).unwrap();
    assert_eq!(key.id(), id);
    assert_eq!(key.code_hash(), None);
    assert_eq!(key.encoded_code_hash(), None);
    assert_eq!(ContractKey::from(id), key);
    assert_eq!(
        ContractKey::from_id("?".to_string()),
        Err(Base58Error::InvalidCharacter { character: '?', index: 0 })
    );
}

#[test]
fn decoding_a_key_from_bad_text() {
    assert_eq!(
        ContractKey::decode("O".to_string(), Parameters::from(vec![1])),
        Err(Base58Error::InvalidCharacter { character: 'O', index: 0 })
    );
    assert_eq!(
        ContractKey::decode("1".repeat(33), Parameters::from(vec![1])),
        Err(Base58Error::BufferTooSmall)
    );
}

#[test]
fn keys_are_compared_by_their_instance() {
    let id = ContractInstanceId::new([1; 32]);
    let partial = ContractKey::from_parts(id, None);
    let full = ContractKey::from_parts(id, Some([2; 32]));
    let other = ContractKey::from_parts(ContractInstanceId::new([4; 32]), Some([2; 32]));
    assert_eq!(partial, full);
    assert_eq!(full, partial);
    assert_eq!(hash_of(&partial), hash_of(&full));
    assert_ne!(full, other);
    assert_ne!(hash_of(&full), hash_of(&other));
    assert_eq!(full.clone().code_hash(), Some(&[2; 32]));
    assert_eq!(hash_of(&partial), hash_of(&[1u8; 32]));
}
