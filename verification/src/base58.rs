//! Base58 text in the Bitcoin alphabet.
//!
//! Bytes are digits of base 256, characters are digits of base 58. The text of some bytes stands
//! for the same number, behind as many leading zero digits.

use vstd::prelude::*;
use vstd::utf8;
use crate::numeral;

verus! {

/// The reasons why Base58 text is refused.
#[derive(Debug, Clone, Copy, PartialEq, Eq, Structural)]
pub enum Base58Error {
    /// The text stands for more bytes than the buffer holds.
    BufferTooSmall,
    /// The text holds an ASCII character that is not in the alphabet.
    InvalidCharacter {
        /// The unexpected character.
        character: char,
        /// Its position in the bytes of the text.
        index: usize,
    },
    /// The text holds a byte that is not ASCII.
    NonAsciiCharacter {
        /// Its position in the bytes of the text.
        index: usize,
    },
}

/// The character for a digit, of
/// `123456789ABCDEFGHJKLMNPQRSTUVWXYZabcdefghijkmnopqrstuvwxyz`.
pub open spec fn digit_char(digit: int) -> char {
    if digit < 9 {
        ('1' as int + digit) as char
    } else if digit < 17 {
        ('A' as int + (digit - 9)) as char
    } else if digit < 22 {
        ('J' as int + (digit - 17)) as char
    } else if digit < 33 {
        ('P' as int + (digit - 22)) as char
    } else if digit < 44 {
        ('a' as int + (digit - 33)) as char
    } else {
        ('m' as int + (digit - 44)) as char
    }
}

/// The digit that a byte of text stands for.
pub open spec fn char_digit(byte: u8) -> Option<int> {
    let c = byte as int;
    if '1' as int <= c <= '9' as int {
        Some(c - '1' as int)
    } else if 'A' as int <= c <= 'H' as int {
        Some(c - 'A' as int + 9)
    } else if 'J' as int <= c <= 'N' as int {
        Some(c - 'J' as int + 17)
    } else if 'P' as int <= c <= 'Z' as int {
        Some(c - 'P' as int + 22)
    } else if 'a' as int <= c <= 'k' as int {
        Some(c - 'a' as int + 33)
    } else if 'm' as int <= c <= 'z' as int {
        Some(c - 'm' as int + 44)
    } else {
        None
    }
}

/// Bytes as digits of base 256.
pub open spec fn byte_digits(bytes: Seq<u8>) -> Seq<int> {
    bytes.map_values(|b: u8| b as int)
}

/// Text as digits of base 58; meaningful where every byte is in the alphabet.
pub open spec fn text_digits(text: Seq<u8>) -> Seq<int> {
    text.map_values(|b: u8| char_digit(b).unwrap())
}

/// The Base58 text of `bytes`.
pub open spec fn base58_text(bytes: Seq<u8>) -> Seq<char> {
    numeral::rebase(byte_digits(bytes), 256, 58).map_values(|d: int| digit_char(d))
}

/// The number of bytes of `text` before the first one that is not in the alphabet.
pub open spec fn valid_prefix(text: Seq<u8>) -> nat
    decreases text.len(),
{
    if text.len() == 0 || char_digit(text[0]) is None {
        0
    } else {
        1 + valid_prefix(text.drop_first())
    }
}

/// The bytes that `text` stands for, if they are at most `capacity`, or the reason why there are
/// none. The characters are read from the left: an invalid one is reported unless the characters
/// before it already stand for too large a number.
pub open spec fn base58_decode(text: Seq<u8>, capacity: nat) -> Result<Seq<u8>, Base58Error> {
    let n = valid_prefix(text);
    let number = numeral::value(text_digits(text.take(n as int)), 58);
    let bytes = numeral::rebase(text_digits(text), 58, 256).map_values(|d: int| d as u8);
    if numeral::digits_of(number, 256).len() > capacity {
        Err(Base58Error::BufferTooSmall)
    } else if n < text.len() {
        if text[n as int] > 127 {
            Err(Base58Error::NonAsciiCharacter { index: n as usize })
        } else {
            Err(
                Base58Error::InvalidCharacter {
                    character: text[n as int] as char,
                    index: n as usize,
                },
            )
        }
    } else if bytes.len() > capacity {
        Err(Base58Error::BufferTooSmall)
    } else {
        Ok(bytes)
    }
}

/// Calls `bs58::encode`, with the Bitcoin alphabet, and `into_string`: the result is the Base58
/// text of `bytes`. The bound on the length keeps the buffer that `bs58` reserves, eight
/// characters for every five bytes, within what a vector can hold.
#[verifier::external_body]
pub(crate) fn encode(bytes: &[u8]) -> (text: String)
    requires
        bytes@.len() <= isize::MAX / 2,
    ensures
        text@ == base58_text(bytes@),
{
    bs58::encode(bytes).with_alphabet(bs58::Alphabet::BITCOIN).into_string()
}

/// Calls `bs58::decode`, with the Bitcoin alphabet, and `into`: on success the decoded bytes stand
/// at the start of `output`, their number is returned, and the other bytes of `output` are as they
/// were. Nothing is said of `output` after an error.
#[verifier::external_body]
pub(crate) fn decode_into(text: &[u8], output: &mut [u8; 32]) -> (r: Result<usize, Base58Error>)
    ensures
        match r {
            Ok(n) => {
                &&& base58_decode(text@, 32) matches Ok(bytes)
                &&& n == bytes.len()
                &&& final(output)@ == bytes + old(output)@.skip(n as int)
            },
            Err(e) => base58_decode(text@, 32) == Err::<Seq<u8>, Base58Error>(e),
        },
{
    match bs58::decode(text).with_alphabet(bs58::Alphabet::BITCOIN).into(output) {
        Ok(n) => Ok(n),
        Err(bs58::decode::Error::InvalidCharacter { character, index }) => {
            Err(Base58Error::InvalidCharacter { character, index })
        },
        Err(bs58::decode::Error::NonAsciiCharacter { index }) => {
            Err(Base58Error::NonAsciiCharacter { index })
        },
        Err(_) => Err(Base58Error::BufferTooSmall),
    }
}

/// The character of a digit stands for the digit.
pub proof fn lemma_digit_char(digit: int)
    requires
        0 <= digit < 58,
    ensures
        digit_char(digit) as int <= 127,
        char_digit(digit_char(digit) as u8) == Some(digit),
{
}

/// Text in the alphabet has no byte outside it.
proof fn lemma_valid_prefix_all(text: Seq<u8>)
    requires
        forall|i: int| 0 <= i < text.len() ==> char_digit(#[trigger] text[i]) is Some,
    ensures
        valid_prefix(text) == text.len(),
    decreases text.len(),
{
    if text.len() > 0 {
        let rest = text.drop_first();
        assert forall|i: int| 0 <= i < rest.len() implies char_digit(#[trigger] rest[i]) is Some by {
            assert(rest[i] == text[i + 1]);
        }
        lemma_valid_prefix_all(rest);
    }
}

/// Base58 text is ASCII, so its bytes are its characters, and they stand for the digits of the
/// bytes in base 58.
proof fn lemma_text_digits(bytes: Seq<u8>)
    ensures
        utf8::is_ascii_chars(base58_text(bytes)),
        utf8::encode_utf8(base58_text(bytes)) == base58_text(bytes).map_values(|c: char| c as u8),
        valid_prefix(utf8::encode_utf8(base58_text(bytes))) == base58_text(bytes).len(),
        text_digits(utf8::encode_utf8(base58_text(bytes))) == numeral::rebase(byte_digits(bytes), 256, 58),
{
    let digits = numeral::rebase(byte_digits(bytes), 256, 58);
    numeral::lemma_rebase_in_base(byte_digits(bytes), 256, 58);
    let text = base58_text(bytes);
    assert forall|i: int| 0 <= i < text.len() implies text[i] as int <= 127 && char_digit(
        #[trigger] text[i] as u8,
    ) == Some(digits[i]) by {
        lemma_digit_char(digits[i]);
    }
    assert forall|i: int| 0 <= i < text.len() implies '\0' <= #[trigger] text[i] <= '\u{7f}' by {
        assert(char_digit(text[i] as u8) == Some(digits[i]));
    }
    utf8::is_ascii_chars_encode_utf8(text);
    let encoded = utf8::encode_utf8(text);
    assert(encoded =~= text.map_values(|c: char| c as u8));
    assert forall|i: int| 0 <= i < encoded.len() implies char_digit(#[trigger] encoded[i]) is Some by {
        assert(encoded[i] == text[i] as u8);
    }
    lemma_valid_prefix_all(encoded);
    assert forall|i: int| 0 <= i < encoded.len() implies #[trigger] text_digits(encoded)[i] == digits[i] by {
        assert(encoded[i] == text[i] as u8);
    }
    assert(text_digits(encoded) =~= digits);
}

/// Decoding the Base58 text of some bytes gives the bytes back, if they fit.
pub proof fn law_base58_round_trip(bytes: Seq<u8>, capacity: nat)
    ensures
        base58_decode(utf8::encode_utf8(base58_text(bytes)), capacity) == if bytes.len() <= capacity {
            Ok(bytes)
        } else {
            Err::<Seq<u8>, Base58Error>(Base58Error::BufferTooSmall)
        },
{
    let digits = byte_digits(bytes);
    let text = utf8::encode_utf8(base58_text(bytes));
    lemma_text_digits(bytes);
    numeral::lemma_rebase_round_trip(digits, 256, 58);
    assert(text.take(text.len() as int) =~= text);
    assert(digits.map_values(|d: int| d as u8) =~= bytes);
}

/// Different bytes have different Base58 text.
pub proof fn law_base58_text_injective(a: Seq<u8>, b: Seq<u8>)
    requires
        base58_text(a) == base58_text(b),
    ensures
        a == b,
{
    let capacity = a.len() + b.len();
    law_base58_round_trip(a, capacity);
    law_base58_round_trip(b, capacity);
}

/// The Base58 text of some bytes has at least as many characters.
pub proof fn lemma_base58_len(bytes: Seq<u8>)
    ensures
        base58_text(bytes).len() >= bytes.len(),
        utf8::is_ascii_chars(base58_text(bytes)),
{
    lemma_text_digits(bytes);
    numeral::lemma_rebase_len(byte_digits(bytes), 256, 58);
}

/// The alphabet: the digits, the capital letters and the small letters, without `0`, `O`, `I` and
/// `l`.
pub proof fn law_alphabet(digit: int)
    requires
        0 <= digit < 58,
    ensures
        digit_char(digit) == "123456789ABCDEFGHJKLMNPQRSTUVWXYZabcdefghijkmnopqrstuvwxyz"@[digit],
        char_digit(digit_char(digit) as u8) == Some(digit),
{
    reveal_strlit("123456789ABCDEFGHJKLMNPQRSTUVWXYZabcdefghijkmnopqrstuvwxyz");
    assert(digit == 0 || digit == 1 || digit == 2 || digit == 3 || digit == 4 || digit == 5 ||
            digit == 6 || digit == 7 || digit == 8 || digit == 9 || digit == 10 || digit == 11
            || digit == 12 || digit == 13 || digit == 14 || digit == 15 || digit == 16 || digit
            == 17 || digit == 18 || digit == 19 || digit == 20 || digit == 21 || digit == 22 ||
            digit == 23 || digit == 24 || digit == 25 || digit == 26 || digit == 27 || digit ==
            28 || digit == 29 || digit == 30 || digit == 31 || digit == 32 || digit == 33 ||
            digit == 34 || digit == 35 || digit == 36 || digit == 37 || digit == 38 || digit ==
            39 || digit == 40 || digit == 41 || digit == 42 || digit == 43 || digit == 44 ||
            digit == 45 || digit == 46 || digit == 47 || digit == 48 || digit == 49 || digit ==
            50 || digit == 51 || digit == 52 || digit == 53 || digit == 54 || digit == 55 ||
            digit == 56 || digit == 57);
}

/// A byte that stands for a digit is the character of the digit.
pub proof fn law_char_digit(byte: u8)
    ensures
        char_digit(byte) matches Some(digit) ==> 0 <= digit < 58 && digit_char(digit) as u8 == byte,
{
}

/// The Base58 text of some bytes stands for the same number as the bytes, behind as many zero digits
/// as there are zero bytes.
pub proof fn law_base58_same_number(bytes: Seq<u8>)
    ensures
        numeral::value(text_digits(utf8::encode_utf8(base58_text(bytes))), 58) == numeral::value(
            byte_digits(bytes),
            256,
        ),
        numeral::leading_zeros(text_digits(utf8::encode_utf8(base58_text(bytes))))
            == numeral::leading_zeros(byte_digits(bytes)),
{
    let digits = byte_digits(bytes);
    lemma_text_digits(bytes);
    numeral::lemma_value_nonnegative(digits, 256);
    let number = numeral::value(digits, 256);
    let zeros = numeral::leading_zeros(digits);
    numeral::lemma_digits_of(number, 58);
    numeral::lemma_value_zeros(zeros, numeral::digits_of(number, 58), 58);
    numeral::lemma_leading_zeros_of_zeros(zeros, numeral::digits_of(number, 58));
}

/// The bytes before the first one that is not in the alphabet are in it.
proof fn lemma_valid_prefix(text: Seq<u8>)
    ensures
        valid_prefix(text) <= text.len(),
        forall|i: int| 0 <= i < valid_prefix(text) ==> char_digit(#[trigger] text[i]) is Some,
        valid_prefix(text) < text.len() ==> char_digit(text[valid_prefix(text) as int]) is None,
    decreases text.len(),
{
    if text.len() > 0 && char_digit(text[0]) is Some {
        let rest = text.drop_first();
        lemma_valid_prefix(rest);
        assert forall|i: int| 0 <= i < valid_prefix(text) implies char_digit(
            #[trigger] text[i],
        ) is Some by {
            if i > 0 {
                assert(rest[i - 1] == text[i]);
            }
        }
    }
}

/// Text is read as some bytes only if it is the Base58 text of the bytes, and they are not too many.
pub proof fn law_base58_decode_came_from(text: Seq<u8>, capacity: nat)
    ensures
        base58_decode(text, capacity) matches Ok(bytes) ==> bytes.len() <= capacity && text
            == utf8::encode_utf8(base58_text(bytes)),
{
    if let Ok(bytes) = base58_decode(text, capacity) {
        lemma_valid_prefix(text);
        let digits = text_digits(text);
        assert forall|i: int| 0 <= i < digits.len() implies 0 <= #[trigger] digits[i] < 58 by {
            assert(char_digit(text[i]) is Some);
        }
        let written = numeral::rebase(digits, 58, 256);
        numeral::lemma_rebase_in_base(digits, 58, 256);
        assert(byte_digits(bytes) =~= written);
        numeral::lemma_rebase_round_trip(digits, 58, 256);
        lemma_text_digits(bytes);
        let back = utf8::encode_utf8(base58_text(bytes));
        assert(base58_text(bytes).len() == text.len());
        assert forall|i: int| 0 <= i < text.len() implies back[i] == text[i] by {
            assert(char_digit(text[i]) == Some(digits[i]));
            assert(base58_text(bytes)[i] == digit_char(digits[i]));
            law_char_digit(text[i]);
        }
        assert(back =~= text);
    }
}

/// A character is reported as invalid only if it is the first one outside the alphabet: as one that
/// is not ASCII if its byte is above 127, and by itself if not.
pub proof fn law_base58_errors(text: Seq<u8>, capacity: nat)
    requires
        text.len() <= usize::MAX,
    ensures
        base58_decode(text, capacity) matches Err(Base58Error::InvalidCharacter { character, index })
            ==> {
            &&& index < text.len()
            &&& text[index as int] <= 127
            &&& character == text[index as int] as char
            &&& char_digit(text[index as int]) is None
            &&& forall|i: int| 0 <= i < index ==> char_digit(#[trigger] text[i]) is Some
        },
        base58_decode(text, capacity) matches Err(Base58Error::NonAsciiCharacter { index }) ==> {
            &&& index < text.len()
            &&& text[index as int] > 127
            &&& forall|i: int| 0 <= i < index ==> char_digit(#[trigger] text[i]) is Some
        },
        base58_decode(text, capacity) is Ok ==> forall|i: int|
            0 <= i < text.len() ==> char_digit(#[trigger] text[i]) is Some,
{
    lemma_valid_prefix(text);
}

/// Bytes and characters are read as digits one by one.
pub proof fn law_digits(bytes: Seq<u8>)
    ensures
        byte_digits(bytes).len() == bytes.len() == text_digits(bytes).len(),
        forall|i: int| 0 <= i < bytes.len() ==> #[trigger] byte_digits(bytes)[i] == bytes[i],
        forall|i: int|
            0 <= i < bytes.len() ==> #[trigger] text_digits(bytes)[i] == char_digit(
                bytes[i],
            ).unwrap(),
{
}

} // verus!
