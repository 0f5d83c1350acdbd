//! Pieces of the text forms of contracts and contract code.

use vstd::prelude::*;
use vstd::string::*;
use crate::base58;
use crate::digest::CONTRACT_KEY_SIZE;

verus! {

/// Specifies `String::push` of the standard library: it appends the character to the string.
pub assume_specification[ String::push ](s: &mut String, c: char)
    ensures
        final(s)@ == old(s)@.push(c),
;

/// Each byte as the character of the same number.
pub open spec fn latin1(data: Seq<u8>) -> Seq<char> {
    data.map_values(|b: u8| b as char)
}

/// How the bytes of some code are shown: one character for each, and, where there are more than
/// eight, three dots after the first four.
pub open spec fn data_text(data: Seq<u8>) -> Seq<char> {
    if data.len() > 8 {
        latin1(data.take(4)) + "..."@ + latin1(data.skip(4))
    } else {
        latin1(data)
    }
}

/// How a key is shown: the first eight characters of its Base58 text.
pub open spec fn key_text(key: Seq<u8>) -> Seq<char> {
    base58::base58_text(key).take(8)
}

/// Appends `data[from..to]` to `out`, one character for each byte.
fn push_latin1(out: &mut String, data: &[u8], from: usize, to: usize)
    requires
        from <= to <= data@.len(),
    ensures
        final(out)@ == old(out)@ + latin1(data@.subrange(from as int, to as int)),
{
    let mut i: usize = from;
    while i < to
        invariant
            from <= i <= to <= data@.len(),
            out@ =~= old(out)@ + latin1(data@.subrange(from as int, i as int)),
        decreases to - i,
    {
        out.push(data[i] as char);
        i += 1;
    }
}

/// Appends the text form of the bytes of some code.
pub(crate) fn push_data(out: &mut String, data: &[u8])
    ensures
        final(out)@ == old(out)@ + data_text(data@),
{
    if data.len() > 8 {
        push_latin1(out, data, 0, 4);
        out.append("...");
        push_latin1(out, data, 4, data.len());
        assert(data@.take(4) =~= data@.subrange(0, 4));
        assert(data@.skip(4) =~= data@.subrange(4, data@.len() as int));
        assert(out@ =~= old(out)@ + data_text(data@));
    } else {
        push_latin1(out, data, 0, data.len());
        assert(data@ =~= data@.subrange(0, data@.len() as int));
    }
}

/// Appends the text form of a key.
pub(crate) fn internal_fmt_key(out: &mut String, key: &[u8; CONTRACT_KEY_SIZE])
    ensures
        final(out)@ == old(out)@ + key_text(key@),
{
    let text = base58::encode(key.as_slice());
    proof {
        base58::lemma_base58_len(key@);
        assert(text@.subrange(0, 8) =~= key_text(key@));
    }
    out.append(text.as_str().substring_ascii(0, 8));
}

/// The text form of a key has eight characters.
pub proof fn law_key_text_len(key: Seq<u8>)
    requires
        key.len() == CONTRACT_KEY_SIZE,
    ensures
        key_text(key).len() == 8,
{
    base58::lemma_base58_len(key);
}

/// Up to eight bytes are shown as they are, one character for each. Of more, the first four come
/// first, three dots follow, and then all of the others.
pub proof fn law_data_text(data: Seq<u8>)
    ensures
        data.len() <= 8 ==> data_text(data).len() == data.len(),
        data.len() <= 8 ==> forall|i: int|
            0 <= i < data.len() ==> #[trigger] data_text(data)[i] == data[i] as char,
        data.len() > 8 ==> data_text(data).len() == data.len() + 3,
        data.len() > 8 ==> forall|i: int|
            0 <= i < data.len() + 3 ==> #[trigger] data_text(data)[i] == if i < 4 {
                data[i] as char
            } else if i < 7 {
                '.'
            } else {
                data[i - 3] as char
            },
{
    reveal_strlit("...");
}

/// A key is shown as the beginning of its Base58 text.
pub proof fn law_key_text_prefix(key: Seq<u8>)
    requires
        key.len() == CONTRACT_KEY_SIZE,
    ensures
        key_text(key).len() == 8,
        forall|i: int| 0 <= i < 8 ==> #[trigger] key_text(key)[i] == base58::base58_text(key)[i],
{
    base58::lemma_base58_len(key);
}

} // verus!
