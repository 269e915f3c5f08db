//! Base58, BLAKE3 and UTF-8.

use vstd::prelude::*;

verus! {

/// The Base58 text of some bytes, in Bitcoin's alphabet and without a checksum.
pub uninterp spec fn base58_encoded(bytes: Seq<u8>) -> Seq<char>;

/// The bytes that a Base58 text stands for, or what is wrong with the text.
pub uninterp spec fn base58_outcome(text: Seq<char>) -> Result<Seq<u8>, Seq<char>>;

/// The bytes that a Base58 text stands for, if it is one.
pub open spec fn base58_decoded(text: Seq<char>) -> Option<Seq<u8>> {
    match base58_outcome(text) {
        Ok(bytes) => Some(bytes),
        Err(_) => None,
    }
}

/// The BLAKE3 hash of some bytes.
pub uninterp spec fn blake3_digest(bytes: Seq<u8>) -> Seq<u8>;

/// Whether a character is one of Base58's: a digit or a letter, but none of `0`, `O`, `I` and `l`.
pub open spec fn is_base58(c: char) -> bool {
    ||| '1' <= c <= '9'
    ||| 'A' <= c <= 'Z' && c != 'I' && c != 'O'
    ||| 'a' <= c <= 'z' && c != 'l'
}

/// Whether a text is made of Base58's characters.
pub open spec fn base58_text(text: Seq<char>) -> bool {
    forall|i: int| 0 <= i < text.len() ==> is_base58(#[trigger] text[i])
}

/// Whether a text is the Base58 text of some bytes as far as can be told of it: it is made of
/// Base58's characters, decodes to the bytes, and has at least one character for each byte and at
/// most 1.37, rounded up.
pub open spec fn stands_for(text: Seq<char>, bytes: Seq<u8>) -> bool {
    &&& base58_text(text)
    &&& base58_decoded(text) == Some(bytes)
    &&& bytes.len() <= text.len() <= bytes.len() * 137 / 100 + 1
}

/// Calls `bs58::encode` and `into_string`. Claimed is that the text is a function of the bytes,
/// that it is made of the 58 characters and decodes to the bytes again, and that it has the length
/// of a number in base 58: leading zero bytes give a character each, and any other byte adds
/// log 256 / log 58 of one, which is between 1.365 and 1.37.
#[verifier::external_body]
pub(crate) fn base58_encode(bytes: &[u8]) -> (text: String)
    ensures
        text@ == base58_encoded(bytes@),
        stands_for(text@, bytes@),
{
    bs58::encode(bytes).into_string()
}

/// Calls `bs58::decode` and `into_vec`, and takes the text of an error. Claimed is that whether the
/// text decodes, and to what or with which error, is a function of the text, and that a text with
/// any other character does not.
#[verifier::external_body]
pub(crate) fn base58_decode(text: &str) -> (bytes: Result<Vec<u8>, String>)
    ensures
        match bytes {
            Ok(b) => {
                &&& base58_outcome(text@) == Ok::<Seq<u8>, Seq<char>>(b@)
                &&& base58_text(text@)
            },
            Err(cause) => base58_outcome(text@) == Err::<Seq<u8>, Seq<char>>(cause@),
        },
{
    bs58::decode(text).into_vec().map_err(|err| err.to_string())
}

/// Calls `blake3::hash`. Claimed is that the hash is a function of the bytes, and 32 bytes long.
#[verifier::external_body]
pub(crate) fn blake3_hash(bytes: &[u8]) -> (digest: Vec<u8>)
    ensures
        digest@ == blake3_digest(bytes@),
        digest@.len() == 32,
{
    blake3::hash(bytes).as_bytes().to_vec()
}

/// Calls `String::from_utf8`. Claimed is that it accepts exactly the well-formed UTF-8, and that the
/// text it gives has these bytes.
#[verifier::external_body]
pub(crate) fn utf8_text(bytes: Vec<u8>) -> (text: Option<String>)
    ensures
        match text {
            Some(t) => vstd::utf8::valid_utf8(bytes@) && vstd::utf8::encode_utf8(t@) == bytes@,
            None => !vstd::utf8::valid_utf8(bytes@),
        },
{
    String::from_utf8(bytes).ok()
}

/// Whether two byte strings are the same.
pub fn same_bytes(a: &[u8], b: &[u8]) -> (same: bool)
    ensures
        same == (a@ == b@),
{
    if a.len() != b.len() {
        return false;
    }
    let mut i: usize = 0;
    while i < a.len()
        invariant
            i <= a.len(),
            a@.len() == b@.len(),
            forall|j: int| 0 <= j < i ==> a@[j] == b@[j],
        decreases a.len() - i,
    {
        if a[i] != b[i] {
            return false;
        }
        i += 1;
    }
    assert(a@ =~= b@);
    true
}

} // verus!
