//! Hexadecimal text for hashes and keys: lower case, two characters a byte.

use crate::error::ResolveError;
use hex::FromHex;
use vstd::prelude::*;

verus! {

/// The byte of the character `0`.
pub const DIGIT_ZERO: u8 = 48;

/// The byte of the character `9`.
pub const DIGIT_NINE: u8 = 57;

const LOWER_A: u8 = 97;

const LOWER_F: u8 = 102;

const UPPER_A: u8 = 65;

const UPPER_F: u8 = 70;

/// The character that stands for a value below sixteen: `0` to `9` for the
/// first ten, `a` to `f` for the rest.
pub open spec fn hex_digit(n: int) -> char {
    if 0 <= n < 10 {
        (('0' as int + n) as u8) as char
    } else {
        (('a' as int + n - 10) as u8) as char
    }
}

/// Whether `c` is one of `0-9`, `a-f`, `A-F`.
pub open spec fn is_hex_char(c: char) -> bool {
    ('0' <= c <= '9') || ('a' <= c <= 'f') || ('A' <= c <= 'F')
}

/// The value of a hexadecimal character, either case.
pub open spec fn hex_value(c: char) -> int {
    if '0' <= c <= '9' {
        c as int - '0' as int
    } else if 'a' <= c <= 'f' {
        c as int - 'a' as int + 10
    } else {
        c as int - 'A' as int + 10
    }
}

/// The text of `bytes`: for each byte its high half, then its low half.
pub open spec fn hex_lower(bytes: Seq<u8>) -> Seq<char> {
    Seq::new(
        2 * bytes.len(),
        |i: int|
            if i % 2 == 0 {
                hex_digit(bytes[i / 2] as int / 16)
            } else {
                hex_digit(bytes[i / 2] as int % 16)
            },
    )
}

/// The bytes that an even run of hexadecimal characters stands for.
pub open spec fn hex_bytes(text: Seq<char>) -> Seq<u8> {
    Seq::new(
        text.len() / 2,
        |i: int| (16 * hex_value(text[2 * i]) + hex_value(text[2 * i + 1])) as u8,
    )
}

/// Whether `text` names a hash: 64 hexadecimal characters, no more, no less.
pub open spec fn is_hash_token(text: Seq<char>) -> bool {
    &&& text.len() == 64
    &&& forall|i: int| 0 <= i < text.len() ==> is_hex_char(#[trigger] text[i])
}

/// `hex::FromHexError`, carried from the decoder to the place that maps it.
#[verifier::external_type_specification]
#[verifier::external_body]
pub struct ExFromHexError(hex::FromHexError);

/// `hex::encode`: the lower-case text of `data`, two characters for each byte,
/// the high half first. Believed of the crate, not proved here.
#[verifier::external_body]
pub(crate) fn hex_encode(data: &[u8]) -> (text: String)
    ensures
        text@ == hex_lower(data@),
{
    hex::encode(data)
}

/// `hex::FromHex::from_hex` for 32-byte arrays: succeeds on exactly the texts
/// of 64 hexadecimal characters, either case, and gives the bytes they stand
/// for. Believed of the crate, not proved here.
#[verifier::external_body]
pub(crate) fn hex_decode_32(token: &str) -> (r: Result<[u8; 32], hex::FromHexError>)
    ensures
        r is Ok <==> is_hash_token(token@),
        r matches Ok(bytes) ==> bytes@ == hex_bytes(token@),
{
    <[u8; 32]>::from_hex(token)
}

fn is_hex_byte(b: u8) -> (ok: bool)
    ensures
        ok == is_hex_char(b as char),
{
    (DIGIT_ZERO <= b && b <= DIGIT_NINE) || (LOWER_A <= b && b <= LOWER_F) || (UPPER_A <= b && b
        <= UPPER_F)
}

/// Whether `token` is 64 hexadecimal characters.
pub fn check_hash_token(token: &str) -> (ok: bool)
    ensures
        ok == is_hash_token(token@),
{
    if !token.is_ascii() {
        assert(!is_hash_token(token@)) by {
            if is_hash_token(token@) {
                assert forall|i: int| 0 <= i < token@.len() implies '\0' <= #[trigger] token@[i]
                    <= '\u{7f}' by {
                    assert(is_hex_char(token@[i]));
                }
            }
        }
        return false;
    }
    let bytes = token.as_bytes();
    proof {
        vstd::string::is_ascii_spec_bytes(token);
    }
    if bytes.len() != 64 {
        return false;
    }
    let mut i: usize = 0;
    while i < 64
        invariant
            i <= 64,
            bytes@.len() == 64,
            token@.len() == 64,
            vstd::utf8::is_ascii_chars(token@),
            forall|k: int| 0 <= k < 64 ==> #[trigger] bytes@[k] == token@[k] as u8,
            forall|k: int| 0 <= k < i ==> is_hex_char(#[trigger] token@[k]),
        decreases 64 - i,
    {
        let b = bytes[i];
        assert(b == token@[i as int] as u8);
        assert('\0' <= token@[i as int] <= '\u{7f}');
        assert(b as char == token@[i as int]);
        if !is_hex_byte(b) {
            return false;
        }
        i += 1;
    }
    true
}

/// Reads a transaction hash from its text.
///
/// A text of any other length, or with a character that is no hexadecimal
/// digit, is refused before anything else is done with it.
pub fn parse_tx_hash(token: &str) -> (r: Result<[u8; 32], ResolveError>)
    ensures
        r is Ok <==> is_hash_token(token@),
        r matches Ok(hash) ==> hash@ == hex_bytes(token@),
        r matches Err(e) ==> e == ResolveError::InvalidTxHash,
{
    if !check_hash_token(token) {
        return Err(ResolveError::InvalidTxHash);
    }
    match hex_decode_32(token) {
        Ok(hash) => Ok(hash),
        Err(_) => Err(ResolveError::InvalidTxHash),
    }
}

/// A digit read back gives the value it was written for.
pub proof fn lemma_digit_value(n: int)
    requires
        0 <= n < 16,
    ensures
        is_hex_char(hex_digit(n)),
        hex_value(hex_digit(n)) == n,
{
}

/// The text of 32 bytes is a hash token, and reading it gives the bytes back.
pub proof fn lemma_hex_round_trip(bytes: Seq<u8>)
    requires
        bytes.len() == 32,
    ensures
        is_hash_token(hex_lower(bytes)),
        hex_bytes(hex_lower(bytes)) == bytes,
{
    let text = hex_lower(bytes);
    assert forall|i: int| 0 <= i < text.len() implies is_hex_char(#[trigger] text[i]) by {
        lemma_digit_value(bytes[i / 2] as int / 16);
        lemma_digit_value(bytes[i / 2] as int % 16);
    }
    assert forall|i: int| 0 <= i < 32 implies hex_bytes(text)[i] == bytes[i] by {
        lemma_digit_value(bytes[i] as int / 16);
        lemma_digit_value(bytes[i] as int % 16);
        assert((2 * i) / 2 == i && (2 * i) % 2 == 0);
        assert((2 * i + 1) / 2 == i && (2 * i + 1) % 2 == 1);
    }
    assert(hex_bytes(text) =~= bytes);
}

} // verus!
