//! Hex text of keys, addresses and signed transactions.
use vstd::prelude::*;
use crate::chars::push_chars;
use crate::chars::chars_of;

verus! {

/// The value of a hex digit, either case; `None` for any other character.
pub open spec fn hex_digit_value(c: char) -> Option<nat> {
    if '0' <= c && c <= '9' {
        Some((c as nat - '0' as nat) as nat)
    } else if 'a' <= c && c <= 'f' {
        Some((c as nat - 'a' as nat + 10) as nat)
    } else if 'A' <= c && c <= 'F' {
        Some((c as nat - 'A' as nat + 10) as nat)
    } else {
        None
    }
}

/// Whether `s` is hex text: an even number of hex digits (either case).
pub open spec fn is_hex_text(s: Seq<char>) -> bool {
    &&& s.len() % 2 == 0
    &&& forall|i: int| 0 <= i < s.len() ==> #[trigger] hex_digit_value(s[i]) is Some
}

/// The bytes that the hex text `s` spells, two digits per byte, high digit first.
pub open spec fn hex_bytes(s: Seq<char>) -> Seq<u8> {
    Seq::new(
        s.len() / 2,
        |i: int|
            (hex_digit_value(s[2 * i])->Some_0 * 16 + hex_digit_value(s[2 * i + 1])->Some_0) as u8,
    )
}

/// The lowercase hex digit for `d < 16`.
pub open spec fn lower_hex_digit(d: nat) -> char {
    if d < 10 {
        (d + '0' as nat) as char
    } else {
        (d - 10 + 'a' as nat) as char
    }
}

/// The lowercase hex text of `bytes`, two digits per byte, high digit first.
pub open spec fn lower_hex(bytes: Seq<u8>) -> Seq<char> {
    Seq::new(
        2 * bytes.len(),
        |i: int|
            if i % 2 == 0 {
                lower_hex_digit((bytes[i / 2] / 16) as nat)
            } else {
                lower_hex_digit((bytes[i / 2] % 16) as nat)
            },
    )
}

/// The bytes of hex text (the `hex` crate's `hex::decode`): both cases are
/// accepted; an odd length or any other character is refused (the crate's
/// error is dropped, as every caller reports it the same way).
#[verifier::external_body]
fn hex_decode(text: &str) -> (r: Option<Vec<u8>>)
    ensures
        r is Some <==> is_hex_text(text@),
        r matches Some(v) ==> v@ == hex_bytes(text@),
{
    hex::decode(text).ok()
}

/// The lowercase hex text of `bytes` (the `hex` crate's `hex::encode`).
#[verifier::external_body]
fn hex_encode(bytes: &[u8]) -> (r: String)
    ensures
        r@ == lower_hex(bytes@),
{
    hex::encode(bytes)
}

/// Why hex text is not a key or an address.
#[derive(Clone, Copy, Debug, PartialEq, Eq, Structural)]
pub enum KeyError {
    /// No text was given (`missing secret key hex`).
    Missing,
    /// The text is not hex (`invalid ... hex`).
    InvalidHex,
    /// The bytes are not as many as the key or address has (`... has invalid length`).
    InvalidLength,
}

/// Reading `len` bytes of a key or an address from hex text.
pub open spec fn key_bytes(text: Seq<char>, len: nat) -> Result<Seq<u8>, KeyError> {
    if !is_hex_text(text) {
        Err(KeyError::InvalidHex)
    } else if hex_bytes(text).len() != len {
        Err(KeyError::InvalidLength)
    } else {
        Ok(hex_bytes(text))
    }
}

/// The bytes of a secret key of `len` bytes given as hex; see `key_bytes`.
pub fn parse_secret_key(value: Option<&String>, len: usize) -> (r: Result<Vec<u8>, KeyError>)
    ensures
        value is None ==> r == Err::<Vec<u8>, KeyError>(KeyError::Missing),
        value matches Some(v) ==> match key_bytes(v@, len as nat) {
            Ok(b) => r matches Ok(k) && k@ == b,
            Err(e) => r == Err::<Vec<u8>, KeyError>(e),
        },
{
    match value {
        None => Err(KeyError::Missing),
        Some(v) => parse_address_hex(v.as_str(), len),
    }
}

/// The bytes of an address of `len` bytes given as hex; see `key_bytes`.
pub fn parse_address_hex(value: &str, len: usize) -> (r: Result<Vec<u8>, KeyError>)
    ensures
        match key_bytes(value@, len as nat) {
            Ok(b) => r matches Ok(k) && k@ == b,
            Err(e) => r == Err::<Vec<u8>, KeyError>(e),
        },
{
    match hex_decode(value) {
        None => Err(KeyError::InvalidHex),
        Some(bytes) => if bytes.len() != len {
            Err(KeyError::InvalidLength)
        } else {
            Ok(bytes)
        },
    }
}

/// The lowercase hex text of a signed transaction's bytes.
pub fn signed_transaction_to_hex(bytes: &[u8]) -> (r: String)
    ensures
        r@ == lower_hex(bytes@),
{
    hex_encode(bytes)
}

/// The body that submits a signed transaction to the node: `{"tx":"<hex>"}`.
pub fn tx_request_body(bytes: &[u8]) -> (r: String)
    ensures
        r@ == "{\"tx\":\""@ + lower_hex(bytes@) + "\"}"@,
{
    let hex = hex_encode(bytes);
    let mut body = "{\"tx\":\"".to_owned();
    push_chars(&mut body, &chars_of(hex.as_str()));
    push_chars(&mut body, &chars_of("\"}"));
    body
}

/// Whether `text` is the hex text of `public_key`, as a wallet file must
/// hold it (lowercase).
pub fn public_key_matches(public_key: &[u8], text: &str) -> (r: bool)
    ensures
        r == (lower_hex(public_key@) == text@),
{
    let hex = hex_encode(public_key);
    crate::chars::str_eq(hex.as_str(), text)
}

} // verus!
