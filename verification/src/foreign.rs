//! The calls this library makes into alloy and uuid. Each function here
//! is trusted: its contract is taken as given, not proved. The address
//! parser's result is stated in full; the results of the other parsers are
//! functions of their text argument alone, each named by an uninterpreted
//! spec function that the contracts of the library speak of.

use alloy::signers::local::PrivateKeySigner;
use alloy_primitives::{Address, U256};
use uuid::Uuid;
use vstd::prelude::*;

verus! {

/// What `PrivateKeySigner::from_str` gives for a key text: the 20-byte
/// address of the parsed signer, or the text of the parse error.
pub uninterp spec fn signer_address_of(key: Seq<char>) -> Result<Seq<u8>, Seq<char>>;

/// Whether `c` is a hexadecimal digit of either case.
pub open spec fn is_hex_digit(c: char) -> bool {
    ('0' <= c && c <= '9') || ('a' <= c && c <= 'f') || ('A' <= c && c <= 'F')
}

/// The value of a hexadecimal digit.
pub open spec fn hex_value(c: char) -> int {
    if '0' <= c && c <= '9' {
        (c as int) - ('0' as int)
    } else if 'a' <= c && c <= 'f' {
        (c as int) - ('a' as int) + 10
    } else {
        (c as int) - ('A' as int) + 10
    }
}

/// The digits of an address text: the text after a leading `0x` or `0X`,
/// else the whole text.
pub open spec fn address_digits(text: Seq<char>) -> Seq<char> {
    if text.len() >= 2 && text[0] == '0' && (text[1] == 'x' || text[1] == 'X') {
        text.subrange(2, text.len() as int)
    } else {
        text
    }
}

/// What `Address::from_str` gives for a text: when the text is an optional
/// `0x` or `0X` followed by exactly 40 hexadecimal digits of either case,
/// the 20 bytes they encode, two digits per byte, high digit first; else
/// nothing.
pub open spec fn address_of(text: Seq<char>) -> Option<Seq<u8>> {
    let d = address_digits(text);
    if d.len() == 40 && forall|i: int| 0 <= i < 40 ==> is_hex_digit(#[trigger] d[i]) {
        Some(Seq::new(20, |i: int| (hex_value(d[2 * i]) * 16 + hex_value(d[2 * i + 1])) as u8))
    } else {
        None
    }
}

/// What `Uuid::parse_str` gives for a text: the 16 bytes of the UUID, or
/// the text of the parse error.
pub uninterp spec fn uuid_of(text: Seq<char>) -> Result<Seq<u8>, Seq<char>>;

/// What `U256::from_str` gives for a text: the four 64-bit limbs of the
/// number, least significant first, or the text of the parse error.
pub uninterp spec fn u256_of(text: Seq<char>) -> Result<(u64, u64, u64, u64), Seq<char>>;

/// Parses a private key with alloy's `PrivateKeySigner::from_str` and reads
/// the signer's address with `address()`. The contract claims that the
/// result is `signer_address_of` of the key text, with the error rendered by
/// its `Display`, and that an address has 20 bytes, as alloy's `Address`
/// type holds.
#[verifier::external_body]
pub(crate) fn signer_address(key: &str) -> (r: Result<Vec<u8>, String>)
    ensures
        r is Ok ==> signer_address_of(key@) == Ok::<Seq<u8>, Seq<char>>(r->Ok_0@),
        r is Ok ==> r->Ok_0@.len() == 20,
        r is Err ==> signer_address_of(key@) == Err::<Seq<u8>, Seq<char>>(r->Err_0@),
{
    match <PrivateKeySigner as std::str::FromStr>::from_str(key) {
        Ok(s) => Ok(s.address().to_vec()),
        Err(e) => Err(e.to_string()),
    }
}

/// Parses an address with alloy-primitives' `Address::from_str`, which
/// strips one leading `0x`/`0X` and decodes the rest as hexadecimal into 20
/// bytes. The contract claims that the result is `address_of` of the text.
#[verifier::external_body]
pub(crate) fn parse_address(text: &str) -> (r: Option<Vec<u8>>)
    ensures
        r is Some ==> address_of(text@) == Some(r->0@),
        r is Some ==> r->0@.len() == 20,
        r is None ==> address_of(text@) is None,
{
    match <Address as std::str::FromStr>::from_str(text) {
        Ok(a) => Some(a.to_vec()),
        Err(_) => None,
    }
}

/// Parses a UUID with `Uuid::parse_str`. The contract claims that the
/// result is `uuid_of` of the text, with the error rendered by its
/// `Display`, and that a UUID has 16 bytes.
#[verifier::external_body]
pub(crate) fn parse_uuid(text: &str) -> (r: Result<Vec<u8>, String>)
    ensures
        r is Ok ==> uuid_of(text@) == Ok::<Seq<u8>, Seq<char>>(r->Ok_0@),
        r is Ok ==> r->Ok_0@.len() == 16,
        r is Err ==> uuid_of(text@) == Err::<Seq<u8>, Seq<char>>(r->Err_0@),
{
    match Uuid::parse_str(text) {
        Ok(u) => Ok(u.as_bytes().to_vec()),
        Err(e) => Err(e.to_string()),
    }
}

/// Parses a 256-bit unsigned number with `U256::from_str` (ruint), which
/// takes decimal text or text with a `0x`, `0o` or `0b` prefix. The
/// contract claims that the result is `u256_of` of the text, the number
/// given by its limbs and the error rendered by its `Display`.
#[verifier::external_body]
pub(crate) fn parse_u256(text: &str) -> (r: Result<(u64, u64, u64, u64), String>)
    ensures
        r is Ok ==> u256_of(text@) == Ok::<(u64, u64, u64, u64), Seq<char>>(r->Ok_0),
        r is Err ==> u256_of(text@) == Err::<(u64, u64, u64, u64), Seq<char>>(r->Err_0@),
{
    match <U256 as std::str::FromStr>::from_str(text) {
        Ok(v) => {
            let l = v.as_limbs();
            Ok((l[0], l[1], l[2], l[3]))
        },
        Err(e) => Err(e.to_string()),
    }
}

} // verus!
