use vstd::prelude::*;
use vstd::string::StringSliceAdditionalSpecFns;
use vstd::utf8::{decode_utf8, valid_utf8};
use crate::error::Circle9Error;

verus! {

/// The standard-alphabet, padded base64 text of `bytes`.
pub uninterp spec fn base64_of(bytes: Seq<u8>) -> Seq<char>;

/// The bytes that the standard-alphabet base64 text `text` encodes, if it is
/// valid base64.
pub uninterp spec fn base64_decoded(text: Seq<u8>) -> Option<Seq<u8>>;

#[verifier::external_type_specification]
#[verifier::external_body]
pub struct ExDecodeError(base64::DecodeError);

/// Relies on base64::encode: the standard-alphabet, padded encoding of `bytes`.
#[verifier::external_body]
fn encode_base64(bytes: &[u8]) -> (r: String)
    ensures
        r@ == base64_of(bytes@),
{
    base64::encode(bytes)
}

/// Relies on base64::decode: the bytes that `text` encodes in the standard
/// alphabet, or an error for text that is not valid base64.
#[verifier::external_body]
fn decode_base64(text: &[u8]) -> (r: Result<Vec<u8>, base64::DecodeError>)
    ensures
        r is Ok <==> base64_decoded(text@) is Some,
        r is Ok ==> r->Ok_0@ == base64_decoded(text@)->Some_0,
{
    base64::decode(text)
}

/// Relies on String::from_utf8: a string exactly when `bytes` are valid
/// UTF-8, holding the characters they encode.
#[verifier::external_body]
fn utf8_string(bytes: Vec<u8>) -> (r: Option<String>)
    ensures
        r is Some <==> valid_utf8(bytes@),
        r is Some ==> r->Some_0@ == decode_utf8(bytes@),
{
    String::from_utf8(bytes).ok()
}

/// The file that holds the password of `username` for `service`.
pub open spec fn key_file_of(service: Seq<char>, username: Seq<char>) -> Seq<char> {
    "secure/"@ + service + "_"@ + username + ".key"@
}

/// Storage of passwords for remote sessions. The library encodes and names
/// what is stored; the caller reads and writes the files.
pub struct SecureStorage;

impl SecureStorage {
    /// The path of the file that holds the password of `username` for
    /// `service`.
    pub fn key_file_path(service: &str, username: &str) -> (r: String)
        ensures
            r@ == key_file_of(service@, username@),
    {
        let mut s = String::from_str("secure/");
        s.append(service);
        s.append("_");
        s.append(username);
        s.append(".key");
        s
    }

    /// The stored form of a password: the base64 text of its UTF-8 bytes.
    pub fn encode_password(password: &str) -> (r: String)
        ensures
            r@ == base64_of(password.spec_bytes()),
    {
        encode_base64(password.as_bytes())
    }

    /// The password whose stored form is `encoded`. Fails with `InvalidPath`
    /// when `encoded` is not base64 or does not decode to UTF-8 text.
    pub fn decode_password(encoded: &str) -> (r: Result<String, Circle9Error>)
        ensures
            r is Ok <==> base64_decoded(encoded.spec_bytes()) is Some && valid_utf8(
                base64_decoded(encoded.spec_bytes())->Some_0,
            ),
            r is Ok ==> r->Ok_0@ == decode_utf8(base64_decoded(encoded.spec_bytes())->Some_0),
            r is Err ==> r->Err_0 is InvalidPath,
    {
        let bytes = match decode_base64(encoded.as_bytes()) {
            Ok(b) => b,
            Err(_) => {
                return Err(Circle9Error::InvalidPath(String::from_str("Failed to decode password")));
            },
        };
        match utf8_string(bytes) {
            Some(s) => Ok(s),
            None => Err(Circle9Error::InvalidPath(String::from_str("Invalid UTF-8 in password"))),
        }
    }
}

} // verus!
