//! Hashed identifiers.

use vstd::prelude::*;
use vstd::string::{StringExecFns, StringSliceAdditionalSpecFns};
use crate::text::{decimal, decimal_string};

verus! {

/// The SHA-256 digest of `data`, as `sha2` computes it.
pub uninterp spec fn sha256(data: Seq<u8>) -> Seq<u8>;

/// The lower-case hexadecimal digit of a value below 16.
pub open spec fn hex_digit(d: u8) -> char
    recommends
        d < 16,
{
    if d == 0 {
        '0'
    } else if d == 1 {
        '1'
    } else if d == 2 {
        '2'
    } else if d == 3 {
        '3'
    } else if d == 4 {
        '4'
    } else if d == 5 {
        '5'
    } else if d == 6 {
        '6'
    } else if d == 7 {
        '7'
    } else if d == 8 {
        '8'
    } else if d == 9 {
        '9'
    } else if d == 10 {
        'a'
    } else if d == 11 {
        'b'
    } else if d == 12 {
        'c'
    } else if d == 13 {
        'd'
    } else if d == 14 {
        'e'
    } else {
        'f'
    }
}

/// Two lower-case hexadecimal digits for each byte, the high half first.
pub open spec fn hex_lower(data: Seq<u8>) -> Seq<char> {
    Seq::new(
        2 * data.len(),
        |i: int|
            if i % 2 == 0 {
                hex_digit(data[i / 2] / 16)
            } else {
                hex_digit(data[i / 2] % 16)
            },
    )
}

/// What `hash_string` returns for a text with these UTF-8 bytes.
pub open spec fn hash_hex(bytes: Seq<u8>) -> Seq<char> {
    hex_lower(sha256(bytes))
}

/// The text that `generate_id` hashes.
pub open spec fn id_preimage(prefix: Seq<char>, data: Seq<char>, timestamp: u64) -> Seq<char> {
    prefix + "_"@ + data + "_"@ + decimal(timestamp as nat)
}

/// Calls `Digest::digest` of `sha2::Sha256`, which feeds `data` to a fresh
/// hasher and finalizes it. Trusted: the digest depends on the bytes alone,
/// and the output of that hasher is an array of 32 bytes.
#[verifier::external_body]
fn sha256_digest(data: &[u8]) -> (digest: Vec<u8>)
    ensures
        digest@ == sha256(data@),
        digest@.len() == 32,
{
    <sha2::Sha256 as sha2::Digest>::digest(data).to_vec()
}

/// Calls `hex::encode`. Trusted: two lower-case digits per byte.
#[verifier::external_body]
fn hex_encode(data: &Vec<u8>) -> (text: String)
    ensures
        text@ == hex_lower(data@),
{
    hex::encode(data)
}

/// The SHA-256 digest of `input`, in lower-case hexadecimal.
pub fn hash_string(input: &str) -> (r: String)
    ensures
        r@ == hash_hex(input.spec_bytes()),
        r@.len() == 64,
{
    let digest = sha256_digest(input.as_bytes());
    hex_encode(&digest)
}

/// An identifier for `data` made at `timestamp`: the hash of
/// `prefix_data_timestamp`.
pub fn generate_id(prefix: &str, data: &str, timestamp: u64) -> (r: String)
    ensures
        r@ == hash_hex(vstd::utf8::encode_utf8(id_preimage(prefix@, data@, timestamp))),
        r@.len() == 64,
{
    let mut combined = prefix.to_owned();
    combined.append("_");
    combined.append(data);
    combined.append("_");
    let stamp = decimal_string(timestamp);
    combined.append(stamp.as_str());
    hash_string(combined.as_str())
}

} // verus!
