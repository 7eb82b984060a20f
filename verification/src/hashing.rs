//! Digests, hex text and secp256k1 keys, taken from the outside crates
//! `md4`, `sha2`, `sha3`, `hex` and `secp256k1`.
use md4::Md4;
use rand::rngs::OsRng;
use secp256k1::{PublicKey, Secp256k1, SecretKey};
use sha2::{Digest, Sha256};
use sha3::Keccak256;
use vstd::prelude::*;

use crate::text::{hex_bytes, hex_lower, is_hex_digit, utf8_len};

verus! {

/// The MD4 digest of a byte string.
pub uninterp spec fn md4_digest(data: Seq<u8>) -> Seq<u8>;

/// The SHA-256 digest of a byte string.
pub uninterp spec fn sha256_digest(data: Seq<u8>) -> Seq<u8>;

/// The Keccak-256 digest of a byte string (the pre-standard SHA-3 variant
/// that Ethereum uses).
pub uninterp spec fn keccak256_digest(data: Seq<u8>) -> Seq<u8>;

/// The 65-byte uncompressed serialization of the secp256k1 public key of a
/// valid secret key.
pub uninterp spec fn secp256k1_public_key(secret: Seq<u8>) -> Seq<u8>;

/// `md4::Md4::digest`: the contract claims that the result is the MD4 digest
/// of the input, 16 bytes long (`OutputSize = U16` in the crate).
#[verifier::external_body]
pub(crate) fn md4(data: &[u8]) -> (res: Vec<u8>)
    ensures
        res@ == md4_digest(data@),
        res@.len() == 16,
{
    Md4::digest(data).to_vec()
}

/// `sha2::Sha256::digest`: the contract claims that the result is the SHA-256
/// digest of the input, 32 bytes long.
#[verifier::external_body]
pub(crate) fn sha256(data: &[u8]) -> (res: Vec<u8>)
    ensures
        res@ == sha256_digest(data@),
        res@.len() == 32,
{
    Sha256::digest(data).to_vec()
}

/// `sha3::Keccak256::digest`: the contract claims that the result is the
/// Keccak-256 digest of the input, 32 bytes long.
#[verifier::external_body]
pub(crate) fn keccak256(data: &[u8]) -> (res: Vec<u8>)
    ensures
        res@ == keccak256_digest(data@),
        res@.len() == 32,
{
    Keccak256::digest(data).to_vec()
}

/// `hex::encode`: the contract claims two lowercase hex digits per byte, most
/// significant nibble first (the crate encodes with the table
/// `0123456789abcdef`).
#[verifier::external_body]
pub(crate) fn hex_encode(data: &[u8]) -> (res: String)
    ensures
        res@ == hex_lower(data@),
{
    hex::encode(data)
}

/// `hex::decode` of a string's bytes: the contract claims success exactly
/// when the text is an even number of ASCII hex digits of either case (the
/// crate rejects an odd byte length, then any byte outside `0-9a-fA-F`; a
/// non-ASCII character is such a byte), and then the decoded bytes; for an
/// odd byte length the error's text is `Odd number of digits`. The text of
/// the error for a bad character (`Invalid character {c:?} at position
/// {index}`, over the byte and its byte index) is left unsaid.
#[verifier::external_body]
pub(crate) fn hex_decode(s: &str) -> (res: Result<Vec<u8>, String>)
    ensures
        res is Ok <==> (s@.len() % 2 == 0 && forall|i: int| 0 <= i < s@.len() ==> is_hex_digit(#[trigger] s@[i])),
        res matches Ok(v) ==> v@ == hex_bytes(s@),
        utf8_len(s@) % 2 == 1 ==> res is Err,
        res matches Err(m) ==> (utf8_len(s@) % 2 == 1 ==> m@ == "Odd number of digits"@),
{
    hex::decode(s).map_err(|e| e.to_string())
}

/// The secp256k1 group order, the bound on secret keys.
pub open spec fn curve_order() -> nat {
    0xFFFF_FFFF_FFFF_FFFF_FFFF_FFFF_FFFF_FFFE_BAAE_DCE6_AF48_A03B_BFD2_5E8C_D036_4141nat
}

/// Big-endian value of a byte string.
pub open spec fn be_value(b: Seq<u8>) -> nat
    decreases b.len(),
{
    if b.len() == 0 {
        0
    } else {
        be_value(b.drop_last()) * 256 + b.last() as nat
    }
}

/// What `secp256k1_ec_seckey_verify` accepts: 32 bytes whose big-endian
/// value is neither 0 nor at least the group order.
pub open spec fn valid_secret_key(b: Seq<u8>) -> bool {
    b.len() == 32 && 0 < be_value(b) < curve_order()
}

/// `secp256k1::SecretKey::from_slice`, then `PublicKey::from_secret_key` and
/// `PublicKey::serialize_uncompressed`: the contract claims that a key comes
/// back exactly when `from_slice` accepts the bytes (32 bytes, checked by
/// `secp256k1_ec_seckey_verify`), and then that it is the 65-byte public key
/// named by `secp256k1_public_key`; otherwise the error is
/// `Error::InvalidSecretKey`, whose `Display` text the contract gives.
#[verifier::external_body]
pub(crate) fn public_key_of_secret(secret: &[u8]) -> (res: Result<Vec<u8>, String>)
    ensures
        res is Ok <==> valid_secret_key(secret@),
        res matches Ok(pk) ==> pk@ == secp256k1_public_key(secret@) && pk@.len() == 65,
        res matches Err(m) ==> m@ == "malformed or out-of-range secret key"@,
{
    let secp = Secp256k1::new();
    match SecretKey::from_slice(secret) {
        Ok(sk) => Ok(PublicKey::from_secret_key(&secp, &sk).serialize_uncompressed().to_vec()),
        Err(e) => Err(e.to_string()),
    }
}

/// `secp256k1::SecretKey::new` with the operating system's random source
/// (`rand::rngs::OsRng`): the contract claims only what holds of every
/// outcome, a 32-byte key that `secp256k1_ec_seckey_verify` accepts (the
/// crate draws again until it does). Which key comes back is left unsaid.
#[verifier::external_body]
pub(crate) fn random_secret_key() -> (res: Vec<u8>)
    ensures
        valid_secret_key(res@),
{
    SecretKey::new(&mut OsRng).secret_bytes().to_vec()
}

} // verus!
