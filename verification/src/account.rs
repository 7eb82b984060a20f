//! Ethereum accounts: addresses derived from secp256k1 keys.
use vstd::prelude::*;

use crate::hashing::{
    hex_decode, hex_encode, keccak256, keccak256_digest, public_key_of_secret, random_secret_key,
    secp256k1_public_key, valid_secret_key,
};
use crate::text::{
    is_lower_hex_text, utf8_len, chars_of, hex_bytes, hex_lower, is_hex_digit, lemma_hex_lower_shape, is_lower_hex_digit, lit,
    push_all, slice_chars, starts_with, starts_with_chars, string_from_chars, digit_char,
    digit_value,
};

verus! {

/// An account: its address and hex private key.
#[derive(Debug)]
pub struct EthAccount {
    pub address: String,
    pub private_key: String,
}

/// A message with its signature.
#[derive(Debug)]
pub struct EthSignedMessage {
    pub message: String,
    pub signature: String,
}

/// An address with its balance as text.
#[derive(Debug)]
pub struct AccountInfo {
    pub address: String,
    pub balance: String,
}

/// The address of an uncompressed public key: `0x` and the hex of the last
/// 20 bytes of the Keccak-256 of the key without its leading format byte.
pub open spec fn address_of_public_key(pk: Seq<u8>) -> Seq<char> {
    "0x"@ + hex_lower(keccak256_digest(pk.drop_first()).subrange(12, 32))
}

/// An address as text: `0x` and 40 lowercase hex digits.
pub open spec fn is_address_text(s: Seq<char>) -> bool {
    s.len() == 42 && s.subrange(0, 2) == "0x"@ && is_lower_hex_text(s.subrange(2, 42), 40)
}

/// The hex text of a private key with one leading `0x` removed.
pub open spec fn strip_0x(s: Seq<char>) -> Seq<char> {
    if starts_with(s, "0x"@) {
        s.subrange(2, s.len() as int)
    } else {
        s
    }
}

/// The hex text is an even number of hex digits.
pub open spec fn is_hex_text(s: Seq<char>) -> bool {
    s.len() % 2 == 0 && forall|i: int| 0 <= i < s.len() ==> is_hex_digit(#[trigger] s[i])
}

/// The address of the key written in hex, when it is a valid key.
pub open spec fn account_of_key_text(s: Seq<char>) -> Option<Seq<char>> {
    let t = strip_0x(s);
    if is_hex_text(t) && valid_secret_key(hex_bytes(t)) {
        Some(address_of_public_key(secp256k1_public_key(hex_bytes(t))))
    } else {
        None
    }
}

fn public_key_to_address(public_key: &[u8]) -> (res: String)
    requires
        public_key@.len() == 65,
    ensures
        res@ == address_of_public_key(public_key@),
        is_address_text(res@),
{
    let body = &public_key[1..65];
    assert(body@ == public_key@.drop_first());
    let hash = keccak256(body);
    let tail = &hash.as_slice()[12..32];
    assert(tail@ == keccak256_digest(public_key@.drop_first()).subrange(12, 32));
    let hx = hex_encode(tail);
    let mut out = lit("0x");
    let hc = chars_of(hx.as_str());
    push_all(&mut out, &hc);
    proof {
        reveal_strlit("0x");
        lemma_hex_lower_shape(tail@);
        assert(out@.subrange(0, 2) =~= "0x"@);
        assert(out@.subrange(2, 42) =~= hx@);
    }
    string_from_chars(&out)
}

/// A fresh random account.
pub fn create_new_account() -> (res: Result<EthAccount, String>)
    ensures
        res matches Ok(acc) && exists|secret: Seq<u8>|
            valid_secret_key(secret) && #[trigger] hex_lower(secret) == acc.private_key@
                && acc.address@ == address_of_public_key(secp256k1_public_key(secret)),
        res matches Ok(acc) && is_address_text(acc.address@) && is_lower_hex_text(acc.private_key@, 64),
{
    let secret = random_secret_key();
    let pk = match public_key_of_secret(&secret) {
        Ok(pk) => pk,
        Err(e) => {
            return Err(e);
        },
    };
    let address = public_key_to_address(&pk);
    let private_key = hex_encode(&secret);
    proof {
        lemma_hex_lower_shape(secret@);
    }
    Ok(EthAccount { address, private_key })
}

/// The account of a hex private key, with or without a `0x` prefix.
pub fn get_account_from_private_key(private_key_hex: &str) -> (res: Result<EthAccount, String>)
    ensures
        match account_of_key_text(private_key_hex@) {
            Some(addr) => res matches Ok(acc) && acc.address@ == addr && acc.private_key@ == strip_0x(
                private_key_hex@,
            ) && is_address_text(acc.address@),
            None => res is Err,
        },
        !is_hex_text(strip_0x(private_key_hex@)) ==> (res matches Err(m) && starts_with(m@, "Invalid hex private key: "@)
            && (utf8_len(strip_0x(private_key_hex@)) % 2 == 1 ==> m@ == "Invalid hex private key: Odd number of digits"@)),
        is_hex_text(strip_0x(private_key_hex@)) && !valid_secret_key(hex_bytes(strip_0x(private_key_hex@)))
            ==> (res matches Err(m) && m@ == "Invalid private key: malformed or out-of-range secret key"@),
{
    let s = chars_of(private_key_hex);
    proof {
        reveal_strlit("0x");
    }
    let body = if starts_with_chars(&s, &lit("0x")) {
        slice_chars(&s, 2, s.len())
    } else {
        slice_chars(&s, 0, s.len())
    };
    assert(s@.subrange(0, s@.len() as int) =~= s@);
    let key_text = string_from_chars(&body);
    let bytes = match hex_decode(key_text.as_str()) {
        Ok(b) => b,
        Err(e) => {
            let mut m = lit("Invalid hex private key: ");
            let ec = chars_of(e.as_str());
            push_all(&mut m, &ec);
            proof {
                reveal_strlit("Invalid hex private key: ");
                reveal_strlit("Odd number of digits");
                reveal_strlit("Invalid hex private key: Odd number of digits");
                assert(m@.subrange(0, "Invalid hex private key: "@.len() as int) =~= "Invalid hex private key: "@);
            }
            return Err(string_from_chars(&m));
        },
    };
    let pk = match public_key_of_secret(&bytes) {
        Ok(pk) => pk,
        Err(e) => {
            let mut m = lit("Invalid private key: ");
            let ec = chars_of(e.as_str());
            push_all(&mut m, &ec);
            proof {
                reveal_strlit("Invalid private key: ");
                reveal_strlit("malformed or out-of-range secret key");
                reveal_strlit("Invalid private key: malformed or out-of-range secret key");
                assert(m@ =~= "Invalid private key: malformed or out-of-range secret key"@);
            }
            return Err(string_from_chars(&m));
        },
    };
    let address = public_key_to_address(&pk);
    Ok(EthAccount { address, private_key: key_text })
}

// ---------------------------------------------------------------------------
// Laws
// ---------------------------------------------------------------------------

proof fn lemma_hex_round_trip(b: Seq<u8>)
    ensures
        hex_bytes(hex_lower(b)) == b,
    decreases b.len(),
{
    if b.len() > 0 {
        let h = hex_lower(b);
        let hp = hex_lower(b.drop_last());
        lemma_hex_lower_shape(b.drop_last());
        assert(h.subrange(0, h.len() - 2) =~= hp);
        lemma_hex_round_trip(b.drop_last());
        let x = b.last();
        let hi = (x / 16) as nat;
        let lo = (x % 16) as nat;
        assert(digit_value(digit_char(hi)) == hi) by {
            assert(digit_char(hi) as u32 == if hi < 10 { hi + 48 } else { hi + 87 });
        }
        assert(digit_value(digit_char(lo)) == lo) by {
            assert(digit_char(lo) as u32 == if lo < 10 { lo + 48 } else { lo + 87 });
        }
        assert(h[h.len() - 2] == digit_char(hi));
        assert(h[h.len() - 1] == digit_char(lo));
        assert((hi * 16 + lo) as u8 == x);
        assert(b.drop_last().push(x) =~= b);
    }
}

/// Law: the private key of an account is accepted back, with or without a
/// `0x` prefix, and gives the account's address: the key text that
/// `create_new_account` hands out for a secret recovers that secret's
/// address through `get_account_from_private_key`.
pub proof fn law_private_key_recovers_address(secret: Seq<u8>)
    requires
        valid_secret_key(secret),
    ensures
        account_of_key_text(hex_lower(secret)) == Some(address_of_public_key(secp256k1_public_key(secret))),
        strip_0x(hex_lower(secret)) == hex_lower(secret),
        account_of_key_text("0x"@ + hex_lower(secret)) == Some(address_of_public_key(secp256k1_public_key(secret))),
        strip_0x("0x"@ + hex_lower(secret)) == hex_lower(secret),
{
    reveal_strlit("0x");
    let h = hex_lower(secret);
    lemma_hex_lower_shape(secret);
    lemma_hex_round_trip(secret);
    assert(!starts_with(h, "0x"@)) by {
        if starts_with(h, "0x"@) {
            assert(h[1] == h.subrange(0, 2)[1]);
            assert(is_lower_hex_digit(h[1]));
        }
    }
    assert forall|i: int| 0 <= i < h.len() implies is_hex_digit(#[trigger] h[i]) by {
        assert(is_lower_hex_digit(h[i]));
    }
    let p = "0x"@ + h;
    assert(p.subrange(0, 2) =~= "0x"@);
    assert(p.subrange(2, p.len() as int) =~= h);
}

} // verus!
