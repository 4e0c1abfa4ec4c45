//! Canonical digests.

use vstd::prelude::*;
use vstd::string::*;

use crate::json::{canonical_bytes, Json, JsonModel};
use crate::text::{is_digest, is_lower_hex, joined, text_of};

verus! {

/// The SHA-256 hash of some bytes.
pub uninterp spec fn sha256_of(bytes: Seq<u8>) -> Seq<u8>;

/// The lowercase hexadecimal digit of a number below sixteen.
pub open spec fn hex_digit(n: nat) -> char {
    if n < 10 {
        (48 + n) as char
    } else {
        (87 + n) as char
    }
}

/// Two hexadecimal digits for each byte.
pub open spec fn hex(bytes: Seq<u8>) -> Seq<char>
    decreases bytes.len(),
{
    if bytes.len() == 0 {
        Seq::empty()
    } else {
        hex(bytes.drop_last()).push(hex_digit((bytes.last() / 16) as nat)).push(
            hex_digit((bytes.last() % 16) as nat),
        )
    }
}

/// The digest of some bytes.
pub open spec fn digest_of(bytes: Seq<u8>) -> Seq<char> {
    "sha256:"@ + hex(sha256_of(bytes))
}

/// The digest of a JSON value: that of its canonical bytes.
pub open spec fn json_digest(j: JsonModel) -> Seq<char> {
    digest_of(canonical_bytes(j))
}

/// The SHA-256 hash of some bytes. Claims that what `sha2::Sha256::digest`
/// returns has thirty-two bytes and depends on the bytes alone.
#[verifier::external_body]
fn sha256(bytes: &[u8]) -> (r: Vec<u8>)
    ensures
        r@ == sha256_of(bytes@),
        r@.len() == 32,
{
    <sha2::Sha256 as sha2::Digest>::digest(bytes).to_vec()
}

fn digit_char(n: u8) -> (c: char)
    requires
        n < 16,
    ensures
        c == hex_digit(n as nat),
        is_lower_hex(c),
{
    if n < 10 {
        (48u8 + n) as char
    } else {
        (87u8 + n) as char
    }
}

/// The digest of some bytes.
pub fn hash_bytes(bytes: &[u8]) -> (r: String)
    ensures
        r@ == digest_of(bytes@),
        is_digest(r@),
{
    let hash = sha256(bytes);
    let mut v: Vec<char> = Vec::new();
    let mut i: usize = 0;
    assert(hash@.take(0).len() == 0);
    while i < hash.len()
        invariant
            i <= hash.len() == 32,
            v@.len() == 2 * i,
            v@ == hex(hash@.take(i as int)),
            forall|k: int| 0 <= k < v@.len() ==> is_lower_hex(#[trigger] v@[k]),
        decreases hash.len() - i,
    {
        let b: u8 = hash[i];
        v.push(digit_char(b / 16));
        v.push(digit_char(b % 16));
        assert(hash@.take(i + 1).drop_last() =~= hash@.take(i as int));
        i = i + 1;
    }
    assert(hash@.take(32) =~= hash@);
    let digits = text_of(v.as_slice());
    let r = joined("sha256:", digits.as_str());
    proof {
        reveal_strlit("sha256:");
        assert(r@.take(7) =~= "sha256:"@);
        assert(r@.skip(7) =~= digits@);
    }
    r
}

/// The digest of a JSON value.
pub fn hash(value: &Json) -> (r: String)
    ensures
        r@ == json_digest(value.deep_view()),
        is_digest(r@),
{
    hash_bytes(value.bytes().as_slice())
}

} // verus!
