//! Content hashes of prompts, through the `sha2` crate.
use vstd::prelude::*;

use sha2::Digest;

verus! {

/// The SHA-256 digest of `bytes` as `sha2::Sha256::digest` computes it.
pub uninterp spec fn sha256_of(bytes: Seq<u8>) -> Seq<u8>;

/// Calls `sha2::Sha256::digest` on `bytes` and copies the 32-byte output. The
/// contract names the digest and states its length; SHA-256 itself is not stated.
#[verifier::external_body]
pub(crate) fn sha256_digest(bytes: &[u8]) -> (r: Vec<u8>)
    ensures
        r@ == sha256_of(bytes@),
        r@.len() == 32,
{
    sha2::Sha256::digest(bytes).to_vec()
}

/// The lowercase hexadecimal digit for `d` (below 16).
pub open spec fn hex_digit(d: u8) -> char {
    if d < 10 {
        (d + 48) as char
    } else {
        (d + 87) as char
    }
}

/// Each byte as two lowercase hexadecimal digits, in order.
pub open spec fn hex_of(bytes: Seq<u8>) -> Seq<char>
    decreases bytes.len(),
{
    if bytes.len() == 0 {
        seq![]
    } else {
        hex_of(bytes.drop_last()) + seq![hex_digit(bytes.last() / 16), hex_digit(bytes.last() % 16)]
    }
}

/// The hash under which a prompt is recorded: `sha256:` and the lowercase hex
/// digest of its UTF-8 bytes.
pub open spec fn prompt_hash_of(prompt: Seq<char>) -> Seq<char> {
    "sha256:"@ + hex_of(sha256_of(vstd::utf8::encode_utf8(prompt)))
}

/// The lowercase hexadecimal rendering of `bytes`.
pub fn hex_string(bytes: &Vec<u8>) -> (r: String)
    ensures
        r@ == hex_of(bytes@),
{
    let mut out = String::new();
    let mut i: usize = 0;
    while i < bytes.len()
        invariant
            i <= bytes@.len(),
            out@ == hex_of(bytes@.take(i as int)),
        decreases bytes@.len() - i,
    {
        let b = bytes[i];
        let hi: u8 = b / 16;
        let lo: u8 = b % 16;
        let c1: char = if hi < 10 { (hi + 48) as char } else { (hi + 87) as char };
        let c2: char = if lo < 10 { (lo + 48) as char } else { (lo + 87) as char };
        crate::text::push_char(&mut out, c1);
        crate::text::push_char(&mut out, c2);
        proof {
            let t = bytes@.take(i + 1);
            assert(t.drop_last() =~= bytes@.take(i as int));
            assert(out@ =~= hex_of(t));
        }
        i = i + 1;
    }
    assert(bytes@.take(bytes@.len() as int) =~= bytes@);
    out
}

/// The recorded hash of a prompt.
pub fn stable_prompt_hash(prompt: &str) -> (r: String)
    ensures
        r@ == prompt_hash_of(prompt@),
{
    let digest = sha256_digest(prompt.as_bytes());
    let mut out = crate::text::owned("sha256:");
    let hex = hex_string(&digest);
    crate::text::push_all(&mut out, hex.as_str());
    out
}

} // verus!
