//! SHA-256 digests rendered as lowercase hexadecimal.
use vstd::prelude::*;

verus! {

/// The lowercase hexadecimal digit of a nibble (`0 <= n < 16`).
pub open spec fn hex_digit(n: nat) -> char {
    if n < 10 {
        ((n + 48) as u8) as char
    } else {
        ((n + 87) as u8) as char
    }
}

/// Lowercase hexadecimal rendering of `bytes`: two digits per byte, high
/// nibble first.
pub open spec fn hex_text(bytes: Seq<u8>) -> Seq<char> {
    Seq::new(
        2 * bytes.len(),
        |i: int|
            if i % 2 == 0 {
                hex_digit((bytes[i / 2] / 16) as nat)
            } else {
                hex_digit((bytes[i / 2] % 16) as nat)
            },
    )
}

/// The SHA-256 digest of `data`, as `sha2::Sha256` computes it.
pub uninterp spec fn sha256_of(data: Seq<u8>) -> Seq<u8>;

/// `sha2::Sha256::digest`: the 32-byte SHA-256 digest of `data`. The contract
/// names the digest and states its length; the hash function itself is not
/// restated.
#[verifier::external_body]
fn sha256_digest(data: &[u8]) -> (d: Vec<u8>)
    ensures
        d@ == sha256_of(data@),
        d@.len() == 32,
{
    <sha2::Sha256 as sha2::Digest>::digest(data).to_vec()
}

/// `hex::encode`: each byte as two lowercase hexadecimal digits, high nibble
/// first (the crate's `HEX_CHARS_LOWER` table).
#[verifier::external_body]
fn hex_encode(data: &[u8]) -> (s: String)
    ensures
        s@ == hex_text(data@),
{
    hex::encode(data)
}

/// `"sha256:"` followed by the lowercase hexadecimal SHA-256 digest of `data`.
pub open spec fn sha256_label(data: Seq<u8>) -> Seq<char> {
    "sha256:"@ + hex_text(sha256_of(data))
}

/// A digest labelled with its algorithm: `sha256:` and its lowercase hex.
pub fn label_digest(digest: &[u8]) -> (s: String)
    ensures
        s@ == "sha256:"@ + hex_text(digest@),
{
    let hex = hex_encode(digest);
    let mut s = crate::text::from_str("sha256:");
    crate::text::push_str(&mut s, hex.as_str());
    s
}

/// The labelled SHA-256 digest of `data`: `sha256:<64 lowercase hex digits>`.
pub fn sha256_labelled(data: &[u8]) -> (s: String)
    ensures
        s@ == sha256_label(data@),
        s@.len() == 71,
{
    let d = sha256_digest(data);
    let s = label_digest(d.as_slice());
    proof {
        reveal_strlit("sha256:");
    }
    s
}

} // verus!
