//! The hash and the encoding that a key thumbprint is made of.
use vstd::prelude::*;
use crate::text::{all_url_safe, is_url_safe_char};
use sha2::Digest;

verus! {

/// The SHA-256 digest of a byte string.
pub uninterp spec fn sha256_digest(data: Seq<u8>) -> Seq<u8>;

/// The character of a 6-bit value in the URL-safe Base64 alphabet: `A`-`Z`, `a`-`z`,
/// `0`-`9`, `-`, `_` (RFC 4648, section 5).
pub open spec fn base64url_char(v: int) -> char {
    if v < 26 {
        (65 + v) as char
    } else if v < 52 {
        (97 + v - 26) as char
    } else if v < 62 {
        (48 + v - 52) as char
    } else if v == 62 {
        '-'
    } else {
        '_'
    }
}

/// The unpadded URL-safe Base64 encoding of a byte string: each group of three bytes
/// becomes four characters of six bits each; a final group of one or two bytes becomes two
/// or three characters, its last one padded with zero bits, and no `=` follows.
pub open spec fn base64url_unpadded(d: Seq<u8>) -> Seq<char>
    decreases d.len(),
{
    if d.len() == 0 {
        Seq::empty()
    } else if d.len() == 1 {
        seq![base64url_char(d[0] as int / 4), base64url_char((d[0] as int % 4) * 16)]
    } else if d.len() == 2 {
        seq![
            base64url_char(d[0] as int / 4),
            base64url_char((d[0] as int % 4) * 16 + d[1] as int / 16),
            base64url_char((d[1] as int % 16) * 4),
        ]
    } else {
        seq![
            base64url_char(d[0] as int / 4),
            base64url_char((d[0] as int % 4) * 16 + d[1] as int / 16),
            base64url_char((d[1] as int % 16) * 4 + d[2] as int / 64),
            base64url_char(d[2] as int % 64),
        ] + base64url_unpadded(d.subrange(3, d.len() as int))
    }
}

proof fn lemma_base64url_char(v: int)
    requires
        0 <= v < 64,
    ensures
        is_url_safe_char(base64url_char(v)),
{
}

/// The encoding is made only of URL-safe characters, `ceil(4 * len / 3)` of them.
pub proof fn lemma_base64url_unpadded(d: Seq<u8>)
    ensures
        all_url_safe(base64url_unpadded(d)),
        base64url_unpadded(d).len() == (d.len() * 4 + 2) / 3,
    decreases d.len(),
{
    if d.len() == 0 {
    } else if d.len() == 1 {
        lemma_base64url_char(d[0] as int / 4);
        lemma_base64url_char((d[0] as int % 4) * 16);
    } else if d.len() == 2 {
        lemma_base64url_char(d[0] as int / 4);
        lemma_base64url_char((d[0] as int % 4) * 16 + d[1] as int / 16);
        lemma_base64url_char((d[1] as int % 16) * 4);
    } else {
        let rest = d.subrange(3, d.len() as int);
        lemma_base64url_unpadded(rest);
        lemma_base64url_char(d[0] as int / 4);
        lemma_base64url_char((d[0] as int % 4) * 16 + d[1] as int / 16);
        lemma_base64url_char((d[1] as int % 16) * 4 + d[2] as int / 64);
        lemma_base64url_char(d[2] as int % 64);
        let head = seq![
            base64url_char(d[0] as int / 4),
            base64url_char((d[0] as int % 4) * 16 + d[1] as int / 16),
            base64url_char((d[1] as int % 16) * 4 + d[2] as int / 64),
            base64url_char(d[2] as int % 64),
        ];
        let e = head + base64url_unpadded(rest);
        assert forall|i: int| 0 <= i < e.len() implies is_url_safe_char(#[trigger] e[i]) by {
            if i >= 4 {
                assert(e[i] == base64url_unpadded(rest)[i - 4]);
            }
        }
    }
}

/// Calls `sha2::Sha256::digest`. Trusted: the result is the SHA-256 digest of `data`,
/// a function of `data` alone, and is 32 bytes long (the output size of SHA-256).
#[verifier::external_body]
pub(crate) fn sha256(data: &[u8]) -> (r: Vec<u8>)
    ensures
        r@ == sha256_digest(data@),
        r@.len() == 32,
{
    sha2::Sha256::digest(data).to_vec()
}

/// Calls `base64ct::Base64UrlUnpadded::encode_string`. Trusted: the result is the unpadded
/// URL-safe Base64 encoding of `data`. The call panics when `4 * len` overflows, which the
/// `requires` rules out.
#[verifier::external_body]
pub(crate) fn base64url_encode(data: &[u8]) -> (r: String)
    requires
        data@.len() * 4 <= usize::MAX,
    ensures
        r@ == base64url_unpadded(data@),
{
    <base64ct::Base64UrlUnpadded as base64ct::Encoding>::encode_string(data)
}

} // verus!
