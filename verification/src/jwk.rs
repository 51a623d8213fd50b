//! Elliptic-curve JSON Web Keys and their RFC 7638 thumbprints.
use vstd::prelude::*;
use vstd::utf8::encode_utf8;
use crate::digest::{base64url_encode, base64url_unpadded, lemma_base64url_unpadded, sha256, sha256_digest};
use crate::error::StoreError;
use crate::text::{
    all_url_safe, append_json_escaped, is_all_url_safe, json_escape, json_plain_char, law_json_escape_injective,
    law_json_escape_plain,
};

verus! {

/// An elliptic-curve JSON Web Key (RFC 7517), public or private.
#[derive(Debug, Clone, PartialEq, Eq)]
pub struct MyJwkEcKey {
    pub crv: String,
    pub x: String,
    pub y: String,
    /// The private scalar; absent for a public key.
    pub d: Option<String>,
    pub kty: String,
    /// The `use` member.
    pub key_use: Option<String>,
    /// The `key_ops` member, a set of operation names: in a well-formed key (see
    /// [`MyJwkEcKey::wf`]) no name repeats.
    pub key_ops: Vec<String>,
    pub alg: Option<String>,
    pub kid: Option<String>,
    pub x5u: Option<String>,
    pub x5c: Option<String>,
    pub x5t: Option<String>,
    pub x5t_s256: Option<String>,
}

/// The mathematical value of a [`MyJwkEcKey`].
pub struct JwkView {
    pub crv: Seq<char>,
    pub x: Seq<char>,
    pub y: Seq<char>,
    pub d: Option<Seq<char>>,
    pub kty: Seq<char>,
    pub key_use: Option<Seq<char>>,
    pub key_ops: Seq<Seq<char>>,
    pub alg: Option<Seq<char>>,
    pub kid: Option<Seq<char>>,
    pub x5u: Option<Seq<char>>,
    pub x5c: Option<Seq<char>>,
    pub x5t: Option<Seq<char>>,
    pub x5t_s256: Option<Seq<char>>,
}

/// A key is well formed when its `key_ops`, a set, repeats no operation.
pub open spec fn is_wf_jwk(k: JwkView) -> bool {
    k.key_ops.no_duplicates()
}

/// The characters of an optional string.
pub open spec fn opt_view(o: Option<String>) -> Option<Seq<char>> {
    match o {
        Some(s) => Some(s@),
        None => None,
    }
}

/// The characters of each string of a sequence.
pub open spec fn strings_view(v: Seq<String>) -> Seq<Seq<char>> {
    v.map_values(|s: String| s@)
}

impl View for MyJwkEcKey {
    type V = JwkView;

    open spec fn view(&self) -> JwkView {
        JwkView {
            crv: self.crv@,
            x: self.x@,
            y: self.y@,
            d: opt_view(self.d),
            kty: self.kty@,
            key_use: opt_view(self.key_use),
            key_ops: strings_view(self.key_ops@),
            alg: opt_view(self.alg),
            kid: opt_view(self.kid),
            x5u: opt_view(self.x5u),
            x5c: opt_view(self.x5c),
            x5t: opt_view(self.x5t),
            x5t_s256: opt_view(self.x5t_s256),
        }
    }
}

/// The canonical JSON object of the required members of an EC key, in lexicographic
/// order of member names, without whitespace, and with each value escaped only where JSON
/// requires it (RFC 7638, sections 3.2 and 3.3).
pub open spec fn thumbprint_input(crv: Seq<char>, kty: Seq<char>, x: Seq<char>, y: Seq<char>) -> Seq<char> {
    "{\"crv\":\""@ + json_escape(crv) + "\",\"kty\":\""@ + json_escape(kty) + "\",\"x\":\""@ + json_escape(x)
        + "\",\"y\":\""@ + json_escape(y) + "\"}"@
}

/// The canonical input of a key opens with its own curve: `{"crv":"` followed by the
/// escaped `crv` member.
pub proof fn law_thumbprint_input_starts_with_curve(crv: Seq<char>, kty: Seq<char>, x: Seq<char>, y: Seq<char>)
    ensures
        ({
            let input = thumbprint_input(crv, kty, x, y);
            let head = "{\"crv\":\""@ + json_escape(crv);
            head.len() <= input.len() && input.subrange(0, head.len() as int) == head
        }),
{
    let input = thumbprint_input(crv, kty, x, y);
    let head = "{\"crv\":\""@ + json_escape(crv);
    let rest = "\",\"kty\":\""@ + json_escape(kty) + "\",\"x\":\""@ + json_escape(x) + "\",\"y\":\""@
        + json_escape(y) + "\"}"@;
    assert(input =~= head + rest);
    assert(input.subrange(0, head.len() as int) =~= head);
}

/// For members with no character that JSON must escape (as with curve names and
/// base64url coordinates), the canonical input is exactly
/// `{"crv":"<crv>","kty":"<kty>","x":"<x>","y":"<y>"}`: the four required members in
/// lexicographic order of their names, without whitespace, each value written as it is.
pub proof fn law_thumbprint_input_of_plain_members(crv: Seq<char>, kty: Seq<char>, x: Seq<char>, y: Seq<char>)
    requires
        forall|i: int| 0 <= i < crv.len() ==> json_plain_char(#[trigger] crv[i]),
        forall|i: int| 0 <= i < kty.len() ==> json_plain_char(#[trigger] kty[i]),
        forall|i: int| 0 <= i < x.len() ==> json_plain_char(#[trigger] x[i]),
        forall|i: int| 0 <= i < y.len() ==> json_plain_char(#[trigger] y[i]),
    ensures
        thumbprint_input(crv, kty, x, y) == seq!['{', '"', 'c', 'r', 'v', '"', ':', '"'] + crv
            + seq!['"', ',', '"', 'k', 't', 'y', '"', ':', '"'] + kty
            + seq!['"', ',', '"', 'x', '"', ':', '"'] + x
            + seq!['"', ',', '"', 'y', '"', ':', '"'] + y
            + seq!['"', '}'],
{
    law_json_escape_plain(crv);
    law_json_escape_plain(kty);
    law_json_escape_plain(x);
    law_json_escape_plain(y);
    reveal_strlit("{\"crv\":\"");
    reveal_strlit("\",\"kty\":\"");
    reveal_strlit("\",\"x\":\"");
    reveal_strlit("\",\"y\":\"");
    reveal_strlit("\"}");
    assert("{\"crv\":\""@ =~= seq!['{', '"', 'c', 'r', 'v', '"', ':', '"']);
    assert("\",\"kty\":\""@ =~= seq!['"', ',', '"', 'k', 't', 'y', '"', ':', '"']);
    assert("\",\"x\":\""@ =~= seq!['"', ',', '"', 'x', '"', ':', '"']);
    assert("\",\"y\":\""@ =~= seq!['"', ',', '"', 'y', '"', ':', '"']);
    assert("\"}"@ =~= seq!['"', '}']);
}

proof fn lemma_cancel_around(a: Seq<char>, m1: Seq<char>, m2: Seq<char>, b: Seq<char>)
    requires
        a + m1 + b == a + m2 + b,
    ensures
        m1 == m2,
{
    let e = a + m1 + b;
    assert(e.len() == a.len() + m1.len() + b.len());
    assert((a + m2 + b).len() == a.len() + m2.len() + b.len());
    assert(e.subrange(a.len() as int, (a.len() + m1.len()) as int) =~= m1);
    assert((a + m2 + b).subrange(a.len() as int, (a.len() + m2.len()) as int) =~= m2);
}

proof fn lemma_input_determines_crv(crv: Seq<char>, kty: Seq<char>, x: Seq<char>, y: Seq<char>, other: Seq<char>)
    requires
        thumbprint_input(other, kty, x, y) == thumbprint_input(crv, kty, x, y),
    ensures
        other == crv,
{
    let b = "\",\"kty\":\""@ + json_escape(kty) + "\",\"x\":\""@ + json_escape(x) + "\",\"y\":\""@
        + json_escape(y) + "\"}"@;
    let a = "{\"crv\":\""@;
    assert(thumbprint_input(other, kty, x, y) =~= a + json_escape(other) + b);
    assert(thumbprint_input(crv, kty, x, y) =~= a + json_escape(crv) + b);
    lemma_cancel_around(a, json_escape(other), json_escape(crv), b);
    law_json_escape_injective(other, crv);
}

proof fn lemma_input_determines_kty(crv: Seq<char>, kty: Seq<char>, x: Seq<char>, y: Seq<char>, other: Seq<char>)
    requires
        thumbprint_input(crv, other, x, y) == thumbprint_input(crv, kty, x, y),
    ensures
        other == kty,
{
    let a = "{\"crv\":\""@ + json_escape(crv) + "\",\"kty\":\""@;
    let b = "\",\"x\":\""@ + json_escape(x) + "\",\"y\":\""@ + json_escape(y) + "\"}"@;
    assert(thumbprint_input(crv, other, x, y) =~= a + json_escape(other) + b);
    assert(thumbprint_input(crv, kty, x, y) =~= a + json_escape(kty) + b);
    lemma_cancel_around(a, json_escape(other), json_escape(kty), b);
    law_json_escape_injective(other, kty);
}

proof fn lemma_input_determines_x(crv: Seq<char>, kty: Seq<char>, x: Seq<char>, y: Seq<char>, other: Seq<char>)
    requires
        thumbprint_input(crv, kty, other, y) == thumbprint_input(crv, kty, x, y),
    ensures
        other == x,
{
    let a = "{\"crv\":\""@ + json_escape(crv) + "\",\"kty\":\""@ + json_escape(kty) + "\",\"x\":\""@;
    let b = "\",\"y\":\""@ + json_escape(y) + "\"}"@;
    assert(thumbprint_input(crv, kty, other, y) =~= a + json_escape(other) + b);
    assert(thumbprint_input(crv, kty, x, y) =~= a + json_escape(x) + b);
    lemma_cancel_around(a, json_escape(other), json_escape(x), b);
    law_json_escape_injective(other, x);
}

proof fn lemma_input_determines_y(crv: Seq<char>, kty: Seq<char>, x: Seq<char>, y: Seq<char>, other: Seq<char>)
    requires
        thumbprint_input(crv, kty, x, other) == thumbprint_input(crv, kty, x, y),
    ensures
        other == y,
{
    let a = "{\"crv\":\""@ + json_escape(crv) + "\",\"kty\":\""@ + json_escape(kty) + "\",\"x\":\""@
        + json_escape(x) + "\",\"y\":\""@;
    let b = "\"}"@;
    assert(thumbprint_input(crv, kty, x, other) =~= a + json_escape(other) + b);
    assert(thumbprint_input(crv, kty, x, y) =~= a + json_escape(y) + b);
    lemma_cancel_around(a, json_escape(other), json_escape(y), b);
    law_json_escape_injective(other, y);
}

/// The canonical input tells keys apart by every member: two keys that agree on three of
/// `crv`, `kty`, `x`, `y` and differ on the fourth have different canonical inputs.
pub proof fn law_thumbprint_input_determines_each_member(
    crv: Seq<char>,
    kty: Seq<char>,
    x: Seq<char>,
    y: Seq<char>,
    other: Seq<char>,
)
    ensures
        thumbprint_input(other, kty, x, y) == thumbprint_input(crv, kty, x, y) ==> other == crv,
        thumbprint_input(crv, other, x, y) == thumbprint_input(crv, kty, x, y) ==> other == kty,
        thumbprint_input(crv, kty, other, y) == thumbprint_input(crv, kty, x, y) ==> other == x,
        thumbprint_input(crv, kty, x, other) == thumbprint_input(crv, kty, x, y) ==> other == y,
{
    if thumbprint_input(other, kty, x, y) == thumbprint_input(crv, kty, x, y) {
        lemma_input_determines_crv(crv, kty, x, y, other);
    }
    if thumbprint_input(crv, other, x, y) == thumbprint_input(crv, kty, x, y) {
        lemma_input_determines_kty(crv, kty, x, y, other);
    }
    if thumbprint_input(crv, kty, other, y) == thumbprint_input(crv, kty, x, y) {
        lemma_input_determines_x(crv, kty, x, y, other);
    }
    if thumbprint_input(crv, kty, x, other) == thumbprint_input(crv, kty, x, y) {
        lemma_input_determines_y(crv, kty, x, y, other);
    }
}

/// The RFC 7638 thumbprint of a key: the unpadded URL-safe Base64 encoding of the SHA-256
/// digest of the UTF-8 bytes of its canonical JSON object.
pub open spec fn spec_thumbprint(k: JwkView) -> Seq<char> {
    base64url_unpadded(sha256_digest(encode_utf8(thumbprint_input(k.crv, k.kty, k.x, k.y))))
}

/// A thumbprint is well formed when it is non-empty URL-safe Base64, so that it can name
/// a file without leaving its directory.
pub open spec fn is_valid_thumbprint(t: Seq<char>) -> bool {
    t.len() > 0 && all_url_safe(t)
}

/// Checks that a thumbprint is non-empty and made only of `[A-Za-z0-9_-]`.
pub fn validate_thumbprint(thumbprint: &str) -> (r: Result<(), StoreError>)
    ensures
        r is Ok <==> is_valid_thumbprint(thumbprint@),
        r matches Err(e) ==> e matches StoreError::InvalidThumbprint(t) && t@ == thumbprint@,
{
    if thumbprint.unicode_len() > 0 && is_all_url_safe(thumbprint) {
        Ok(())
    } else {
        Err(StoreError::InvalidThumbprint(thumbprint.to_owned()))
    }
}

/// A copy of an optional string.
pub fn copy_opt(o: &Option<String>) -> (r: Option<String>)
    ensures
        r == *o,
{
    match o {
        Some(s) => Some(s.clone()),
        None => None,
    }
}

/// A copy of a list of strings.
pub fn copy_strings(v: &Vec<String>) -> (r: Vec<String>)
    ensures
        r@ == v@,
{
    let mut out: Vec<String> = Vec::new();
    let mut i: usize = 0;
    while i < v.len()
        invariant
            i <= v.len(),
            out@ == v@.subrange(0, i as int),
        decreases v.len() - i,
    {
        out.push(v[i].clone());
        i = i + 1;
    }
    assert(v@.subrange(0, v@.len() as int) =~= v@);
    out
}

impl MyJwkEcKey {
    /// This key is well formed: its `key_ops` repeats no operation.
    pub open spec fn wf(&self) -> bool {
        is_wf_jwk(self@)
    }

    /// A copy of this key.
    pub fn duplicate(&self) -> (r: MyJwkEcKey)
        ensures
            r@ == self@,
    {
        MyJwkEcKey {
            crv: self.crv.clone(),
            x: self.x.clone(),
            y: self.y.clone(),
            d: copy_opt(&self.d),
            kty: self.kty.clone(),
            key_use: copy_opt(&self.key_use),
            key_ops: copy_strings(&self.key_ops),
            alg: copy_opt(&self.alg),
            kid: copy_opt(&self.kid),
            x5u: copy_opt(&self.x5u),
            x5c: copy_opt(&self.x5c),
            x5t: copy_opt(&self.x5t),
            x5t_s256: copy_opt(&self.x5t_s256),
        }
    }

    /// The canonical JSON object of this key's required members.
    pub fn thumbprint_input(&self) -> (r: String)
        ensures
            r@ == thumbprint_input(self.crv@, self.kty@, self.x@, self.y@),
    {
        let mut s = String::new();
        s.append("{\"crv\":\"");
        append_json_escaped(&mut s, self.crv.as_str());
        s.append("\",\"kty\":\"");
        append_json_escaped(&mut s, self.kty.as_str());
        s.append("\",\"x\":\"");
        append_json_escaped(&mut s, self.x.as_str());
        s.append("\",\"y\":\"");
        append_json_escaped(&mut s, self.y.as_str());
        s.append("\"}");
        s
    }

    /// The RFC 7638 thumbprint of this key. It is always a well-formed thumbprint of
    /// 43 characters.
    pub fn thumbprint(&self) -> (r: String)
        ensures
            r@ == spec_thumbprint(self@),
            is_valid_thumbprint(r@),
            r@.len() == 43,
    {
        let input = self.thumbprint_input();
        let bytes = input.as_str().as_bytes();
        let digest = sha256(bytes);
        proof {
            lemma_base64url_unpadded(digest@);
        }
        base64url_encode(digest.as_slice())
    }
}

} // verus!
