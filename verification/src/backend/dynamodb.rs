//! Backend for AWS DynamoDB: the codec between keys and table items, the table
//! configuration read from a `dynamodb://` URL, and the decisions around the service calls,
//! which the caller makes.
use vstd::prelude::*;
use crate::error::{StoreError, StoreErrorView};
use crate::jwk::{JwkView, MyJwkEcKey, copy_opt, is_wf_jwk, opt_view, spec_thumbprint, strings_view};
use crate::keys::{KeyMap, KeyView, KeyWithMetadata, spec_metadata};
use crate::text::{eq_ignore_ascii_case, eq_ignore_ascii_case_spec, str_equal};
use crate::url_access::{form_urlencoded_parse, parse_form_urlencoded, UrlParts, UrlPartsView};
use vstd::utf8::encode_utf8;

verus! {

/// A DynamoDB attribute value, as far as keys use it; every other kind is `Other`.
#[derive(Debug, Clone, PartialEq, Eq)]
pub enum AttrValue {
    /// A string.
    S(String),
    /// A set of strings.
    Ss(Vec<String>),
    /// The null marker.
    Null(bool),
    /// Any other kind of attribute value.
    Other,
}

/// The mathematical value of an [`AttrValue`].
pub enum AttrValueView {
    S(Seq<char>),
    Ss(Seq<Seq<char>>),
    Null(bool),
    Other,
}

impl View for AttrValue {
    type V = AttrValueView;

    open spec fn view(&self) -> AttrValueView {
        match self {
            AttrValue::S(s) => AttrValueView::S(s@),
            AttrValue::Ss(v) => AttrValueView::Ss(strings_view(v@)),
            AttrValue::Null(b) => AttrValueView::Null(*b),
            AttrValue::Other => AttrValueView::Other,
        }
    }
}

/// A DynamoDB item: attribute names with their values.
#[derive(Debug, Clone, PartialEq, Eq)]
pub struct AttrItem {
    pub entries: Vec<(String, AttrValue)>,
}

impl View for AttrItem {
    type V = Seq<(Seq<char>, AttrValueView)>;

    open spec fn view(&self) -> Seq<(Seq<char>, AttrValueView)> {
        self.entries@.map_values(|e: (String, AttrValue)| (e.0@, e.1@))
    }
}

/// The value of the first attribute named `name` at or after index `i`.
pub open spec fn lookup_from(s: Seq<(Seq<char>, AttrValueView)>, name: Seq<char>, i: int) -> Option<AttrValueView>
    decreases s.len() - i,
{
    if i < 0 || i >= s.len() {
        None
    } else if s[i].0 == name {
        Some(s[i].1)
    } else {
        lookup_from(s, name, i + 1)
    }
}

/// The value of the attribute named `name`.
pub open spec fn lookup(s: Seq<(Seq<char>, AttrValueView)>, name: Seq<char>) -> Option<AttrValueView> {
    lookup_from(s, name, 0)
}

impl AttrItem {
    /// An item is well formed when no attribute name repeats.
    pub open spec fn wf(&self) -> bool {
        forall|i: int, j: int|
            #![trigger self@[i], self@[j]]
            0 <= i < self@.len() && 0 <= j < self@.len() && i != j ==> self@[i].0 != self@[j].0
    }

    /// The value of the attribute named `name`, if any.
    pub fn get(&self, name: &str) -> (r: Option<&AttrValue>)
        ensures
            match r {
                Some(v) => lookup(self@, name@) == Some(v@),
                None => lookup(self@, name@) is None,
            },
    {
        let ghost s = self@;
        let mut i: usize = 0;
        while i < self.entries.len()
            invariant
                i <= self.entries@.len(),
                s == self@,
                lookup(s, name@) == lookup_from(s, name@, i as int),
            decreases self.entries@.len() - i,
        {
            let e = &self.entries[i];
            assert(s[i as int] == (e.0@, e.1@));
            if str_equal(e.0.as_str(), name) {
                return Some(&e.1);
            }
            i = i + 1;
        }
        None
    }
}

/// A member of a key, as an item attribute.
#[derive(Debug, Clone, Copy, PartialEq, Eq, Structural)]
pub enum Field {
    Crv,
    X,
    Y,
    D,
    Kty,
    Use,
    KeyOps,
    Alg,
    Kid,
    X5u,
    X5c,
    X5t,
    X5tS256,
}

/// The attribute name of a member.
pub open spec fn field_name(f: Field) -> Seq<char> {
    match f {
        Field::Crv => "crv"@,
        Field::X => "x"@,
        Field::Y => "y"@,
        Field::D => "d"@,
        Field::Kty => "kty"@,
        Field::Use => "use"@,
        Field::KeyOps => "key_ops"@,
        Field::Alg => "alg"@,
        Field::Kid => "kid"@,
        Field::X5u => "x5u"@,
        Field::X5c => "x5c"@,
        Field::X5t => "x5t"@,
        Field::X5tS256 => "x5t_s256"@,
    }
}

/// The attribute name of a member.
pub fn field_attribute(f: Field) -> (r: &'static str)
    ensures
        r@ == field_name(f),
{
    match f {
        Field::Crv => "crv",
        Field::X => "x",
        Field::Y => "y",
        Field::D => "d",
        Field::Kty => "kty",
        Field::Use => "use",
        Field::KeyOps => "key_ops",
        Field::Alg => "alg",
        Field::Kid => "kid",
        Field::X5u => "x5u",
        Field::X5c => "x5c",
        Field::X5t => "x5t",
        Field::X5tS256 => "x5t_s256",
    }
}

/// Why an item does not decode into a key.
#[derive(Debug, Clone, Copy, PartialEq, Eq, Structural)]
pub enum ItemError {
    /// A required member is missing.
    Missing(Field),
    /// A member is present but is not a string.
    NotString(Field),
    /// A member is present but is not a set of strings.
    NotStringSet(Field),
}

/// A required string member.
pub open spec fn spec_required(s: Seq<(Seq<char>, AttrValueView)>, f: Field) -> Result<Seq<char>, ItemError> {
    match lookup(s, field_name(f)) {
        Some(AttrValueView::S(v)) => Ok(v),
        Some(_) => Err(ItemError::NotString(f)),
        None => Err(ItemError::Missing(f)),
    }
}

/// An optional string member that must be a string when present.
pub open spec fn spec_optional(s: Seq<(Seq<char>, AttrValueView)>, f: Field) -> Result<Option<Seq<char>>, ItemError> {
    match lookup(s, field_name(f)) {
        Some(AttrValueView::S(v)) => Ok(Some(v)),
        Some(_) => Err(ItemError::NotString(f)),
        None => Ok(None),
    }
}

/// An optional string member that may also be the null marker.
pub open spec fn spec_nullable(s: Seq<(Seq<char>, AttrValueView)>, f: Field) -> Result<Option<Seq<char>>, ItemError> {
    match lookup(s, field_name(f)) {
        Some(AttrValueView::S(v)) => Ok(Some(v)),
        Some(AttrValueView::Null(true)) => Ok(None),
        Some(_) => Err(ItemError::NotString(f)),
        None => Ok(None),
    }
}

/// A string member that must be present, as an optional string.
pub open spec fn spec_present(s: Seq<(Seq<char>, AttrValueView)>, f: Field) -> Result<Option<Seq<char>>, ItemError> {
    match lookup(s, field_name(f)) {
        Some(AttrValueView::S(v)) => Ok(Some(v)),
        Some(_) => Err(ItemError::NotString(f)),
        None => Err(ItemError::Missing(f)),
    }
}

/// A sequence with each element kept at its first occurrence only.
pub open spec fn dedup(s: Seq<Seq<char>>) -> Seq<Seq<char>>
    decreases s.len(),
{
    if s.len() == 0 {
        s
    } else {
        let d = dedup(s.drop_last());
        if d.contains(s.last()) { d } else { d.push(s.last()) }
    }
}

/// The `key_ops` member: a set of strings, empty when absent.
pub open spec fn spec_string_set(s: Seq<(Seq<char>, AttrValueView)>) -> Result<Seq<Seq<char>>, ItemError> {
    match lookup(s, field_name(Field::KeyOps)) {
        Some(AttrValueView::Ss(v)) => Ok(dedup(v)),
        Some(_) => Err(ItemError::NotStringSet(Field::KeyOps)),
        None => Ok(Seq::empty()),
    }
}

/// The key an item decodes into, or the first member, in the order `crv`, `x`, `y`, `d`,
/// `kty`, `use`, `key_ops`, `alg`, `kid`, `x5u`, `x5c`, `x5t`, `x5t_s256`, that stops it.
pub open spec fn spec_jwk_from_item(s: Seq<(Seq<char>, AttrValueView)>) -> Result<JwkView, ItemError> {
    match spec_required(s, Field::Crv) { Err(e) => Err(e), Ok(crv) =>
    match spec_required(s, Field::X) { Err(e) => Err(e), Ok(x) =>
    match spec_required(s, Field::Y) { Err(e) => Err(e), Ok(y) =>
    match spec_optional(s, Field::D) { Err(e) => Err(e), Ok(d) =>
    match spec_required(s, Field::Kty) { Err(e) => Err(e), Ok(kty) =>
    match spec_nullable(s, Field::Use) { Err(e) => Err(e), Ok(key_use) =>
    match spec_string_set(s) { Err(e) => Err(e), Ok(key_ops) =>
    match spec_present(s, Field::Alg) { Err(e) => Err(e), Ok(alg) =>
    match spec_nullable(s, Field::Kid) { Err(e) => Err(e), Ok(kid) =>
    match spec_nullable(s, Field::X5u) { Err(e) => Err(e), Ok(x5u) =>
    match spec_nullable(s, Field::X5c) { Err(e) => Err(e), Ok(x5c) =>
    match spec_nullable(s, Field::X5t) { Err(e) => Err(e), Ok(x5t) =>
    match spec_nullable(s, Field::X5tS256) { Err(e) => Err(e), Ok(x5t_s256) =>
        Ok(JwkView { crv, x, y, d, kty, key_use, key_ops, alg, kid, x5u, x5c, x5t, x5t_s256 })
    }}}}}}}}}}}}}
}

/// An optional member as an attribute value: the string, or the null marker.
pub open spec fn nullable_value(o: Option<Seq<char>>) -> AttrValueView {
    match o {
        Some(v) => AttrValueView::S(v),
        None => AttrValueView::Null(true),
    }
}

/// The item that stores a key: its thumbprint and every member, absent members as null.
pub open spec fn spec_item_of(k: JwkView) -> Seq<(Seq<char>, AttrValueView)> {
    seq![
        ("thumbprint"@, AttrValueView::S(spec_thumbprint(k))),
        ("crv"@, AttrValueView::S(k.crv)),
        ("x"@, AttrValueView::S(k.x)),
        ("y"@, AttrValueView::S(k.y)),
        ("d"@, nullable_value(k.d)),
        ("kty"@, AttrValueView::S(k.kty)),
        ("use"@, nullable_value(k.key_use)),
        ("key_ops"@, AttrValueView::Ss(k.key_ops)),
        ("alg"@, nullable_value(k.alg)),
        ("kid"@, nullable_value(k.kid)),
        ("x5u"@, nullable_value(k.x5u)),
        ("x5c"@, nullable_value(k.x5c)),
        ("x5t"@, nullable_value(k.x5t)),
        ("x5t_s256"@, nullable_value(k.x5t_s256)),
    ]
}

proof fn lemma_dedup_distinct(s: Seq<Seq<char>>)
    requires
        s.no_duplicates(),
    ensures
        dedup(s) == s,
    decreases s.len(),
{
    if s.len() > 0 {
        let p = s.drop_last();
        assert(p.no_duplicates());
        lemma_dedup_distinct(p);
        if p.contains(s.last()) {
            let i = choose|i: int| 0 <= i < p.len() && p[i] == s.last();
            assert(s[i] == s[s.len() - 1]);
        }
        assert(p.push(s.last()) =~= s);
    }
}

/// The attribute value under which an item stores a member of a key.
pub open spec fn stored_value(k: JwkView, f: Field) -> AttrValueView {
    match f {
        Field::Crv => AttrValueView::S(k.crv),
        Field::X => AttrValueView::S(k.x),
        Field::Y => AttrValueView::S(k.y),
        Field::D => nullable_value(k.d),
        Field::Kty => AttrValueView::S(k.kty),
        Field::Use => nullable_value(k.key_use),
        Field::KeyOps => AttrValueView::Ss(k.key_ops),
        Field::Alg => nullable_value(k.alg),
        Field::Kid => nullable_value(k.kid),
        Field::X5u => nullable_value(k.x5u),
        Field::X5c => nullable_value(k.x5c),
        Field::X5t => nullable_value(k.x5t),
        Field::X5tS256 => nullable_value(k.x5t_s256),
    }
}

proof fn lemma_lookup_at(s: Seq<(Seq<char>, AttrValueView)>, name: Seq<char>, i: int, j: int)
    requires
        0 <= j <= i < s.len(),
        s[i].0 == name,
        forall|m: int| j <= m < i ==> s[m].0 != name,
    ensures
        lookup_from(s, name, j) == Some(s[i].1),
    decreases i - j,
{
    if j < i {
        lemma_lookup_at(s, name, i, j + 1);
    }
}

proof fn lemma_item_lookup(k: JwkView, f: Field)
    ensures
        lookup(spec_item_of(k), field_name(f)) == Some(stored_value(k, f)),
{
    lemma_item_names_distinct(k);
    let s = spec_item_of(k);
    let i: int = match f {
        Field::Crv => 1,
        Field::X => 2,
        Field::Y => 3,
        Field::D => 4,
        Field::Kty => 5,
        Field::Use => 6,
        Field::KeyOps => 7,
        Field::Alg => 8,
        Field::Kid => 9,
        Field::X5u => 10,
        Field::X5c => 11,
        Field::X5t => 12,
        Field::X5tS256 => 13,
    };
    let name = field_name(f);
    assert(s[i].0 == name && s[i].1 == stored_value(k, f));
    assert forall|m: int| 0 <= m < i implies s[m].0 != name by {
        assert(s[m].0 != s[i].0);
    }
    lemma_lookup_at(s, name, i, 0);
}

/// A well-formed key stored as an item decodes back into the same key, provided it has a
/// private scalar `d` and an algorithm `alg` (an absent one is stored as the null marker,
/// which the decoder refuses for these two members).
pub proof fn law_item_roundtrip(k: JwkView)
    requires
        k.d is Some,
        k.alg is Some,
        is_wf_jwk(k),
    ensures
        spec_jwk_from_item(spec_item_of(k)) == Ok::<JwkView, ItemError>(k),
{
    lemma_dedup_distinct(k.key_ops);
    lemma_item_lookup(k, Field::Crv);
    lemma_item_lookup(k, Field::X);
    lemma_item_lookup(k, Field::Y);
    lemma_item_lookup(k, Field::D);
    lemma_item_lookup(k, Field::Kty);
    lemma_item_lookup(k, Field::Use);
    lemma_item_lookup(k, Field::KeyOps);
    lemma_item_lookup(k, Field::Alg);
    lemma_item_lookup(k, Field::Kid);
    lemma_item_lookup(k, Field::X5u);
    lemma_item_lookup(k, Field::X5c);
    lemma_item_lookup(k, Field::X5t);
    lemma_item_lookup(k, Field::X5tS256);
}

proof fn lemma_dedup_no_duplicates(s: Seq<Seq<char>>)
    ensures
        dedup(s).no_duplicates(),
        forall|x: Seq<char>| #[trigger] dedup(s).contains(x) ==> s.contains(x),
    decreases s.len(),
{
    if s.len() > 0 {
        let p = s.drop_last();
        lemma_dedup_no_duplicates(p);
        let d = dedup(p);
        assert forall|x: Seq<char>| dedup(s).contains(x) implies s.contains(x) by {
            if d.contains(x) {
                assert(p.contains(x));
                let i = choose|i: int| 0 <= i < p.len() && p[i] == x;
                assert(s[i] == p[i]);
            } else {
                assert(x == s.last());
                assert(s[s.len() - 1] == x);
            }
        }
        if !d.contains(s.last()) {
            let d2 = d.push(s.last());
            assert forall|i: int, j: int| 0 <= i < d2.len() && 0 <= j < d2.len() && i != j implies d2[i] != d2[j] by {
                if i == d.len() as int {
                    assert(d.contains(d2[j]) || d2[j] != s.last());
                } else if j == d.len() as int {
                    assert(d2[i] == d[i]);
                } else {
                    assert(d2[i] == d[i] && d2[j] == d[j]);
                }
            }
        }
    }
}

proof fn lemma_dedup_keeps(s: Seq<Seq<char>>, x: Seq<char>)
    requires
        s.contains(x),
    ensures
        dedup(s).contains(x),
    decreases s.len(),
{
    let p = s.drop_last();
    if p.contains(x) {
        lemma_dedup_keeps(p, x);
        let d = dedup(p);
        let i = choose|i: int| 0 <= i < d.len() && d[i] == x;
        if !d.contains(s.last()) {
            assert(d.push(s.last())[i] == x);
        }
    } else {
        let i = choose|i: int| 0 <= i < s.len() && s[i] == x;
        if i < s.len() - 1 {
            assert(p[i] == x);
        }
        let d = dedup(p);
        if !d.contains(s.last()) {
            assert(d.push(s.last())[d.len() as int] == x);
        }
    }
}

/// How an optional member that may be stored as the null marker was found in an item: its
/// string when it has one, otherwise no attribute or the null marker.
pub open spec fn found_nullable(found: Option<AttrValueView>, member: Option<Seq<char>>) -> bool {
    match member {
        Some(v) => found == Some(AttrValueView::S(v)),
        None => found is None || found == Some(AttrValueView::Null(true)),
    }
}

/// Decoding takes each member of the key from the attribute of the same name: the
/// coordinates `x` and `y`, the curve `crv` and the type `kty` are the strings stored under
/// those names; `d` is the string under `d` when there is one; `alg` is the string under
/// `alg`; the other optional members are the strings under their names, absent when the
/// attribute is missing or null; `key_ops` holds exactly the strings of the set under
/// `key_ops`, each once, and is empty without one.
pub proof fn law_decode_reads_each_member(s: Seq<(Seq<char>, AttrValueView)>, k: JwkView)
    requires
        spec_jwk_from_item(s) == Ok::<JwkView, ItemError>(k),
    ensures
        lookup(s, "crv"@) == Some(AttrValueView::S(k.crv)),
        lookup(s, "x"@) == Some(AttrValueView::S(k.x)),
        lookup(s, "y"@) == Some(AttrValueView::S(k.y)),
        lookup(s, "kty"@) == Some(AttrValueView::S(k.kty)),
        lookup(s, "d"@) == match k.d { Some(v) => Some(AttrValueView::S(v)), None => None::<AttrValueView> },
        k.alg is Some && lookup(s, "alg"@) == Some(AttrValueView::S(k.alg->0)),
        found_nullable(lookup(s, "use"@), k.key_use),
        found_nullable(lookup(s, "kid"@), k.kid),
        found_nullable(lookup(s, "x5u"@), k.x5u),
        found_nullable(lookup(s, "x5c"@), k.x5c),
        found_nullable(lookup(s, "x5t"@), k.x5t),
        found_nullable(lookup(s, "x5t_s256"@), k.x5t_s256),
        k.key_ops.no_duplicates(),
        match lookup(s, "key_ops"@) {
            Some(AttrValueView::Ss(v)) => forall|o: Seq<char>| k.key_ops.contains(o) <==> v.contains(o),
            None => k.key_ops.len() == 0,
            _ => false,
        },
{
    if let Some(AttrValueView::Ss(v)) = lookup(s, "key_ops"@) {
        lemma_dedup_no_duplicates(v);
        assert forall|o: Seq<char>| k.key_ops.contains(o) <==> v.contains(o) by {
            if v.contains(o) {
                lemma_dedup_keeps(v, o);
            }
        }
    }
}

/// The item of a key holds every member under its own name: the thumbprint under
/// `thumbprint`, the strings `crv`, `x`, `y`, `kty` under those names, the `key_ops` set
/// under `key_ops`, and each optional member as its string, or the null marker when absent.
pub proof fn law_item_holds_each_member(k: JwkView)
    ensures
        lookup(spec_item_of(k), "thumbprint"@) == Some(AttrValueView::S(spec_thumbprint(k))),
        lookup(spec_item_of(k), "crv"@) == Some(AttrValueView::S(k.crv)),
        lookup(spec_item_of(k), "x"@) == Some(AttrValueView::S(k.x)),
        lookup(spec_item_of(k), "y"@) == Some(AttrValueView::S(k.y)),
        lookup(spec_item_of(k), "kty"@) == Some(AttrValueView::S(k.kty)),
        lookup(spec_item_of(k), "key_ops"@) == Some(AttrValueView::Ss(k.key_ops)),
        lookup(spec_item_of(k), "d"@) == Some(match k.d { Some(v) => AttrValueView::S(v), None => AttrValueView::Null(true) }),
        lookup(spec_item_of(k), "use"@) == Some(match k.key_use { Some(v) => AttrValueView::S(v), None => AttrValueView::Null(true) }),
        lookup(spec_item_of(k), "alg"@) == Some(match k.alg { Some(v) => AttrValueView::S(v), None => AttrValueView::Null(true) }),
        lookup(spec_item_of(k), "kid"@) == Some(match k.kid { Some(v) => AttrValueView::S(v), None => AttrValueView::Null(true) }),
        lookup(spec_item_of(k), "x5u"@) == Some(match k.x5u { Some(v) => AttrValueView::S(v), None => AttrValueView::Null(true) }),
        lookup(spec_item_of(k), "x5c"@) == Some(match k.x5c { Some(v) => AttrValueView::S(v), None => AttrValueView::Null(true) }),
        lookup(spec_item_of(k), "x5t"@) == Some(match k.x5t { Some(v) => AttrValueView::S(v), None => AttrValueView::Null(true) }),
        lookup(spec_item_of(k), "x5t_s256"@) == Some(match k.x5t_s256 { Some(v) => AttrValueView::S(v), None => AttrValueView::Null(true) }),
{
    lemma_lookup_at(spec_item_of(k), "thumbprint"@, 0, 0);
    lemma_item_lookup(k, Field::Crv);
    lemma_item_lookup(k, Field::X);
    lemma_item_lookup(k, Field::Y);
    lemma_item_lookup(k, Field::D);
    lemma_item_lookup(k, Field::Kty);
    lemma_item_lookup(k, Field::Use);
    lemma_item_lookup(k, Field::KeyOps);
    lemma_item_lookup(k, Field::Alg);
    lemma_item_lookup(k, Field::Kid);
    lemma_item_lookup(k, Field::X5u);
    lemma_item_lookup(k, Field::X5c);
    lemma_item_lookup(k, Field::X5t);
    lemma_item_lookup(k, Field::X5tS256);
}

proof fn lemma_item_names_distinct(k: JwkView)
    ensures
        forall|i: int, j: int|
            #![trigger spec_item_of(k)[i], spec_item_of(k)[j]]
            0 <= i < spec_item_of(k).len() && 0 <= j < spec_item_of(k).len() && i != j
                ==> spec_item_of(k)[i].0 != spec_item_of(k)[j].0,
{
    reveal_strlit("thumbprint");
    reveal_strlit("crv");
    reveal_strlit("x");
    reveal_strlit("y");
    reveal_strlit("d");
    reveal_strlit("kty");
    reveal_strlit("use");
    reveal_strlit("key_ops");
    reveal_strlit("alg");
    reveal_strlit("kid");
    reveal_strlit("x5u");
    reveal_strlit("x5c");
    reveal_strlit("x5t");
    reveal_strlit("x5t_s256");
    let s = spec_item_of(k);
    assert forall|i: int, j: int| 0 <= i < s.len() && 0 <= j < s.len() && i != j implies s[i].0 != s[j].0 by {
        let a = s[i].0;
        let b = s[j].0;
        if a.len() == b.len() {
            if a[0] == b[0] {
                if a.len() > 1 {
                    if a[1] == b[1] {
                        assert(a[2] != b[2]);
                    }
                }
            }
        }
    }
}

fn required(item: &AttrItem, f: Field) -> (r: Result<String, ItemError>)
    ensures
        spec_required(item@, f) == match r { Ok(v) => Ok(v@), Err(e) => Err(e) },
{
    match item.get(field_attribute(f)) {
        Some(AttrValue::S(v)) => Ok(v.clone()),
        Some(_) => Err(ItemError::NotString(f)),
        None => Err(ItemError::Missing(f)),
    }
}

fn optional(item: &AttrItem, f: Field) -> (r: Result<Option<String>, ItemError>)
    ensures
        spec_optional(item@, f) == match r { Ok(v) => Ok(opt_view(v)), Err(e) => Err(e) },
{
    match item.get(field_attribute(f)) {
        Some(AttrValue::S(v)) => Ok(Some(v.clone())),
        Some(_) => Err(ItemError::NotString(f)),
        None => Ok(None),
    }
}

fn nullable(item: &AttrItem, f: Field) -> (r: Result<Option<String>, ItemError>)
    ensures
        spec_nullable(item@, f) == match r { Ok(v) => Ok(opt_view(v)), Err(e) => Err(e) },
{
    match item.get(field_attribute(f)) {
        Some(AttrValue::S(v)) => Ok(Some(v.clone())),
        Some(AttrValue::Null(b)) => if *b { Ok(None) } else { Err(ItemError::NotString(f)) },
        Some(_) => Err(ItemError::NotString(f)),
        None => Ok(None),
    }
}

fn present(item: &AttrItem, f: Field) -> (r: Result<Option<String>, ItemError>)
    ensures
        spec_present(item@, f) == match r { Ok(v) => Ok(opt_view(v)), Err(e) => Err(e) },
{
    match item.get(field_attribute(f)) {
        Some(AttrValue::S(v)) => Ok(Some(v.clone())),
        Some(_) => Err(ItemError::NotString(f)),
        None => Err(ItemError::Missing(f)),
    }
}

fn contains_string(v: &Vec<String>, s: &str) -> (r: bool)
    ensures
        r == strings_view(v@).contains(s@),
{
    let mut i: usize = 0;
    while i < v.len()
        invariant
            i <= v@.len(),
            forall|j: int| 0 <= j < i ==> #[trigger] v@[j]@ != s@,
        decreases v@.len() - i,
    {
        if str_equal(v[i].as_str(), s) {
            assert(strings_view(v@)[i as int] == s@);
            return true;
        }
        i = i + 1;
    }
    proof {
        if strings_view(v@).contains(s@) {
            let j = choose|j: int| 0 <= j < strings_view(v@).len() && strings_view(v@)[j] == s@;
            assert(v@[j]@ == s@);
        }
    }
    false
}

fn dedup_strings(v: &Vec<String>) -> (r: Vec<String>)
    ensures
        strings_view(r@) == dedup(strings_view(v@)),
{
    let ghost sv = strings_view(v@);
    let mut out: Vec<String> = Vec::new();
    let mut i: usize = 0;
    while i < v.len()
        invariant
            i <= v@.len(),
            sv == strings_view(v@),
            strings_view(out@) == dedup(sv.subrange(0, i as int)),
        decreases v@.len() - i,
    {
        proof {
            assert(sv.subrange(0, i + 1).drop_last() =~= sv.subrange(0, i as int));
            assert(sv.subrange(0, i + 1).last() == v@[i as int]@);
        }
        if !contains_string(&out, v[i].as_str()) {
            out.push(v[i].clone());
            assert(strings_view(out@) =~= dedup(sv.subrange(0, i as int)).push(v@[i as int]@));
        }
        i = i + 1;
    }
    assert(sv.subrange(0, v@.len() as int) =~= sv);
    out
}

fn string_set(item: &AttrItem) -> (r: Result<Vec<String>, ItemError>)
    ensures
        spec_string_set(item@) == match r { Ok(v) => Ok(strings_view(v@)), Err(e) => Err(e) },
        r matches Ok(v) ==> strings_view(v@).no_duplicates(),
{
    match item.get(field_attribute(Field::KeyOps)) {
        Some(AttrValue::Ss(v)) => {
            proof {
                lemma_dedup_no_duplicates(strings_view(v@));
            }
            Ok(dedup_strings(v))
        },
        Some(_) => Err(ItemError::NotStringSet(Field::KeyOps)),
        None => {
            let v: Vec<String> = Vec::new();
            assert(strings_view(v@) =~= Seq::<Seq<char>>::empty());
            Ok(v)
        },
    }
}

fn nullable_attr(o: Option<String>) -> (r: AttrValue)
    ensures
        r@ == nullable_value(opt_view(o)),
{
    match o {
        Some(v) => AttrValue::S(v),
        None => AttrValue::Null(true),
    }
}

fn attr_entry(name: &str, value: AttrValue) -> (r: (String, AttrValue))
    ensures
        r.0@ == name@,
        r.1 == value,
{
    (name.to_owned(), value)
}

impl MyJwkEcKey {
    /// Decodes a key from a DynamoDB item. The `thumbprint` attribute is not read.
    pub fn try_from(item: &AttrItem) -> (r: Result<MyJwkEcKey, ItemError>)
        ensures
            spec_jwk_from_item(item@) == match r { Ok(k) => Ok(k@), Err(e) => Err(e) },
            r matches Ok(k) ==> k.wf(),
    {
        let crv = match required(item, Field::Crv) { Ok(v) => v, Err(e) => return Err(e) };
        let x = match required(item, Field::X) { Ok(v) => v, Err(e) => return Err(e) };
        let y = match required(item, Field::Y) { Ok(v) => v, Err(e) => return Err(e) };
        let d = match optional(item, Field::D) { Ok(v) => v, Err(e) => return Err(e) };
        let kty = match required(item, Field::Kty) { Ok(v) => v, Err(e) => return Err(e) };
        let key_use = match nullable(item, Field::Use) { Ok(v) => v, Err(e) => return Err(e) };
        let key_ops = match string_set(item) { Ok(v) => v, Err(e) => return Err(e) };
        let alg = match present(item, Field::Alg) { Ok(v) => v, Err(e) => return Err(e) };
        let kid = match nullable(item, Field::Kid) { Ok(v) => v, Err(e) => return Err(e) };
        let x5u = match nullable(item, Field::X5u) { Ok(v) => v, Err(e) => return Err(e) };
        let x5c = match nullable(item, Field::X5c) { Ok(v) => v, Err(e) => return Err(e) };
        let x5t = match nullable(item, Field::X5t) { Ok(v) => v, Err(e) => return Err(e) };
        let x5t_s256 = match nullable(item, Field::X5tS256) { Ok(v) => v, Err(e) => return Err(e) };
        Ok(MyJwkEcKey { crv, x, y, d, kty, key_use, key_ops, alg, kid, x5u, x5c, x5t, x5t_s256 })
    }

    /// Encodes a key as a DynamoDB item: its thumbprint and every member, absent members as
    /// the null marker.
    pub fn into(self) -> (r: AttrItem)
        ensures
            r@ == spec_item_of(self@),
            r.wf(),
    {
        let thumbprint = self.thumbprint();
        let ghost k = self@;
        let mut entries: Vec<(String, AttrValue)> = Vec::new();
        entries.push(attr_entry("thumbprint", AttrValue::S(thumbprint)));
        entries.push(attr_entry("crv", AttrValue::S(self.crv)));
        entries.push(attr_entry("x", AttrValue::S(self.x)));
        entries.push(attr_entry("y", AttrValue::S(self.y)));
        entries.push(attr_entry("d", nullable_attr(self.d)));
        entries.push(attr_entry("kty", AttrValue::S(self.kty)));
        entries.push(attr_entry("use", nullable_attr(self.key_use)));
        entries.push(attr_entry("key_ops", AttrValue::Ss(self.key_ops)));
        entries.push(attr_entry("alg", nullable_attr(self.alg)));
        entries.push(attr_entry("kid", nullable_attr(self.kid)));
        entries.push(attr_entry("x5u", nullable_attr(self.x5u)));
        entries.push(attr_entry("x5c", nullable_attr(self.x5c)));
        entries.push(attr_entry("x5t", nullable_attr(self.x5t)));
        entries.push(attr_entry("x5t_s256", nullable_attr(self.x5t_s256)));
        let r = AttrItem { entries };
        assert(r@ =~= spec_item_of(k));
        proof {
            lemma_item_names_distinct(k);
        }
        r
    }
}


/// The table used when the URL names none.
pub open spec fn default_table() -> Seq<char> {
    "tldr-keys"@
}

/// The index of the first `/` of a string, if any.
pub open spec fn first_slash_from(r: Seq<char>, i: int) -> Option<int>
    decreases r.len() - i,
{
    if i < 0 || i >= r.len() {
        None
    } else if r[i] == '/' {
        Some(i)
    } else {
        first_slash_from(r, i + 1)
    }
}

/// The first `/`-separated segment of a string.
pub open spec fn first_segment(r: Seq<char>) -> Seq<char> {
    match first_slash_from(r, 0) {
        Some(i) => r.subrange(0, i),
        None => r,
    }
}

/// The table named by a URL path: its first path segment, when the path starts with `/`
/// and that segment is not empty.
pub open spec fn path_table(path: Seq<char>) -> Option<Seq<char>> {
    if path.len() > 0 && path[0] == '/' {
        let seg = first_segment(path.drop_first());
        if seg.len() == 0 { None } else { Some(seg) }
    } else {
        None
    }
}

/// The value of the first query pair with this name, at or after index `i`.
pub open spec fn first_value_from(pairs: Seq<(Seq<char>, Seq<char>)>, name: Seq<char>, i: int) -> Option<Seq<char>>
    decreases pairs.len() - i,
{
    if i < 0 || i >= pairs.len() {
        None
    } else if pairs[i].0 == name {
        Some(pairs[i].1)
    } else {
        first_value_from(pairs, name, i + 1)
    }
}

/// Plain HTTP is allowed when the first `insecure` query pair has the value `true`, in
/// any ASCII case.
pub open spec fn spec_insecure(pairs: Seq<(Seq<char>, Seq<char>)>) -> bool {
    match first_value_from(pairs, "insecure"@, 0) {
        Some(v) => eq_ignore_ascii_case_spec(v, "true"@),
        None => false,
    }
}

/// The decimal digit character of a number below ten.
pub open spec fn digit_char(d: nat) -> char {
    (48 + d) as char
}

/// The decimal representation of a number, without leading zeros.
pub open spec fn decimal(n: nat) -> Seq<char>
    decreases n,
{
    if n < 10 {
        seq![digit_char(n)]
    } else {
        decimal(n / 10) + seq![digit_char(n % 10)]
    }
}

/// The number a string of decimal digits stands for, reading each character as its
/// distance from `'0'`, most significant digit first.
pub open spec fn decimal_value(s: Seq<char>) -> int
    decreases s.len(),
{
    if s.len() == 0 {
        0
    } else {
        decimal_value(s.drop_last()) * 10 + (s.last() as int - '0' as int)
    }
}

/// The port written into an endpoint is standard decimal notation of the number: every
/// character is one of `0`..`9`, there is no leading zero, and reading the digits back in
/// base ten gives the number itself.
pub proof fn law_decimal_reads_back(n: nat)
    ensures
        decimal(n).len() > 0,
        forall|i: int| 0 <= i < decimal(n).len() ==> '0' <= #[trigger] decimal(n)[i] <= '9',
        decimal(n)[0] == '0' ==> n == 0 && decimal(n).len() == 1,
        decimal_value(decimal(n)) == n,
    decreases n,
{
    let s = decimal(n);
    if n < 10 {
        assert(s.drop_last() =~= Seq::<char>::empty());
        assert(decimal_value(s.drop_last()) == 0);
        assert(s.last() as int - '0' as int == n);
    } else {
        let q = n / 10;
        let r = n % 10;
        law_decimal_reads_back(q);
        assert(s.drop_last() =~= decimal(q));
        assert(s.last() == digit_char(r));
        assert(s.last() as int - '0' as int == r);
        assert(decimal_value(s) == decimal_value(decimal(q)) * 10 + r);
        assert(q * 10 + r == n) by (nonlinear_arith)
            requires q == n / 10, r == n % 10;
        assert forall|i: int| 0 <= i < s.len() implies '0' <= #[trigger] s[i] <= '9' by {
            if i < s.len() - 1 {
                assert(s[i] == decimal(q)[i]);
            }
        }
        assert(s[0] == decimal(q)[0]);
    }
}

/// The endpoint named by a URL's host and port, reached over HTTP when insecure and HTTPS
/// otherwise; none without a host.
pub open spec fn spec_endpoint(insecure: bool, host: Option<Seq<char>>, port: Option<u16>) -> Option<Seq<char>> {
    match host {
        Some(h) => {
            let proto = if insecure { "http"@ } else { "https"@ };
            let base = proto + "://"@ + h;
            Some(match port {
                Some(p) => base + ":"@ + decimal(p as nat),
                None => base,
            })
        },
        None => None,
    }
}

/// Where a DynamoDB store keeps its keys.
pub struct DynamoDbConfig {
    /// The name of the table.
    pub table: String,
    /// The endpoint of the service, when the URL names one.
    pub endpoint_url: Option<String>,
}

/// The mathematical value of a [`DynamoDbConfig`].
pub struct DynamoDbConfigView {
    pub table: Seq<char>,
    pub endpoint_url: Option<Seq<char>>,
}

impl View for DynamoDbConfig {
    type V = DynamoDbConfigView;

    open spec fn view(&self) -> DynamoDbConfigView {
        DynamoDbConfigView { table: self.table@, endpoint_url: opt_view(self.endpoint_url) }
    }
}

/// A URL that names only a table, in host position (`dynamodb://table-name`): a non-empty
/// host, no port, and an empty path.
pub open spec fn names_table_by_host(path: Seq<char>, host: Option<Seq<char>>, port: Option<u16>) -> bool {
    path.len() == 0 && port is None && (host matches Some(h) && h.len() > 0)
}

/// The configuration read from the parts of a URL. A URL that names only a table
/// (`dynamodb://table-name`) uses that table at the default endpoint. Any other URL uses the
/// table named by its first path segment, or the default table, at the endpoint that its
/// host and port name, if it has a host (`dynamodb://localhost:8000/table?insecure=true`).
pub open spec fn spec_config(
    scheme: Seq<char>,
    path: Seq<char>,
    pairs: Seq<(Seq<char>, Seq<char>)>,
    host: Option<Seq<char>>,
    port: Option<u16>,
) -> Result<DynamoDbConfigView, StoreErrorView> {
    if !eq_ignore_ascii_case_spec(scheme, "dynamodb"@) {
        Err(StoreErrorView::SchemeNotDynamoDb)
    } else if names_table_by_host(path, host, port) {
        Ok(DynamoDbConfigView { table: host->Some_0, endpoint_url: None })
    } else {
        Ok(DynamoDbConfigView {
            table: match path_table(path) {
                Some(t) => t,
                None => default_table(),
            },
            endpoint_url: spec_endpoint(spec_insecure(pairs), host, port),
        })
    }
}

/// The configuration read from a URL with these parts; the query is parsed as
/// `application/x-www-form-urlencoded`, an absent query as an empty one.
pub open spec fn spec_config_of_url(u: UrlPartsView) -> Result<DynamoDbConfigView, StoreErrorView> {
    let query = match u.query {
        Some(q) => q,
        None => Seq::empty(),
    };
    spec_config(u.scheme, u.path, form_urlencoded_parse(encode_utf8(query)), u.host, u.port)
}

/// Whether the service found the table.
pub enum DescribeOutcome {
    /// The table exists.
    Found,
    /// The service reported that the table does not exist.
    NotFound,
    /// The service reported another error; its message.
    ServiceError(String),
    /// The service could not be reached; the message.
    DispatchFailure(String),
    /// The request failed otherwise; the message.
    OtherFailure(String),
}

/// What to do with the table once it was looked up.
#[derive(Debug, Clone, Copy, PartialEq, Eq, Structural)]
pub enum TableAction {
    UseExisting,
    Create,
}

fn digit_str(d: u16) -> (r: &'static str)
    requires
        d < 10,
    ensures
        r@ == seq![digit_char(d as nat)],
{
    proof {
        reveal_strlit("0");
        reveal_strlit("1");
        reveal_strlit("2");
        reveal_strlit("3");
        reveal_strlit("4");
        reveal_strlit("5");
        reveal_strlit("6");
        reveal_strlit("7");
        reveal_strlit("8");
        reveal_strlit("9");
    }
    let r = match d {
        0 => "0",
        1 => "1",
        2 => "2",
        3 => "3",
        4 => "4",
        5 => "5",
        6 => "6",
        7 => "7",
        8 => "8",
        _ => "9",
    };
    assert(r@ =~= seq![digit_char(d as nat)]);
    r
}

fn append_decimal(out: &mut String, n: u16)
    ensures
        final(out)@ == old(out)@ + decimal(n as nat),
    decreases n,
{
    if n >= 10 {
        append_decimal(out, n / 10);
    }
    out.append(digit_str(n % 10));
    if n >= 10 {
        assert(final(out)@ =~= old(out)@ + decimal(n as nat));
    } else {
        assert(final(out)@ =~= old(out)@ + decimal(n as nat));
    }
}

fn first_segment_of(r: &str) -> (seg: String)
    ensures
        seg@ == first_segment(r@),
{
    let n = r.unicode_len();
    let mut i: usize = 0;
    while i < n
        invariant
            n == r@.len(),
            i <= n,
            first_slash_from(r@, 0) == first_slash_from(r@, i as int),
            forall|j: int| 0 <= j < i ==> r@[j] != '/',
        decreases n - i,
    {
        if r.get_char(i) == '/' {
            return r.substring_char(0, i).to_owned();
        }
        i = i + 1;
    }
    r.to_owned()
}

fn path_table_of(path: &str) -> (t: Option<String>)
    ensures
        opt_view(t) == path_table(path@),
{
    let n = path.unicode_len();
    if n > 0 && path.get_char(0) == '/' {
        let rest = path.substring_char(1, n);
        assert(rest@ =~= path@.drop_first());
        let seg = first_segment_of(rest);
        if seg.unicode_len() == 0 {
            None
        } else {
            Some(seg)
        }
    } else {
        None
    }
}

fn insecure_of(pairs: &Vec<(String, String)>) -> (r: bool)
    ensures
        r == spec_insecure(pairs@.map_values(|p: (String, String)| (p.0@, p.1@))),
{
    let ghost ps = pairs@.map_values(|p: (String, String)| (p.0@, p.1@));
    let mut i: usize = 0;
    while i < pairs.len()
        invariant
            i <= pairs@.len(),
            ps == pairs@.map_values(|p: (String, String)| (p.0@, p.1@)),
            first_value_from(ps, "insecure"@, 0) == first_value_from(ps, "insecure"@, i as int),
        decreases pairs@.len() - i,
    {
        let p = &pairs[i];
        assert(ps[i as int] == (p.0@, p.1@));
        if str_equal(p.0.as_str(), "insecure") {
            return eq_ignore_ascii_case(p.1.as_str(), "true");
        }
        i = i + 1;
    }
    false
}

fn endpoint_of(insecure: bool, host: Option<String>, port: Option<u16>) -> (r: Option<String>)
    ensures
        opt_view(r) == spec_endpoint(insecure, opt_view(host), port),
{
    match host {
        Some(h) => {
            let mut url = if insecure { "http".to_owned() } else { "https".to_owned() };
            url.append("://");
            url.append(h.as_str());
            match port {
                Some(p) => {
                    url.append(":");
                    append_decimal(&mut url, p);
                },
                None => {},
            }
            Some(url)
        },
        None => None,
    }
}

impl DynamoDbConfig {
    /// The configuration read from the parts of a `dynamodb://` URL. A URL that names only
    /// a table in host position (`dynamodb://table-name`) uses that table at the default
    /// endpoint. Otherwise the table is the first path segment (the default table when there
    /// is none), and a host, with its port if any, names the endpoint, reached over plain
    /// HTTP when the query has `insecure=true`.
    pub fn from_parts(
        scheme: &str,
        path: &str,
        query_pairs: &Vec<(String, String)>,
        host: Option<String>,
        port: Option<u16>,
    ) -> (r: Result<DynamoDbConfig, StoreError>)
        ensures
            spec_config(scheme@, path@, query_pairs@.map_values(|p: (String, String)| (p.0@, p.1@)), opt_view(host), port)
                == match r { Ok(c) => Ok(c@), Err(e) => Err(e@) },
            r matches Ok(c) ==> c.table@.len() > 0,
    {
        if !eq_ignore_ascii_case(scheme, "dynamodb") {
            return Err(StoreError::SchemeNotDynamoDb);
        }
        proof {
            reveal_strlit("tldr-keys");
        }
        let bare_host = match &host {
            Some(h) => path.unicode_len() == 0 && port.is_none() && h.unicode_len() > 0,
            None => false,
        };
        if bare_host {
            return Ok(DynamoDbConfig { table: host.unwrap(), endpoint_url: None });
        }
        let table = match path_table_of(path) {
            Some(t) => t,
            None => "tldr-keys".to_owned(),
        };
        let endpoint_url = endpoint_of(insecure_of(query_pairs), host, port);
        Ok(DynamoDbConfig { table, endpoint_url })
    }

    /// The configuration read from the parts of a URL: that of
    /// [`DynamoDbConfig::from_parts`], with the query parsed as
    /// `application/x-www-form-urlencoded` (an absent query as an empty one).
    pub fn from_url(url: &UrlParts) -> (r: Result<DynamoDbConfig, StoreError>)
        ensures
            spec_config_of_url(url@) == match r { Ok(c) => Ok(c@), Err(e) => Err::<DynamoDbConfigView, StoreErrorView>(e@) },
    {
        let pairs = match &url.query {
            Some(q) => parse_form_urlencoded(q.as_str()),
            None => {
                proof {
                    reveal_strlit("");
                }
                parse_form_urlencoded("")
            },
        };
        Self::from_parts(url.scheme.as_str(), url.path.as_str(), &pairs, copy_opt(&url.host), url.port)
    }

    /// What to do once the table was looked up: use it, create it, or report the failure.
    pub fn table_action(&self, outcome: DescribeOutcome) -> (r: Result<TableAction, StoreError>)
        ensures
            match outcome {
                DescribeOutcome::Found => if self.table@.len() == 0 {
                    r == Err::<TableAction, StoreError>(StoreError::EmptyTableName)
                } else {
                    r == Ok::<TableAction, StoreError>(TableAction::UseExisting)
                },
                DescribeOutcome::NotFound => if self.table@.len() == 0 {
                    r == Err::<TableAction, StoreError>(StoreError::EmptyTableName)
                } else {
                    r == Ok::<TableAction, StoreError>(TableAction::Create)
                },
                DescribeOutcome::ServiceError(m) => (r matches Err(StoreError::TableLookupFailed { table, message })
                    && table@ == self.table@ && message@ == m@),
                DescribeOutcome::DispatchFailure(m) => (r matches Err(StoreError::ConnectFailure(x)) && x@ == m@),
                DescribeOutcome::OtherFailure(m) => (r matches Err(StoreError::ServiceFailure(x)) && x@ == m@),
            },
    {
        let exists = match outcome {
            DescribeOutcome::Found => true,
            DescribeOutcome::NotFound => false,
            DescribeOutcome::ServiceError(message) => {
                return Err(StoreError::TableLookupFailed { table: self.table.clone(), message });
            },
            DescribeOutcome::DispatchFailure(message) => {
                return Err(StoreError::ConnectFailure(message));
            },
            DescribeOutcome::OtherFailure(message) => {
                return Err(StoreError::ServiceFailure(message));
            },
        };
        if self.table.unicode_len() == 0 {
            return Err(StoreError::EmptyTableName);
        }
        if exists {
            Ok(TableAction::UseExisting)
        } else {
            Ok(TableAction::Create)
        }
    }
}

/// The keys read from a table scan, each under its thumbprint and unadvertised; a later
/// item replaces an earlier one with the same thumbprint. An item that does not decode
/// fails the whole scan.
pub open spec fn spec_keys_from_items(s: Seq<Seq<(Seq<char>, AttrValueView)>>) -> Result<Map<Seq<char>, KeyView>, StoreErrorView>
    decreases s.len(),
{
    if s.len() == 0 {
        Ok(Map::empty())
    } else {
        match spec_keys_from_items(s.drop_last()) {
            Err(e) => Err(e),
            Ok(m) => match spec_jwk_from_item(s.last()) {
                Err(_) => Err(StoreErrorView::UndecodableStoredKey),
                Ok(k) => Ok(m.insert(spec_thumbprint(k), spec_metadata(k))),
            },
        }
    }
}

/// The key that a lookup by thumbprint found, if any.
pub open spec fn spec_key_from_item(thumbprint: Seq<char>, item: Option<Seq<(Seq<char>, AttrValueView)>>) -> Result<Option<KeyView>, StoreErrorView> {
    match item {
        None => Ok(None),
        Some(s) => match spec_jwk_from_item(s) {
            Err(_) => Err(StoreErrorView::UndecodableKey(thumbprint)),
            Ok(k) => Ok(Some(spec_metadata(k))),
        },
    }
}

/// The keys of the items of a table scan.
pub fn keys_from_items(items: &Vec<AttrItem>) -> (r: Result<KeyMap, StoreError>)
    ensures
        spec_keys_from_items(items@.map_values(|i: AttrItem| i@)) == match r { Ok(m) => Ok(m@), Err(e) => Err(e@) },
        r matches Ok(m) ==> m.wf(),
{
    let ghost views = items@.map_values(|i: AttrItem| i@);
    let mut map = KeyMap::new();
    let mut i: usize = 0;
    while i < items.len()
        invariant
            i <= items@.len(),
            views == items@.map_values(|i: AttrItem| i@),
            map.wf(),
            spec_keys_from_items(views.subrange(0, i as int)) == Ok::<Map<Seq<char>, KeyView>, StoreErrorView>(map@),
        decreases items@.len() - i,
    {
        proof {
            assert(views.subrange(0, i + 1).drop_last() =~= views.subrange(0, i as int));
            assert(views.subrange(0, i + 1).last() == items@[i as int]@);
        }
        match MyJwkEcKey::try_from(&items[i]) {
            Ok(jwk) => {
                map.insert(KeyWithMetadata::from(jwk));
            },
            Err(_) => {
                proof {
                    lemma_scan_error_sticks(views, i as int + 1);
                }
                return Err(StoreError::UndecodableStoredKey);
            },
        }
        i = i + 1;
    }
    assert(views.subrange(0, items@.len() as int) =~= views);
    Ok(map)
}

proof fn lemma_scan_error_sticks(s: Seq<Seq<(Seq<char>, AttrValueView)>>, n: int)
    requires
        0 < n <= s.len(),
        spec_keys_from_items(s.subrange(0, n)) is Err,
    ensures
        spec_keys_from_items(s) == spec_keys_from_items(s.subrange(0, n)),
    decreases s.len() - n,
{
    if n < s.len() {
        assert(s.subrange(0, n + 1).drop_last() =~= s.subrange(0, n));
        lemma_scan_error_sticks(s, n + 1);
    } else {
        assert(s.subrange(0, n) =~= s);
    }
}

/// Checks that a lookup asks for a non-empty thumbprint.
pub fn check_lookup_thumbprint(thumbprint: &str) -> (r: Result<(), StoreError>)
    ensures
        thumbprint@.len() == 0 ==> r == Err::<(), StoreError>(StoreError::EmptyThumbprint),
        thumbprint@.len() > 0 ==> r is Ok,
{
    if thumbprint.unicode_len() == 0 {
        Err(StoreError::EmptyThumbprint)
    } else {
        Ok(())
    }
}

/// The key that a lookup by thumbprint found: none when the table had no item, an error
/// when the item does not decode.
pub fn key_from_item(thumbprint: &str, item: Option<AttrItem>) -> (r: Result<Option<KeyWithMetadata>, StoreError>)
    ensures
        spec_key_from_item(thumbprint@, match item { Some(i) => Some(i@), None => None })
            == match r { Ok(Some(k)) => Ok(Some(k@)), Ok(None) => Ok(None), Err(e) => Err(e@) },
{
    match item {
        None => Ok(None),
        Some(it) => match MyJwkEcKey::try_from(&it) {
            Ok(jwk) => Ok(Some(KeyWithMetadata::from(jwk))),
            Err(_) => Err(StoreError::UndecodableKey(thumbprint.to_owned())),
        },
    }
}

/// A key put into the table is found again by a lookup of any thumbprint that returns its
/// item, as the same key, unadvertised; under the conditions of [`law_item_roundtrip`].
pub proof fn law_put_then_get(k: JwkView, thumbprint: Seq<char>)
    requires
        k.d is Some,
        k.alg is Some,
        is_wf_jwk(k),
    ensures
        spec_key_from_item(thumbprint, Some(spec_item_of(k))) == Ok::<Option<KeyView>, StoreErrorView>(Some(spec_metadata(k))),
{
    law_item_roundtrip(k);
}

} // verus!
