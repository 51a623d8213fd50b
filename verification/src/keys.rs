//! Keys with their metadata, and a map of keys by thumbprint.
use vstd::prelude::*;
use crate::jwk::{JwkView, MyJwkEcKey, spec_thumbprint, is_valid_thumbprint};
use crate::text::str_equal;

verus! {

/// A key together with its thumbprint and whether it is advertised to clients.
#[derive(Debug, Clone, PartialEq, Eq)]
pub struct KeyWithMetadata {
    pub thumbprint: String,
    pub advertise: bool,
    pub jwk: MyJwkEcKey,
}

/// The mathematical value of a [`KeyWithMetadata`].
pub struct KeyView {
    pub thumbprint: Seq<char>,
    pub advertise: bool,
    pub jwk: JwkView,
}

impl View for KeyWithMetadata {
    type V = KeyView;

    open spec fn view(&self) -> KeyView {
        KeyView { thumbprint: self.thumbprint@, advertise: self.advertise, jwk: self.jwk@ }
    }
}

/// The metadata of a freshly known key: its thumbprint, and not advertised.
pub open spec fn spec_metadata(k: JwkView) -> KeyView {
    KeyView { thumbprint: spec_thumbprint(k), advertise: false, jwk: k }
}

/// The same key view with its advertisement state set to `advertise`.
pub open spec fn with_advertise(k: KeyView, advertise: bool) -> KeyView {
    KeyView { advertise: advertise, ..k }
}

impl KeyWithMetadata {
    /// Wraps a key with its thumbprint; a new key is not advertised.
    pub fn from(jwk: MyJwkEcKey) -> (r: KeyWithMetadata)
        ensures
            r@ == spec_metadata(jwk@),
            is_valid_thumbprint(r.thumbprint@),
    {
        let thumbprint = jwk.thumbprint();
        KeyWithMetadata { thumbprint, advertise: false, jwk }
    }

    /// A copy of this key and its metadata.
    pub fn duplicate(&self) -> (r: KeyWithMetadata)
        ensures
            r@ == self@,
    {
        KeyWithMetadata {
            thumbprint: self.thumbprint.clone(),
            advertise: self.advertise,
            jwk: self.jwk.duplicate(),
        }
    }
}

/// No two entries share a thumbprint.
pub open spec fn distinct_thumbprints(s: Seq<KeyView>) -> bool {
    forall|i: int, j: int|
        #![trigger s[i], s[j]]
        0 <= i < s.len() && 0 <= j < s.len() && i != j ==> s[i].thumbprint != s[j].thumbprint
}

/// Some entry has thumbprint `t`.
pub open spec fn has_thumbprint(s: Seq<KeyView>, t: Seq<char>) -> bool {
    exists|i: int| 0 <= i < s.len() && #[trigger] s[i].thumbprint == t
}

/// The map from thumbprints to the entries that carry them.
pub open spec fn seq_to_map(s: Seq<KeyView>) -> Map<Seq<char>, KeyView> {
    Map::new(
        |t: Seq<char>| has_thumbprint(s, t),
        |t: Seq<char>| s[choose|i: int| 0 <= i < s.len() && #[trigger] s[i].thumbprint == t],
    )
}

proof fn lemma_lookup(s: Seq<KeyView>, i: int)
    requires
        distinct_thumbprints(s),
        0 <= i < s.len(),
    ensures
        seq_to_map(s).contains_key(s[i].thumbprint),
        seq_to_map(s)[s[i].thumbprint] == s[i],
{
    let t = s[i].thumbprint;
    assert(has_thumbprint(s, t));
    let j = choose|j: int| 0 <= j < s.len() && #[trigger] s[j].thumbprint == t;
    assert(s[j].thumbprint == t);
    assert(s[i] == s[j]);
}

proof fn lemma_push(s: Seq<KeyView>, v: KeyView)
    requires
        distinct_thumbprints(s),
        !has_thumbprint(s, v.thumbprint),
    ensures
        distinct_thumbprints(s.push(v)),
        seq_to_map(s.push(v)) == seq_to_map(s).insert(v.thumbprint, v),
{
    let s2 = s.push(v);
    assert forall|i: int, j: int|
        #![trigger s2[i], s2[j]]
        0 <= i < s2.len() && 0 <= j < s2.len() && i != j implies s2[i].thumbprint != s2[j].thumbprint by {
        if i == s.len() as int {
            assert(s2[j] == s[j]);
        } else if j == s.len() as int {
            assert(s2[i] == s[i]);
        } else {
            assert(s2[i] == s[i] && s2[j] == s[j]);
        }
    }
    let m1 = seq_to_map(s2);
    let m2 = seq_to_map(s).insert(v.thumbprint, v);
    assert forall|t: Seq<char>| m1.contains_key(t) <==> m2.contains_key(t) by {
        if has_thumbprint(s2, t) {
            let k = choose|k: int| 0 <= k < s2.len() && #[trigger] s2[k].thumbprint == t;
            if k < s.len() {
                assert(s[k] == s2[k]);
                assert(has_thumbprint(s, t));
            }
        }
        if has_thumbprint(s, t) {
            let k = choose|k: int| 0 <= k < s.len() && #[trigger] s[k].thumbprint == t;
            assert(s2[k] == s[k]);
            assert(has_thumbprint(s2, t));
        }
        if t == v.thumbprint {
            assert(s2[s.len() as int] == v);
            assert(has_thumbprint(s2, t));
        }
    }
    assert forall|t: Seq<char>| m1.contains_key(t) implies m1[t] == m2[t] by {
        let k = choose|k: int| 0 <= k < s2.len() && #[trigger] s2[k].thumbprint == t;
        lemma_lookup(s2, k);
        if k < s.len() {
            assert(s[k] == s2[k]);
            lemma_lookup(s, k);
        } else {
            assert(s2[k] == v);
        }
    }
    assert(m1 =~= m2);
}

proof fn lemma_update(s: Seq<KeyView>, i: int, v: KeyView)
    requires
        distinct_thumbprints(s),
        0 <= i < s.len(),
        s[i].thumbprint == v.thumbprint,
    ensures
        distinct_thumbprints(s.update(i, v)),
        seq_to_map(s.update(i, v)) == seq_to_map(s).insert(v.thumbprint, v),
{
    let s2 = s.update(i, v);
    assert forall|a: int, b: int|
        #![trigger s2[a], s2[b]]
        0 <= a < s2.len() && 0 <= b < s2.len() && a != b implies s2[a].thumbprint != s2[b].thumbprint by {
        assert(s2[a].thumbprint == s[a].thumbprint);
        assert(s2[b].thumbprint == s[b].thumbprint);
        assert(s[a].thumbprint != s[b].thumbprint);
    }
    let m1 = seq_to_map(s2);
    let m2 = seq_to_map(s).insert(v.thumbprint, v);
    assert forall|t: Seq<char>| m1.contains_key(t) <==> m2.contains_key(t) by {
        if has_thumbprint(s2, t) {
            let k = choose|k: int| 0 <= k < s2.len() && #[trigger] s2[k].thumbprint == t;
            assert(s[k].thumbprint == t);
            assert(has_thumbprint(s, t));
        }
        if has_thumbprint(s, t) {
            let k = choose|k: int| 0 <= k < s.len() && #[trigger] s[k].thumbprint == t;
            assert(s2[k].thumbprint == t);
            assert(has_thumbprint(s2, t));
        }
        if t == v.thumbprint {
            assert(s2[i] == v);
            assert(has_thumbprint(s2, t));
        }
    }
    assert forall|t: Seq<char>| m1.contains_key(t) implies m1[t] == m2[t] by {
        let k = choose|k: int| 0 <= k < s2.len() && #[trigger] s2[k].thumbprint == t;
        lemma_lookup(s2, k);
        if k == i {
            assert(s2[k] == v);
        } else {
            assert(s[k] == s2[k]);
            lemma_lookup(s, k);
        }
    }
    assert(m1 =~= m2);
}

proof fn lemma_remove(s: Seq<KeyView>, i: int)
    requires
        distinct_thumbprints(s),
        0 <= i < s.len(),
    ensures
        distinct_thumbprints(s.remove(i)),
        seq_to_map(s.remove(i)) == seq_to_map(s).remove(s[i].thumbprint),
{
    let s2 = s.remove(i);
    let t0 = s[i].thumbprint;
    assert forall|k: int| 0 <= k < s2.len() implies #[trigger] s2[k] == (if k < i { s[k] } else { s[k + 1] }) by {}
    assert forall|a: int, b: int|
        #![trigger s2[a], s2[b]]
        0 <= a < s2.len() && 0 <= b < s2.len() && a != b implies s2[a].thumbprint != s2[b].thumbprint by {
        let a1 = if a < i { a } else { a + 1 };
        let b1 = if b < i { b } else { b + 1 };
        assert(s2[a] == s[a1] && s2[b] == s[b1]);
        assert(s[a1].thumbprint != s[b1].thumbprint);
    }
    let m1 = seq_to_map(s2);
    let m2 = seq_to_map(s).remove(t0);
    assert forall|t: Seq<char>| m1.contains_key(t) <==> m2.contains_key(t) by {
        if has_thumbprint(s2, t) {
            let k = choose|k: int| 0 <= k < s2.len() && #[trigger] s2[k].thumbprint == t;
            let k1 = if k < i { k } else { k + 1 };
            assert(s[k1] == s2[k]);
            assert(has_thumbprint(s, t));
            assert(s[k1].thumbprint != s[i].thumbprint);
        }
        if has_thumbprint(s, t) && t != t0 {
            let k = choose|k: int| 0 <= k < s.len() && #[trigger] s[k].thumbprint == t;
            assert(k != i);
            let k2 = if k < i { k } else { k - 1 };
            assert(s2[k2] == s[k]);
            assert(has_thumbprint(s2, t));
        }
    }
    assert forall|t: Seq<char>| m1.contains_key(t) implies m1[t] == m2[t] by {
        let k = choose|k: int| 0 <= k < s2.len() && #[trigger] s2[k].thumbprint == t;
        lemma_lookup(s2, k);
        let k1 = if k < i { k } else { k + 1 };
        assert(s[k1] == s2[k]);
        lemma_lookup(s, k1);
    }
    assert(m1 =~= m2);
}

/// A map of keys by thumbprint, each key under its own thumbprint.
pub struct KeyMap {
    entries: Vec<KeyWithMetadata>,
}

impl KeyMap {
    /// The views of the entries, in storage order.
    pub closed spec fn entry_views(&self) -> Seq<KeyView> {
        self.entries@.map_values(|k: KeyWithMetadata| k@)
    }

    /// The map is well formed: no thumbprint is stored twice.
    pub closed spec fn wf(&self) -> bool {
        distinct_thumbprints(self.entry_views())
    }

    pub closed spec fn spec_view(&self) -> Map<Seq<char>, KeyView> {
        seq_to_map(self.entry_views())
    }

    /// Every key of a well-formed map is stored under its own thumbprint.
    pub proof fn lemma_keyed_by_thumbprint(&self, t: Seq<char>)
        requires
            self.wf(),
            self@.contains_key(t),
        ensures
            self@[t].thumbprint == t,
    {
        let s = self.entry_views();
        let k = choose|k: int| 0 <= k < s.len() && #[trigger] s[k].thumbprint == t;
        lemma_lookup(s, k);
    }

    /// An empty map.
    pub fn new() -> (r: KeyMap)
        ensures
            r.wf(),
            r@ == Map::<Seq<char>, KeyView>::empty(),
    {
        let r = KeyMap { entries: Vec::new() };
        assert(r@ =~= Map::<Seq<char>, KeyView>::empty());
        r
    }

    fn find(&self, thumbprint: &str) -> (r: Option<usize>)
        ensures
            match r {
                Some(i) => i < self.entries@.len() && self.entry_views()[i as int].thumbprint == thumbprint@,
                None => !has_thumbprint(self.entry_views(), thumbprint@),
            },
    {
        let mut i: usize = 0;
        while i < self.entries.len()
            invariant
                i <= self.entries@.len(),
                forall|j: int| 0 <= j < i ==> #[trigger] self.entry_views()[j].thumbprint != thumbprint@,
            decreases self.entries@.len() - i,
        {
            if str_equal(self.entries[i].thumbprint.as_str(), thumbprint) {
                return Some(i);
            }
            i = i + 1;
        }
        None
    }

    /// Whether a key with this thumbprint is stored.
    pub fn contains_key(&self, thumbprint: &str) -> (r: bool)
        requires
            self.wf(),
        ensures
            r == self@.contains_key(thumbprint@),
    {
        self.find(thumbprint).is_some()
    }

    /// The key stored under this thumbprint, if any.
    pub fn get(&self, thumbprint: &str) -> (r: Option<&KeyWithMetadata>)
        requires
            self.wf(),
        ensures
            match r {
                Some(k) => self@.contains_key(thumbprint@) && k@ == self@[thumbprint@],
                None => !self@.contains_key(thumbprint@),
            },
    {
        match self.find(thumbprint) {
            Some(i) => {
                proof {
                    lemma_lookup(self.entry_views(), i as int);
                }
                Some(&self.entries[i])
            },
            None => None,
        }
    }

    /// Stores a key under its thumbprint, replacing the key stored there before.
    pub fn insert(&mut self, key: KeyWithMetadata)
        requires
            old(self).wf(),
        ensures
            final(self).wf(),
            final(self)@ == old(self)@.insert(key.thumbprint@, key@),
    {
        let ghost s = self.entry_views();
        match self.find(key.thumbprint.as_str()) {
            Some(i) => {
                proof {
                    lemma_update(s, i as int, key@);
                }
                self.entries.set(i, key);
                assert(self.entry_views() =~= s.update(i as int, key@));
            },
            None => {
                proof {
                    lemma_push(s, key@);
                }
                self.entries.push(key);
                assert(self.entry_views() =~= s.push(key@));
            },
        }
    }

    /// Removes the key stored under this thumbprint, if any.
    pub fn remove(&mut self, thumbprint: &str)
        requires
            old(self).wf(),
        ensures
            final(self).wf(),
            final(self)@ == old(self)@.remove(thumbprint@),
    {
        let ghost s = self.entry_views();
        match self.find(thumbprint) {
            Some(i) => {
                proof {
                    lemma_remove(s, i as int);
                }
                self.entries.remove(i);
                assert(self.entry_views() =~= s.remove(i as int));
            },
            None => {
                assert(self@ =~= old(self)@.remove(thumbprint@));
            },
        }
    }

    /// Sets the advertisement state of the key stored under this thumbprint.
    pub fn set_advertise(&mut self, thumbprint: &str, advertise: bool)
        requires
            old(self).wf(),
            old(self)@.contains_key(thumbprint@),
        ensures
            final(self).wf(),
            final(self)@ == old(self)@.insert(thumbprint@, with_advertise(old(self)@[thumbprint@], advertise)),
    {
        let ghost s = self.entry_views();
        match self.find(thumbprint) {
            Some(i) => {
                let mut k = self.entries.remove(i);
                k.advertise = advertise;
                proof {
                    lemma_lookup(s, i as int);
                    lemma_update(s, i as int, k@);
                }
                self.entries.insert(i, k);
                assert(self.entry_views() =~= s.update(i as int, k@));
            },
            None => {},
        }
    }

    /// A copy of this map.
    pub fn duplicate(&self) -> (r: KeyMap)
        requires
            self.wf(),
        ensures
            r.wf(),
            r@ == self@,
    {
        let mut out: Vec<KeyWithMetadata> = Vec::new();
        let mut i: usize = 0;
        while i < self.entries.len()
            invariant
                i <= self.entries@.len(),
                out@.len() == i,
                forall|j: int| 0 <= j < i ==> #[trigger] out@[j]@ == self.entries@[j]@,
            decreases self.entries@.len() - i,
        {
            out.push(self.entries[i].duplicate());
            i = i + 1;
        }
        let r = KeyMap { entries: out };
        assert(r.entry_views() =~= self.entry_views());
        r
    }

    /// The stored keys, in storage order: each is stored under its own thumbprint, and
    /// every stored key is among them.
    pub fn entries(&self) -> (r: &Vec<KeyWithMetadata>)
        requires
            self.wf(),
        ensures
            forall|i: int| 0 <= i < r@.len() ==> self@.contains_key(#[trigger] r@[i].thumbprint@)
                && self@[r@[i].thumbprint@] == r@[i]@,
            forall|t: Seq<char>| #[trigger] self@.contains_key(t) ==> exists|i: int| 0 <= i < r@.len() && r@[i].thumbprint@ == t,
            forall|i: int, j: int| 0 <= i < r@.len() && 0 <= j < r@.len() && i != j ==> r@[i].thumbprint@ != r@[j].thumbprint@,
    {
        let ghost s = self.entry_views();
        assert forall|i: int| 0 <= i < self.entries@.len() implies self@.contains_key(#[trigger] self.entries@[i].thumbprint@)
                && self@[self.entries@[i].thumbprint@] == self.entries@[i]@ by {
            assert(s[i] == self.entries@[i]@);
            lemma_lookup(s, i);
        }
        assert forall|t: Seq<char>| #[trigger] self@.contains_key(t) implies exists|i: int| 0 <= i < self.entries@.len() && self.entries@[i].thumbprint@ == t by {
            let k = choose|k: int| 0 <= k < s.len() && #[trigger] s[k].thumbprint == t;
            assert(s[k] == self.entries@[k]@);
        }
        assert forall|i: int, j: int| 0 <= i < self.entries@.len() && 0 <= j < self.entries@.len() && i != j implies
            self.entries@[i].thumbprint@ != self.entries@[j].thumbprint@ by {
            assert(s[i] == self.entries@[i]@ && s[j] == self.entries@[j]@);
        }
        &self.entries
    }
}

impl View for KeyMap {
    type V = Map<Seq<char>, KeyView>;

    closed spec fn view(&self) -> Map<Seq<char>, KeyView> {
        self.spec_view()
    }
}

} // verus!
