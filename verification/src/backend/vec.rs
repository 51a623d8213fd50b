//! Ephemeral in-memory backend that keeps the keys in a map by thumbprint.
use vstd::prelude::*;
use crate::error::{StoreError, StoreErrorView};
use crate::jwk::{JwkView, MyJwkEcKey, spec_thumbprint};
use crate::keys::{KeyMap, KeyView, KeyWithMetadata, spec_metadata, with_advertise};

verus! {

/// The keys of a list, each under its thumbprint; a later key replaces an earlier one
/// with the same thumbprint.
pub open spec fn spec_keys_from(s: Seq<JwkView>) -> Map<Seq<char>, KeyView>
    decreases s.len(),
{
    if s.len() == 0 {
        Map::empty()
    } else {
        spec_keys_from(s.drop_last()).insert(spec_thumbprint(s.last()), spec_metadata(s.last()))
    }
}

/// The store after a signing key and then a derive key were stored, each unadvertised.
pub open spec fn spec_store(m: Map<Seq<char>, KeyView>, signing: JwkView, derive: JwkView) -> Map<Seq<char>, KeyView> {
    m.insert(spec_thumbprint(signing), spec_metadata(signing)).insert(spec_thumbprint(derive), spec_metadata(derive))
}

/// The outcome of setting the advertisement state of a pair of keys: both must be present.
pub open spec fn spec_set_advertise(
    m: Map<Seq<char>, KeyView>,
    signing: Seq<char>,
    derive: Seq<char>,
    advertise: bool,
) -> Result<Map<Seq<char>, KeyView>, StoreError> {
    if !m.contains_key(signing) {
        Err(StoreError::SigningKeyNotFound)
    } else if !m.contains_key(derive) {
        Err(StoreError::DeriveKeyNotFound)
    } else {
        let m1 = m.insert(signing, with_advertise(m[signing], advertise));
        Ok(m1.insert(derive, with_advertise(m1[derive], advertise)))
    }
}

/// The outcome of deleting a pair of keys: both must be present, and neither advertised.
pub open spec fn spec_delete(
    m: Map<Seq<char>, KeyView>,
    signing: Seq<char>,
    derive: Seq<char>,
) -> Result<Map<Seq<char>, KeyView>, StoreErrorView> {
    if !m.contains_key(signing) {
        Err(StoreErrorView::SigningKeyNotFound)
    } else if !m.contains_key(derive) {
        Err(StoreErrorView::DeriveKeyNotFound)
    } else if m[signing].advertise {
        Err(StoreErrorView::SigningKeyAdvertised(signing))
    } else if m[derive].advertise {
        Err(StoreErrorView::DeriveKeyAdvertised(derive))
    } else {
        Ok(m.remove(signing).remove(derive))
    }
}

/// After a pair of keys is stored, the derive key is found under its thumbprint, and so is
/// the signing key when the two thumbprints differ; both are unadvertised, and every other
/// entry is unchanged.
pub proof fn law_store_then_lookup(m: Map<Seq<char>, KeyView>, signing: JwkView, derive: JwkView, t: Seq<char>)
    ensures
        spec_store(m, signing, derive).contains_key(spec_thumbprint(derive)),
        spec_store(m, signing, derive)[spec_thumbprint(derive)] == spec_metadata(derive),
        !spec_store(m, signing, derive)[spec_thumbprint(derive)].advertise,
        spec_thumbprint(signing) != spec_thumbprint(derive) ==> spec_store(m, signing, derive).contains_key(spec_thumbprint(signing))
            && spec_store(m, signing, derive)[spec_thumbprint(signing)] == spec_metadata(signing),
        t != spec_thumbprint(signing) && t != spec_thumbprint(derive) ==> (spec_store(m, signing, derive).contains_key(t)
            <==> m.contains_key(t)) && (m.contains_key(t) ==> spec_store(m, signing, derive)[t] == m[t]),
{
}

/// Setting the advertisement state of a pair succeeds exactly when both keys are present;
/// it then sets the state of both, keeps the set of thumbprints, and changes nothing else.
pub proof fn law_set_advertise(m: Map<Seq<char>, KeyView>, signing: Seq<char>, derive: Seq<char>, advertise: bool, t: Seq<char>)
    ensures
        spec_set_advertise(m, signing, derive, advertise) is Ok <==> m.contains_key(signing) && m.contains_key(derive),
        spec_set_advertise(m, signing, derive, advertise) matches Ok(m2) ==> {
            &&& m2.dom() == m.dom()
            &&& m2[signing] == with_advertise(m[signing], advertise)
            &&& m2[derive] == with_advertise(m[derive], advertise)
            &&& (t != signing && t != derive && m.contains_key(t) ==> m2[t] == m[t])
        },
{
    if let Ok(m2) = spec_set_advertise(m, signing, derive, advertise) {
        assert(m2.dom() =~= m.dom());
    }
}

/// Unadvertising a pair of unadvertised keys right after advertising them gives back the
/// store as it was.
pub proof fn law_unadvertise_undoes_advertise(m: Map<Seq<char>, KeyView>, signing: Seq<char>, derive: Seq<char>)
    requires
        m.contains_key(signing),
        m.contains_key(derive),
        !m[signing].advertise,
        !m[derive].advertise,
    ensures
        spec_set_advertise(m, signing, derive, true) matches Ok(m2)
            && spec_set_advertise(m2, signing, derive, false) == Ok::<Map<Seq<char>, KeyView>, StoreError>(m),
{
    let m2 = spec_set_advertise(m, signing, derive, true)->Ok_0;
    let m3 = spec_set_advertise(m2, signing, derive, false)->Ok_0;
    assert(m3 =~= m);
}

/// A pair of freshly stored keys can be advertised.
pub proof fn law_store_then_advertise(m: Map<Seq<char>, KeyView>, signing: JwkView, derive: JwkView, advertise: bool)
    ensures
        spec_set_advertise(spec_store(m, signing, derive), spec_thumbprint(signing), spec_thumbprint(derive), advertise) is Ok,
{
}

/// Deleting a pair succeeds exactly when both keys are present and neither is advertised;
/// the keys are then gone and every other entry is unchanged.
pub proof fn law_delete(m: Map<Seq<char>, KeyView>, signing: Seq<char>, derive: Seq<char>, t: Seq<char>)
    ensures
        spec_delete(m, signing, derive) is Ok <==> m.contains_key(signing) && m.contains_key(derive)
            && !m[signing].advertise && !m[derive].advertise,
        spec_delete(m, signing, derive) matches Ok(m2) ==> {
            &&& !m2.contains_key(signing)
            &&& !m2.contains_key(derive)
            &&& (t != signing && t != derive ==> (m2.contains_key(t) <==> m.contains_key(t)) && (m.contains_key(t) ==> m2[t] == m[t]))
        },
{
}

/// An advertised key cannot be deleted: it must be unadvertised first.
pub proof fn law_advertised_keys_are_not_deleted(m: Map<Seq<char>, KeyView>, signing: Seq<char>, derive: Seq<char>)
    requires
        m.contains_key(signing),
        m.contains_key(derive),
    ensures
        spec_set_advertise(m, signing, derive, true) matches Ok(m2) && spec_delete(m2, signing, derive) is Err,
        spec_set_advertise(m, signing, derive, true) matches Ok(m2) && spec_set_advertise(m2, signing, derive, false) matches Ok(m3)
            && spec_delete(m3, signing, derive) is Ok,
{
}

/// A store made from a list of keys holds each key under its own thumbprint, unadvertised,
/// and holds exactly the thumbprints of the list.
pub proof fn law_keys_from(s: Seq<JwkView>, t: Seq<char>)
    ensures
        spec_keys_from(s).contains_key(t) <==> exists|i: int| 0 <= i < s.len() && spec_thumbprint(#[trigger] s[i]) == t,
        spec_keys_from(s).contains_key(t) ==> spec_keys_from(s)[t].thumbprint == t && !spec_keys_from(s)[t].advertise,
    decreases s.len(),
{
    if s.len() > 0 {
        law_keys_from(s.drop_last(), t);
        let p = s.drop_last();
        if exists|i: int| 0 <= i < p.len() && spec_thumbprint(#[trigger] p[i]) == t {
            let i = choose|i: int| 0 <= i < p.len() && spec_thumbprint(#[trigger] p[i]) == t;
            assert(s[i] == p[i]);
        }
        if exists|i: int| 0 <= i < s.len() && spec_thumbprint(#[trigger] s[i]) == t {
            let i = choose|i: int| 0 <= i < s.len() && spec_thumbprint(#[trigger] s[i]) == t;
            if i < s.len() - 1 {
                assert(p[i] == s[i]);
            }
        }
    }
}

/// An in-memory key store.
pub struct VecBackend {
    keys: KeyMap,
}

impl View for VecBackend {
    type V = Map<Seq<char>, KeyView>;

    closed spec fn view(&self) -> Map<Seq<char>, KeyView> {
        self.keys@
    }
}

impl VecBackend {
    /// The store's map is well formed.
    pub closed spec fn wf(&self) -> bool {
        self.keys.wf()
    }

    /// A store of the given keys, none of them advertised.
    pub fn from(keys: Vec<MyJwkEcKey>) -> (r: VecBackend)
        ensures
            r.wf(),
            r@ == spec_keys_from(keys@.map_values(|k: MyJwkEcKey| k@)),
    {
        let ghost views = keys@.map_values(|k: MyJwkEcKey| k@);
        let n = keys.len();
        // The keys are reversed, then popped and inserted front to back, so that a later key
        // replaces an earlier one.
        let mut pending = keys;
        let mut reversed: Vec<MyJwkEcKey> = Vec::new();
        while pending.len() > 0
            invariant
                reversed@.len() + pending@.len() == n,
                n == views.len(),
                forall|j: int| 0 <= j < pending@.len() ==> #[trigger] pending@[j]@ == views[j],
                forall|j: int| 0 <= j < reversed@.len() ==> #[trigger] reversed@[j]@ == views[n - 1 - j],
            decreases pending@.len(),
        {
            let k = pending.pop().unwrap();
            reversed.push(k);
        }
        let mut map = KeyMap::new();
        let mut i: usize = 0;
        while reversed.len() > 0
            invariant
                i + reversed@.len() == n,
                n == views.len(),
                forall|j: int| 0 <= j < reversed@.len() ==> #[trigger] reversed@[j]@ == views[n - 1 - j],
                map.wf(),
                map@ == spec_keys_from(views.subrange(0, i as int)),
            decreases reversed@.len(),
        {
            let k = reversed.pop().unwrap();
            proof {
                assert(views.subrange(0, i + 1).drop_last() =~= views.subrange(0, i as int));
                assert(views.subrange(0, i + 1).last() == views[i as int]);
            }
            map.insert(KeyWithMetadata::from(k));
            i = i + 1;
        }
        assert(views.subrange(0, n as int) =~= views);
        VecBackend { keys: map }
    }

    /// The stored keys.
    pub fn keys(&self) -> (r: &KeyMap)
        ensures
            r@ == self@,
            self.wf() ==> r.wf(),
    {
        &self.keys
    }

    /// A copy of all stored keys. It never fails.
    pub fn get_all_keys(&self) -> (r: Result<KeyMap, StoreError>)
        requires
            self.wf(),
        ensures
            r matches Ok(m) && m.wf() && m@ == self@,
    {
        Ok(self.keys.duplicate())
    }

    /// The key with this thumbprint; a missing key is an error, not `None`.
    pub fn get_key(&self, thumbprint: &str) -> (r: Result<Option<KeyWithMetadata>, StoreError>)
        requires
            self.wf(),
        ensures
            self@.contains_key(thumbprint@) ==> (r matches Ok(Some(k)) && k@ == self@[thumbprint@]),
            !self@.contains_key(thumbprint@) ==> r == Err::<Option<KeyWithMetadata>, StoreError>(StoreError::ThumbprintNotFound),
    {
        match self.keys.get(thumbprint) {
            Some(k) => Ok(Some(k.duplicate())),
            None => Err(StoreError::ThumbprintNotFound),
        }
    }

    /// Stores a signing key and a derive key, both unadvertised. It never fails.
    pub fn store_keys(&mut self, signing_key: MyJwkEcKey, derive_key: MyJwkEcKey) -> (r: Result<(), StoreError>)
        requires
            old(self).wf(),
        ensures
            final(self).wf(),
            r is Ok,
            final(self)@ == spec_store(old(self)@, signing_key@, derive_key@),
    {
        let signing = KeyWithMetadata::from(signing_key);
        self.keys.insert(signing);
        let derive = KeyWithMetadata::from(derive_key);
        self.keys.insert(derive);
        Ok(())
    }

    fn set_advertise_pair(&mut self, signing_thumbprint: &str, derive_thumbprint: &str, advertise: bool) -> (r: Result<(), StoreError>)
        requires
            old(self).wf(),
        ensures
            final(self).wf(),
            match spec_set_advertise(old(self)@, signing_thumbprint@, derive_thumbprint@, advertise) {
                Ok(m) => r is Ok && final(self)@ == m,
                Err(e) => r == Err::<(), StoreError>(e) && final(self)@ == old(self)@,
            },
    {
        if !self.keys.contains_key(signing_thumbprint) {
            return Err(StoreError::SigningKeyNotFound);
        }
        if !self.keys.contains_key(derive_thumbprint) {
            return Err(StoreError::DeriveKeyNotFound);
        }
        self.keys.set_advertise(signing_thumbprint, advertise);
        self.keys.set_advertise(derive_thumbprint, advertise);
        Ok(())
    }

    /// Marks a pair of keys as advertised. Both must be present; otherwise nothing changes.
    pub fn advertise_keys(&mut self, signing_thumbprint: &str, derive_thumbprint: &str) -> (r: Result<(), StoreError>)
        requires
            old(self).wf(),
        ensures
            final(self).wf(),
            match spec_set_advertise(old(self)@, signing_thumbprint@, derive_thumbprint@, true) {
                Ok(m) => r is Ok && final(self)@ == m,
                Err(e) => r == Err::<(), StoreError>(e) && final(self)@ == old(self)@,
            },
    {
        self.set_advertise_pair(signing_thumbprint, derive_thumbprint, true)
    }

    /// Marks a pair of keys as not advertised. Both must be present; otherwise nothing changes.
    pub fn unadvertise_keys(&mut self, signing_thumbprint: &str, derive_thumbprint: &str) -> (r: Result<(), StoreError>)
        requires
            old(self).wf(),
        ensures
            final(self).wf(),
            match spec_set_advertise(old(self)@, signing_thumbprint@, derive_thumbprint@, false) {
                Ok(m) => r is Ok && final(self)@ == m,
                Err(e) => r == Err::<(), StoreError>(e) && final(self)@ == old(self)@,
            },
    {
        self.set_advertise_pair(signing_thumbprint, derive_thumbprint, false)
    }

    /// Deletes a pair of keys. Both must be present and neither advertised; otherwise
    /// nothing changes.
    pub fn delete_keys(&mut self, signing_thumbprint: &str, derive_thumbprint: &str) -> (r: Result<(), StoreError>)
        requires
            old(self).wf(),
        ensures
            final(self).wf(),
            match spec_delete(old(self)@, signing_thumbprint@, derive_thumbprint@) {
                Ok(m) => r is Ok && final(self)@ == m,
                Err(e) => (r matches Err(x) && x@ == e) && final(self)@ == old(self)@,
            },
    {
        let advertised = match self.keys.get(signing_thumbprint) {
            Some(k) => k.advertise,
            None => return Err(StoreError::SigningKeyNotFound),
        };
        let derive_advertised = match self.keys.get(derive_thumbprint) {
            Some(k) => k.advertise,
            None => return Err(StoreError::DeriveKeyNotFound),
        };
        if advertised {
            return Err(StoreError::SigningKeyAdvertised(signing_thumbprint.to_owned()));
        }
        if derive_advertised {
            return Err(StoreError::DeriveKeyAdvertised(derive_thumbprint.to_owned()));
        }
        self.keys.remove(signing_thumbprint);
        self.keys.remove(derive_thumbprint);
        Ok(())
    }
}

} // verus!
