use tldr_keystore::backend::vec::VecBackend;
use tldr_keystore::error::{ErrorKind, StoreError};
use tldr_keystore::jwk::MyJwkEcKey;
use tldr_keystore::keys::{KeyMap, KeyWithMetadata};

fn ec_key(x: &str, d: Option<&str>) -> MyJwkEcKey {
    MyJwkEcKey {
        crv: "P-256".to_string(),
        x: x.to_string(),
        y: "yy".to_string(),
        d: d.map(|s| s.to_string()),
        kty: "EC".to_string(),
        key_use: None,
        key_ops: vec![],
        alg: Some("ES256".to_string()),
        kid: None,
        x5u: None,
        x5c: None,
        x5t: None,
        x5t_s256: None,
    }
}

fn sorted_thumbprints(m: &KeyMap) -> Vec<String> {
    let mut v: Vec<String> = m.entries().iter().map(|k| k.thumbprint.clone()).collect();
    v.sort();
    v
}

#[test]
fn from_stores_each_key_unadvertised_under_its_thumbprint() {
    let a = ec_key("a", None);
    let b = ec_key("b", None);
    let store = VecBackend::from(vec![a.clone(), b.clone()]);
    let got = store.get_key(&a.thumbprint()).unwrap().unwrap();
    assert_eq!(got, KeyWithMetadata { thumbprint: a.thumbprint(), advertise: false, jwk: a });
    let got = store.get_key(&b.thumbprint()).unwrap().unwrap();
    assert!(!got.advertise);
    assert_eq!(got.jwk, b);
}

#[test]
fn from_keeps_the_later_of_two_keys_with_one_thumbprint() {
    let first = ec_key("a", Some("first"));
    let second = ec_key("a", Some("second"));
    let store = VecBackend::from(vec![first.clone(), second.clone()]);
    let all = store.get_all_keys().unwrap();
    assert_eq!(all.entries().len(), 1);
    assert_eq!(store.get_key(&first.thumbprint()).unwrap().unwrap().jwk, second);
}

#[test]
fn get_key_of_missing_thumbprint_is_not_found_error() {
    let store = VecBackend::from(vec![ec_key("a", None)]);
    let r = store.get_key("missing");
    assert_eq!(r, Err(StoreError::ThumbprintNotFound));
    assert_eq!(r.unwrap_err().kind(), ErrorKind::NotFound);
}

#[test]
fn get_all_keys_returns_every_key() {
    let a = ec_key("a", None);
    let b = ec_key("b", None);
    let store = VecBackend::from(vec![a.clone(), b.clone()]);
    let all = store.get_all_keys().unwrap();
    let mut expected = vec![a.thumbprint(), b.thumbprint()];
    expected.sort();
    assert_eq!(sorted_thumbprints(&all), expected);
    assert!(all.contains_key(&a.thumbprint()));
}

#[test]
fn store_then_get_gives_back_both_keys_unadvertised() {
    let mut store = VecBackend::from(vec![]);
    let s = ec_key("s", None);
    let d = ec_key("d", None);
    assert_eq!(store.store_keys(s.clone(), d.clone()), Ok(()));
    let gs = store.get_key(&s.thumbprint()).unwrap().unwrap();
    let gd = store.get_key(&d.thumbprint()).unwrap().unwrap();
    assert_eq!(gs.jwk, s);
    assert_eq!(gd.jwk, d);
    assert!(!gs.advertise && !gd.advertise);
}

#[test]
fn advertise_then_unadvertise_toggles_both_keys() {
    let s = ec_key("s", None);
    let d = ec_key("d", None);
    let other = ec_key("o", None);
    let mut store = VecBackend::from(vec![s.clone(), d.clone(), other.clone()]);
    let (ts, td) = (s.thumbprint(), d.thumbprint());
    assert_eq!(store.advertise_keys(&ts, &td), Ok(()));
    assert!(store.get_key(&ts).unwrap().unwrap().advertise);
    assert!(store.get_key(&td).unwrap().unwrap().advertise);
    assert!(!store.get_key(&other.thumbprint()).unwrap().unwrap().advertise);
    assert_eq!(store.unadvertise_keys(&ts, &td), Ok(()));
    assert!(!store.get_key(&ts).unwrap().unwrap().advertise);
    assert!(!store.get_key(&td).unwrap().unwrap().advertise);
}

#[test]
fn advertise_with_missing_signing_key_changes_nothing() {
    let d = ec_key("d", None);
    let mut store = VecBackend::from(vec![d.clone()]);
    let r = store.advertise_keys("nope", &d.thumbprint());
    assert_eq!(r, Err(StoreError::SigningKeyNotFound));
    assert_eq!(r.unwrap_err().kind(), ErrorKind::Other);
    assert!(!store.get_key(&d.thumbprint()).unwrap().unwrap().advertise);
}

#[test]
fn advertise_with_missing_derive_key_changes_nothing() {
    let s = ec_key("s", None);
    let mut store = VecBackend::from(vec![s.clone()]);
    let r = store.advertise_keys(&s.thumbprint(), "nope");
    assert_eq!(r, Err(StoreError::DeriveKeyNotFound));
    assert!(!store.get_key(&s.thumbprint()).unwrap().unwrap().advertise);
}

#[test]
fn unadvertise_with_missing_keys_is_refused() {
    let s = ec_key("s", None);
    let mut store = VecBackend::from(vec![s.clone()]);
    assert_eq!(store.unadvertise_keys("x", "y"), Err(StoreError::SigningKeyNotFound));
    assert_eq!(store.unadvertise_keys(&s.thumbprint(), "y"), Err(StoreError::DeriveKeyNotFound));
}

#[test]
fn delete_removes_both_keys_and_keeps_others() {
    let s = ec_key("s", None);
    let d = ec_key("d", None);
    let other = ec_key("o", None);
    let mut store = VecBackend::from(vec![s.clone(), d.clone(), other.clone()]);
    assert_eq!(store.delete_keys(&s.thumbprint(), &d.thumbprint()), Ok(()));
    assert_eq!(store.get_key(&s.thumbprint()), Err(StoreError::ThumbprintNotFound));
    assert_eq!(store.get_key(&d.thumbprint()), Err(StoreError::ThumbprintNotFound));
    assert_eq!(store.get_key(&other.thumbprint()).unwrap().unwrap().jwk, other);
}

#[test]
fn delete_with_a_missing_key_changes_nothing() {
    let s = ec_key("s", None);
    let mut store = VecBackend::from(vec![s.clone()]);
    assert_eq!(store.delete_keys(&s.thumbprint(), "gone"), Err(StoreError::DeriveKeyNotFound));
    assert!(store.get_key(&s.thumbprint()).is_ok());
    assert_eq!(store.delete_keys("gone", &s.thumbprint()), Err(StoreError::SigningKeyNotFound));
    assert!(store.get_key(&s.thumbprint()).is_ok());
}

#[test]
fn store_then_advertise_succeeds() {
    let mut store = VecBackend::from(vec![]);
    let s = ec_key("s", None);
    let d = ec_key("d", None);
    store.store_keys(s.clone(), d.clone()).unwrap();
    assert_eq!(store.advertise_keys(&s.thumbprint(), &d.thumbprint()), Ok(()));
}

#[test]
fn key_map_insert_replaces_and_remove_deletes() {
    let mut m = KeyMap::new();
    let a = KeyWithMetadata::from(ec_key("a", None));
    m.insert(a.clone());
    let mut a2 = a.clone();
    a2.advertise = true;
    m.insert(a2.clone());
    assert_eq!(m.entries().len(), 1);
    assert_eq!(m.get(&a.thumbprint), Some(&a2));
    m.set_advertise(&a.thumbprint, false);
    assert_eq!(m.get(&a.thumbprint), Some(&a));
    m.remove(&a.thumbprint);
    assert!(m.get(&a.thumbprint).is_none());
    assert_eq!(m.duplicate().entries().len(), 0);
}

#[test]
fn advertised_keys_are_not_deleted() {
    let s = ec_key("s", None);
    let d = ec_key("d", None);
    let mut store = VecBackend::from(vec![s.clone(), d.clone()]);
    let (ts, td) = (s.thumbprint(), d.thumbprint());
    store.advertise_keys(&ts, &td).unwrap();
    let e = store.delete_keys(&ts, &td).unwrap_err();
    assert_eq!(e, StoreError::SigningKeyAdvertised(ts.clone()));
    assert_eq!(e.kind(), ErrorKind::InvalidInput);
    assert!(store.get_key(&ts).is_ok() && store.get_key(&td).is_ok());
    store.unadvertise_keys(&ts, &td).unwrap();
    assert_eq!(store.delete_keys(&ts, &td), Ok(()));
}

#[test]
fn advertised_derive_key_is_not_deleted() {
    let s = ec_key("s", None);
    let d = ec_key("d", None);
    let other = ec_key("o", None);
    let mut store = VecBackend::from(vec![s.clone(), d.clone(), other.clone()]);
    store.advertise_keys(&other.thumbprint(), &d.thumbprint()).unwrap();
    assert_eq!(
        store.delete_keys(&s.thumbprint(), &d.thumbprint()),
        Err(StoreError::DeriveKeyAdvertised(d.thumbprint()))
    );
    assert!(store.get_key(&s.thumbprint()).is_ok());
}
