use std::collections::HashSet;
use tldr_keystore::backend::dir::{
    advertised_file_name, file_name_starts_with_dot, is_key_file, unadvertised_file_name, DirBackend, DirEntry,
    KeyFiles, KeyRole, Rename,
};
use tldr_keystore::error::{ErrorKind, StoreError};
use tldr_keystore::jwk::MyJwkEcKey;

fn ec_key(x: &str) -> MyJwkEcKey {
    MyJwkEcKey {
        crv: "P-256".to_string(),
        x: x.to_string(),
        y: "yy".to_string(),
        d: Some("dd".to_string()),
        kty: "EC".to_string(),
        key_use: None,
        key_ops: vec![],
        alg: Some("ES256".to_string()),
        kid: None,
        x5u: None,
        x5c: None,
        x5t: None,
        x5t_s256: None,
    }
}

const NONE: KeyFiles = KeyFiles { advertised: false, unadvertised: false };
const ADV: KeyFiles = KeyFiles { advertised: true, unadvertised: false };
const UNADV: KeyFiles = KeyFiles { advertised: false, unadvertised: true };
const BOTH: KeyFiles = KeyFiles { advertised: true, unadvertised: true };

fn files_in(dir: &HashSet<String>, t: &str) -> KeyFiles {
    KeyFiles { advertised: dir.contains(&format!("{t}.jwk")), unadvertised: dir.contains(&format!(".{t}.jwk")) }
}

fn apply(dir: &mut HashSet<String>, plan: &[Rename]) {
    for r in plan {
        assert!(dir.remove(&r.from), "rename source {} is missing", r.from);
        dir.insert(r.to.clone());
    }
}

#[test]
fn new_reports_a_missing_directory() {
    let r = DirBackend::new("/keys".to_string(), false, false);
    let e = r.err().unwrap();
    assert_eq!(e, StoreError::DatabaseMissing("/keys".to_string()));
    assert_eq!(e.kind(), ErrorKind::NotFound);
}

#[test]
fn new_reports_a_path_that_is_not_a_directory() {
    let e = DirBackend::new("/keys".to_string(), true, false).err().unwrap();
    assert_eq!(e, StoreError::NotADirectory("/keys".to_string()));
    assert_eq!(e.kind(), ErrorKind::Unsupported);
}

#[test]
fn new_accepts_a_directory() {
    let b = DirBackend::new("/keys".to_string(), true, true).ok().unwrap();
    assert_eq!(b.path(), "/keys");
    assert_eq!(b.check_database(true, true), Ok(()));
    assert_eq!(b.check_database(false, false), Err(StoreError::DatabaseMissing("/keys".to_string())));
    assert_eq!(b.check_database(true, false), Err(StoreError::NotADirectory("/keys".to_string())));
    assert_eq!(b.check_directory(false), Err(StoreError::NotADirectory("/keys".to_string())));
    assert_eq!(b.check_directory(true), Ok(()));
}

#[test]
fn key_file_names() {
    assert_eq!(advertised_file_name("abc"), "abc.jwk");
    assert_eq!(unadvertised_file_name("abc"), ".abc.jwk");
}

#[test]
fn key_files_are_those_with_the_jwk_extension() {
    assert!(is_key_file("abc.jwk"));
    assert!(is_key_file(".abc.jwk"));
    assert!(is_key_file("a.b.jwk"));
    assert!(!is_key_file(".jwk"));
    assert!(!is_key_file("jwk"));
    assert!(!is_key_file("abc.json"));
    assert!(!is_key_file("abc.jwk.bak"));
    assert!(!is_key_file("abc."));
    assert!(!is_key_file(".."));
    assert!(!is_key_file(""));
    assert!(file_name_starts_with_dot(".a"));
    assert!(!file_name_starts_with_dot("a."));
}

#[test]
fn collect_keys_reads_key_files_and_marks_dot_files_unadvertised() {
    let a = ec_key("a");
    let b = ec_key("b");
    let c = ec_key("c");
    let entries = vec![
        DirEntry { file_name: format!("{}.jwk", a.thumbprint()), key: Some(a.clone()) },
        DirEntry { file_name: format!(".{}.jwk", b.thumbprint()), key: Some(b.clone()) },
        DirEntry { file_name: "notes.txt".to_string(), key: Some(c.clone()) },
        DirEntry { file_name: "broken.jwk".to_string(), key: None },
    ];
    let m = DirBackend::collect_keys(&entries);
    assert_eq!(m.entries().len(), 2);
    let ka = m.get(&a.thumbprint()).unwrap();
    assert_eq!(ka.jwk, a);
    assert!(ka.advertise);
    let kb = m.get(&b.thumbprint()).unwrap();
    assert!(!kb.advertise);
    assert!(m.get(&c.thumbprint()).is_none());
}

#[test]
fn collect_keys_keeps_the_later_entry_of_a_thumbprint() {
    let a = ec_key("a");
    let entries = vec![
        DirEntry { file_name: "x.jwk".to_string(), key: Some(a.clone()) },
        DirEntry { file_name: ".x.jwk".to_string(), key: Some(a.clone()) },
    ];
    let m = DirBackend::collect_keys(&entries);
    assert_eq!(m.entries().len(), 1);
    assert!(!m.get(&a.thumbprint()).unwrap().advertise);
}

#[test]
fn choose_key_file_prefers_the_advertised_file() {
    assert_eq!(DirBackend::choose_key_file("t", true, true), Ok(true));
    assert_eq!(DirBackend::choose_key_file("t", true, false), Ok(true));
    assert_eq!(DirBackend::choose_key_file("t", false, true), Ok(false));
    let e = DirBackend::choose_key_file("t", false, false).unwrap_err();
    assert_eq!(e, StoreError::NoKeyFound("t".to_string()));
    assert_eq!(e.kind(), ErrorKind::NotFound);
}

#[test]
fn key_from_file_sets_the_advertisement_state() {
    let a = ec_key("a");
    let k = DirBackend::key_from_file(true, Ok(a.clone())).unwrap().unwrap();
    assert!(k.advertise);
    assert_eq!(k.thumbprint, a.thumbprint());
    let k = DirBackend::key_from_file(false, Ok(a.clone())).unwrap().unwrap();
    assert!(!k.advertise);
    let e = DirBackend::key_from_file(true, Err("bad json".to_string())).unwrap_err();
    assert_eq!(e, StoreError::UnparsableKey("bad json".to_string()));
    assert_eq!(e.kind(), ErrorKind::InvalidData);
}

#[test]
fn plan_store_writes_unadvertised_files() {
    let s = ec_key("s");
    let d = ec_key("d");
    let p = DirBackend::plan_store(&s, &d, NONE, NONE).ok().unwrap();
    assert_eq!(p.signing_file, format!(".{}.jwk", s.thumbprint()));
    assert_eq!(p.derive_file, format!(".{}.jwk", d.thumbprint()));
}

#[test]
fn plan_store_refuses_existing_keys() {
    let s = ec_key("s");
    let d = ec_key("d");
    let e = DirBackend::plan_store(&s, &d, UNADV, NONE).err().unwrap();
    assert_eq!(e, StoreError::SigningKeyExists(s.thumbprint()));
    assert_eq!(e.kind(), ErrorKind::AlreadyExists);
    let e = DirBackend::plan_store(&s, &d, ADV, BOTH).err().unwrap();
    assert_eq!(e, StoreError::SigningKeyExists(s.thumbprint()));
    let e = DirBackend::plan_store(&s, &d, NONE, ADV).err().unwrap();
    assert_eq!(e, StoreError::DeriveKeyExists(d.thumbprint()));
}

#[test]
fn plan_advertise_renames_only_unadvertised_keys() {
    let p = DirBackend::plan_advertise("s", "d", UNADV, ADV).ok().unwrap();
    assert_eq!(p.len(), 1);
    assert_eq!(p[0].from, ".s.jwk");
    assert_eq!(p[0].to, "s.jwk");
    let p = DirBackend::plan_advertise("s", "d", UNADV, UNADV).ok().unwrap();
    assert_eq!(p.len(), 2);
    assert_eq!(p[1].from, ".d.jwk");
    assert_eq!(p[1].to, "d.jwk");
    assert!(DirBackend::plan_advertise("s", "d", ADV, ADV).ok().unwrap().is_empty());
}

#[test]
fn plan_advertise_refusals() {
    let e = DirBackend::plan_advertise("s", "d", NONE, UNADV).err().unwrap();
    assert_eq!(e, StoreError::NoKeysFound("s".to_string()));
    assert_eq!(e.kind(), ErrorKind::NotFound);
    let e = DirBackend::plan_advertise("s", "d", UNADV, BOTH).err().unwrap();
    assert_eq!(e, StoreError::AdvertisedAndUnadvertised("d".to_string()));
    assert_eq!(e.kind(), ErrorKind::InvalidData);
    let e = DirBackend::plan_advertise("../s", "d", UNADV, UNADV).err().unwrap();
    assert_eq!(e, StoreError::InvalidThumbprint("../s".to_string()));
    let e = DirBackend::plan_advertise("s", "", UNADV, UNADV).err().unwrap();
    assert_eq!(e, StoreError::InvalidThumbprint(String::new()));
}

#[test]
fn plan_unadvertise_renames_only_advertised_keys() {
    let p = DirBackend::plan_unadvertise("s", "d", ADV, UNADV).ok().unwrap();
    assert_eq!(p.len(), 1);
    assert_eq!(p[0].from, "s.jwk");
    assert_eq!(p[0].to, ".s.jwk");
    assert_eq!(
        DirBackend::plan_unadvertise("s", "d", BOTH, UNADV).err().unwrap(),
        StoreError::AdvertisedAndUnadvertised("s".to_string())
    );
    assert_eq!(
        DirBackend::plan_unadvertise("s", "d", ADV, NONE).err().unwrap(),
        StoreError::NoKeysFound("d".to_string())
    );
}

#[test]
fn advertise_then_unadvertise_restores_the_directory() {
    let s = ec_key("s").thumbprint();
    let d = ec_key("d").thumbprint();
    let mut dir: HashSet<String> =
        [format!(".{s}.jwk"), format!(".{d}.jwk"), "other.jwk".to_string()].into_iter().collect();
    let original = dir.clone();
    let plan = DirBackend::plan_advertise(&s, &d, files_in(&dir, &s), files_in(&dir, &d)).ok().unwrap();
    apply(&mut dir, &plan);
    assert_eq!(files_in(&dir, &s), ADV);
    assert_eq!(files_in(&dir, &d), ADV);
    assert!(dir.contains("other.jwk"));
    let plan = DirBackend::plan_unadvertise(&s, &d, files_in(&dir, &s), files_in(&dir, &d)).ok().unwrap();
    apply(&mut dir, &plan);
    assert_eq!(dir, original);
}

#[test]
fn store_then_advertise_on_a_directory() {
    let sk = ec_key("s");
    let dk = ec_key("d");
    let (s, d) = (sk.thumbprint(), dk.thumbprint());
    let mut dir: HashSet<String> = HashSet::new();
    let plan = DirBackend::plan_store(&sk, &dk, files_in(&dir, &s), files_in(&dir, &d)).ok().unwrap();
    dir.insert(plan.signing_file);
    dir.insert(plan.derive_file);
    let renames = DirBackend::plan_advertise(&s, &d, files_in(&dir, &s), files_in(&dir, &d)).ok().unwrap();
    assert_eq!(renames.len(), 2);
}

#[test]
fn plan_delete_removes_unadvertised_files() {
    let s = ec_key("s");
    let d = ec_key("d");
    let p = DirBackend::plan_delete(&s.thumbprint(), &d.thumbprint(), UNADV, NONE).ok().unwrap();
    assert_eq!(p.signing_file, Some(format!(".{}.jwk", s.thumbprint())));
    assert_eq!(p.derive_file, None);
}

#[test]
fn plan_delete_refuses_advertised_keys() {
    let s = ec_key("s");
    let d = ec_key("d");
    let e = DirBackend::plan_delete(&s.thumbprint(), &d.thumbprint(), ADV, UNADV).err().unwrap();
    assert_eq!(e, StoreError::SigningKeyAdvertised(s.thumbprint()));
    assert_eq!(e.kind(), ErrorKind::InvalidInput);
    let e = DirBackend::plan_delete(&s.thumbprint(), &d.thumbprint(), UNADV, BOTH).err().unwrap();
    assert_eq!(e, StoreError::DeriveKeyAdvertised(d.thumbprint()));
    let e = DirBackend::plan_delete("a.b", &d.thumbprint(), UNADV, BOTH).err().unwrap();
    assert_eq!(e, StoreError::InvalidThumbprint("a.b".to_string()));
}

#[test]
fn confirm_in_store_compares_whole_components() {
    let base: Vec<String> = vec!["/".into(), "keys".into()];
    let inside: Vec<String> = vec!["/".into(), "keys".into(), ".t.jwk".into()];
    let sibling: Vec<String> = vec!["/".into(), "keys2".into(), ".t.jwk".into()];
    let short: Vec<String> = vec!["/".into()];
    assert_eq!(DirBackend::confirm_in_store(KeyRole::Signing, "t", &base, &inside), Ok(()));
    let e = DirBackend::confirm_in_store(KeyRole::Signing, "t", &base, &sibling).unwrap_err();
    assert_eq!(e, StoreError::SigningKeyOutsideStore("t".to_string()));
    assert_eq!(e.kind(), ErrorKind::InvalidInput);
    assert_eq!(
        DirBackend::confirm_in_store(KeyRole::Derive, "t", &base, &short),
        Err(StoreError::DeriveKeyOutsideStore("t".to_string()))
    );
}

#[test]
fn listing_agrees_with_lookup_before_and_after_advertising() {
    let sk = ec_key("s");
    let dk = ec_key("d");
    let (s, d) = (sk.thumbprint(), dk.thumbprint());
    let mut dir: HashSet<String> = HashSet::new();
    let plan = DirBackend::plan_store(&sk, &dk, files_in(&dir, &s), files_in(&dir, &d)).ok().unwrap();
    dir.insert(plan.signing_file.clone());
    dir.insert(plan.derive_file.clone());
    let listing = |dir: &HashSet<String>| {
        let entries: Vec<DirEntry> = dir
            .iter()
            .map(|name| DirEntry {
                file_name: name.clone(),
                key: Some(if name.contains(&s) { sk.clone() } else { dk.clone() }),
            })
            .collect();
        DirBackend::collect_keys(&entries)
    };
    let before = listing(&dir);
    assert!(!before.get(&s).unwrap().advertise && !before.get(&d).unwrap().advertise);
    let f = files_in(&dir, &s);
    let use_advertised = DirBackend::choose_key_file(&s, f.advertised, f.unadvertised).unwrap();
    let looked_up = DirBackend::key_from_file(use_advertised, Ok(sk.clone())).unwrap().unwrap();
    assert_eq!(&looked_up, before.get(&s).unwrap());
    let renames = DirBackend::plan_advertise(&s, &d, files_in(&dir, &s), files_in(&dir, &d)).ok().unwrap();
    apply(&mut dir, &renames);
    let after = listing(&dir);
    assert!(after.get(&s).unwrap().advertise && after.get(&d).unwrap().advertise);
    let again = DirBackend::plan_advertise(&s, &d, files_in(&dir, &s), files_in(&dir, &d)).ok().unwrap();
    assert!(again.is_empty());
}

#[test]
fn advertising_twice_renames_nothing() {
    let s = ec_key("s").thumbprint();
    let d = ec_key("d").thumbprint();
    let mut dir: HashSet<String> = [format!(".{s}.jwk"), format!(".{d}.jwk")].into_iter().collect();
    let plan = DirBackend::plan_advertise(&s, &d, files_in(&dir, &s), files_in(&dir, &d)).ok().unwrap();
    apply(&mut dir, &plan);
    let after_first = dir.clone();
    let plan = DirBackend::plan_advertise(&s, &d, files_in(&dir, &s), files_in(&dir, &d)).ok().unwrap();
    assert!(plan.is_empty());
    assert_eq!(dir, after_first);

    // The same key given twice: once it is advertised, a request renames nothing.
    let dir: HashSet<String> = [format!("{s}.jwk")].into_iter().collect();
    let plan = DirBackend::plan_advertise(&s, &s, files_in(&dir, &s), files_in(&dir, &s)).ok().unwrap();
    assert!(plan.is_empty());
    // While it is unadvertised, the plan moves the one file twice, and the second move finds
    // nothing to rename.
    let dir: HashSet<String> = [format!(".{s}.jwk")].into_iter().collect();
    let plan = DirBackend::plan_advertise(&s, &s, files_in(&dir, &s), files_in(&dir, &s)).ok().unwrap();
    assert_eq!(plan.len(), 2);
    assert_eq!(plan[0].from, plan[1].from);
}
