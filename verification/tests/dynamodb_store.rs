use tldr_keystore::backend::dynamodb::{
    check_lookup_thumbprint, key_from_item, keys_from_items, AttrItem, AttrValue, DescribeOutcome, DynamoDbConfig,
    Field, ItemError, TableAction,
};
use tldr_keystore::error::{ErrorKind, StoreError};
use tldr_keystore::jwk::MyJwkEcKey;
use tldr_keystore::url_access::UrlParts;

fn full_key() -> MyJwkEcKey {
    MyJwkEcKey {
        crv: "P-256".to_string(),
        x: "xx".to_string(),
        y: "yy".to_string(),
        d: Some("dd".to_string()),
        kty: "EC".to_string(),
        key_use: Some("sig".to_string()),
        key_ops: vec!["sign".to_string(), "verify".to_string()],
        alg: Some("ES256".to_string()),
        kid: Some("kid-1".to_string()),
        x5u: None,
        x5c: None,
        x5t: None,
        x5t_s256: None,
    }
}

fn item(entries: &[(&str, AttrValue)]) -> AttrItem {
    AttrItem { entries: entries.iter().map(|(k, v)| (k.to_string(), v.clone())).collect() }
}

fn s(v: &str) -> AttrValue {
    AttrValue::S(v.to_string())
}

fn minimal_item() -> Vec<(&'static str, AttrValue)> {
    vec![("crv", s("P-256")), ("x", s("xx")), ("y", s("yy")), ("kty", s("EC")), ("alg", s("ES256"))]
}

#[test]
fn item_roundtrip_gives_back_the_key() {
    let k = full_key();
    let it = k.clone().into();
    assert_eq!(MyJwkEcKey::try_from(&it), Ok(k));
}

#[test]
fn item_holds_thumbprint_and_null_markers() {
    let k = full_key();
    let t = k.thumbprint();
    let it = k.into();
    assert_eq!(it.get("thumbprint"), Some(&AttrValue::S(t)));
    assert_eq!(it.get("x5u"), Some(&AttrValue::Null(true)));
    assert_eq!(it.get("key_ops"), Some(&AttrValue::Ss(vec!["sign".to_string(), "verify".to_string()])));
    assert_eq!(it.entries.len(), 14);
}

#[test]
fn item_of_a_public_key_does_not_decode() {
    let mut k = full_key();
    k.d = None;
    let it = k.into();
    assert_eq!(MyJwkEcKey::try_from(&it), Err(ItemError::NotString(Field::D)));
}

#[test]
fn minimal_item_decodes_with_defaults() {
    let k = MyJwkEcKey::try_from(&item(&minimal_item())).unwrap();
    assert_eq!(k.d, None);
    assert_eq!(k.key_use, None);
    assert!(k.key_ops.is_empty());
    assert_eq!(k.alg, Some("ES256".to_string()));
    assert_eq!(k.kid, None);
}

#[test]
fn missing_required_members_are_reported_in_order() {
    assert_eq!(MyJwkEcKey::try_from(&item(&[])), Err(ItemError::Missing(Field::Crv)));
    assert_eq!(MyJwkEcKey::try_from(&item(&[("crv", s("P-256"))])), Err(ItemError::Missing(Field::X)));
    let mut m = minimal_item();
    m.retain(|(k, _)| *k != "alg");
    assert_eq!(MyJwkEcKey::try_from(&item(&m)), Err(ItemError::Missing(Field::Alg)));
    let mut m = minimal_item();
    m.retain(|(k, _)| *k != "kty");
    assert_eq!(MyJwkEcKey::try_from(&item(&m)), Err(ItemError::Missing(Field::Kty)));
}

#[test]
fn wrongly_typed_members_are_reported() {
    let mut m = minimal_item();
    m[0] = ("crv", AttrValue::Other);
    assert_eq!(MyJwkEcKey::try_from(&item(&m)), Err(ItemError::NotString(Field::Crv)));
    let mut m = minimal_item();
    m.push(("key_ops", s("sign")));
    assert_eq!(MyJwkEcKey::try_from(&item(&m)), Err(ItemError::NotStringSet(Field::KeyOps)));
    let mut m = minimal_item();
    m.push(("use", AttrValue::Null(false)));
    assert_eq!(MyJwkEcKey::try_from(&item(&m)), Err(ItemError::NotString(Field::Use)));
    let mut m = minimal_item();
    m[4] = ("alg", AttrValue::Null(true));
    assert_eq!(MyJwkEcKey::try_from(&item(&m)), Err(ItemError::NotString(Field::Alg)));
}

#[test]
fn null_optional_members_decode_as_absent_and_key_ops_as_a_set() {
    let mut m = minimal_item();
    m.push(("use", AttrValue::Null(true)));
    m.push(("kid", AttrValue::Null(true)));
    m.push(("x5t_s256", s("thumb")));
    m.push(("key_ops", AttrValue::Ss(vec!["sign".into(), "verify".into(), "sign".into()])));
    let k = MyJwkEcKey::try_from(&item(&m)).unwrap();
    assert_eq!(k.key_use, None);
    assert_eq!(k.kid, None);
    assert_eq!(k.x5t_s256, Some("thumb".to_string()));
    assert_eq!(k.key_ops, vec!["sign".to_string(), "verify".to_string()]);
}

#[test]
fn config_defaults() {
    let none: Vec<(String, String)> = vec![];
    let c = DynamoDbConfig::from_parts("dynamodb", "", &none, None, None).ok().unwrap();
    assert_eq!(c.table, "tldr-keys");
    assert_eq!(c.endpoint_url, None);
    let c = DynamoDbConfig::from_parts("dynamodb", "", &none, Some("table-name".into()), None).ok().unwrap();
    assert_eq!(c.table, "table-name");
    assert_eq!(c.endpoint_url, None);
    let c = DynamoDbConfig::from_parts("dynamodb", "/", &none, Some("table-name".into()), None).ok().unwrap();
    assert_eq!(c.table, "tldr-keys");
    assert_eq!(c.endpoint_url, Some("https://table-name".to_string()));
    let c = DynamoDbConfig::from_parts("dynamodb", "", &none, Some(String::new()), None).ok().unwrap();
    assert_eq!(c.table, "tldr-keys");
    assert_eq!(c.endpoint_url, Some("https://".to_string()));
    let c = DynamoDbConfig::from_parts("dynamodb", "/", &none, Some("localhost".into()), Some(8000)).ok().unwrap();
    assert_eq!(c.table, "tldr-keys");
    assert_eq!(c.endpoint_url, Some("https://localhost:8000".to_string()));
}

#[test]
fn config_reads_table_host_port_and_insecure_flag() {
    let pairs = vec![("other".to_string(), "1".to_string()), ("insecure".to_string(), "TrUe".to_string())];
    let c = DynamoDbConfig::from_parts("DynamoDB", "/keys/more", &pairs, Some("localhost".into()), Some(8000)).ok().unwrap();
    assert_eq!(c.table, "keys");
    assert_eq!(c.endpoint_url, Some("http://localhost:8000".to_string()));
    let pairs = vec![("insecure".to_string(), "no".to_string()), ("insecure".to_string(), "true".to_string())];
    let c = DynamoDbConfig::from_parts("dynamodb", "/t", &pairs, Some("h".into()), Some(65535)).ok().unwrap();
    assert_eq!(c.endpoint_url, Some("https://h:65535".to_string()));
    let c = DynamoDbConfig::from_parts("dynamodb", "/t", &pairs, Some("h".into()), Some(0)).ok().unwrap();
    assert_eq!(c.endpoint_url, Some("https://h:0".to_string()));
}

#[test]
fn config_refuses_other_schemes() {
    let none: Vec<(String, String)> = vec![];
    let e = DynamoDbConfig::from_parts("https", "/t", &none, None, None).err().unwrap();
    assert_eq!(e, StoreError::SchemeNotDynamoDb);
    assert_eq!(e.kind(), ErrorKind::InvalidInput);
}

#[test]
fn config_from_url() {
    let url = UrlParts::parse("dynamodb://localhost:8000/mytable?insecure=tru%65").unwrap();
    let c = DynamoDbConfig::from_url(&url).ok().unwrap();
    assert_eq!(c.table, "mytable");
    assert_eq!(c.endpoint_url, Some("http://localhost:8000".to_string()));
    let url = UrlParts::parse("dynamodb://table-name").unwrap();
    let c = DynamoDbConfig::from_url(&url).ok().unwrap();
    assert_eq!(c.table, "table-name");
    assert_eq!(c.endpoint_url, None);
    let url = UrlParts::parse("dynamodb://localhost:8000/keys").unwrap();
    let c = DynamoDbConfig::from_url(&url).ok().unwrap();
    assert_eq!(c.table, "keys");
    assert_eq!(c.endpoint_url, Some("https://localhost:8000".to_string()));
    let url = UrlParts::parse("dynamodb://localhost:8000/?insecure=true").unwrap();
    let c = DynamoDbConfig::from_url(&url).ok().unwrap();
    assert_eq!(c.table, "tldr-keys");
    assert_eq!(c.endpoint_url, Some("http://localhost:8000".to_string()));
    let url = UrlParts::parse("dynamodb://localhost:8000").unwrap();
    let c = DynamoDbConfig::from_url(&url).ok().unwrap();
    assert_eq!(c.table, "tldr-keys");
    assert_eq!(c.endpoint_url, Some("https://localhost:8000".to_string()));
    let url = UrlParts::parse("dynamodb://table-name/").unwrap();
    let c = DynamoDbConfig::from_url(&url).ok().unwrap();
    assert_eq!(c.table, "tldr-keys");
    assert_eq!(c.endpoint_url, Some("https://table-name".to_string()));
    let url = UrlParts::parse("file:///tmp").unwrap();
    assert_eq!(DynamoDbConfig::from_url(&url).err(), Some(StoreError::SchemeNotDynamoDb));
}

#[test]
fn table_actions() {
    let none: Vec<(String, String)> = vec![];
    let c = DynamoDbConfig::from_parts("dynamodb", "/t", &none, None, None).ok().unwrap();
    assert_eq!(c.table_action(DescribeOutcome::Found), Ok(TableAction::UseExisting));
    assert_eq!(c.table_action(DescribeOutcome::NotFound), Ok(TableAction::Create));
    assert_eq!(
        c.table_action(DescribeOutcome::ServiceError("boom".into())),
        Err(StoreError::TableLookupFailed { table: "t".into(), message: "boom".into() })
    );
    assert_eq!(
        c.table_action(DescribeOutcome::DispatchFailure("down".into())),
        Err(StoreError::ConnectFailure("down".into()))
    );
    let e = c.table_action(DescribeOutcome::OtherFailure("odd".into())).unwrap_err();
    assert_eq!(e, StoreError::ServiceFailure("odd".into()));
    assert_eq!(e.kind(), ErrorKind::Other);
    let empty = DynamoDbConfig { table: String::new(), endpoint_url: None };
    assert_eq!(empty.table_action(DescribeOutcome::Found), Err(StoreError::EmptyTableName));
}

#[test]
fn scan_items_become_unadvertised_keys() {
    let k = full_key();
    let mut other = full_key();
    other.x = "other".into();
    let items = vec![k.clone().into(), other.clone().into()];
    let m = keys_from_items(&items).ok().unwrap();
    assert_eq!(m.entries().len(), 2);
    let got = m.get(&k.thumbprint()).unwrap();
    assert_eq!(got.jwk, k);
    assert!(!got.advertise);
}

#[test]
fn scan_with_an_undecodable_item_fails() {
    let items = vec![full_key().into(), item(&[])];
    let e = keys_from_items(&items).err().unwrap();
    assert_eq!(e, StoreError::UndecodableStoredKey);
    assert_eq!(e.kind(), ErrorKind::InvalidData);
}

#[test]
fn lookup_helpers() {
    assert_eq!(check_lookup_thumbprint(""), Err(StoreError::EmptyThumbprint));
    assert_eq!(check_lookup_thumbprint("t"), Ok(()));
    assert_eq!(key_from_item("t", None), Ok(None));
    let k = full_key();
    let got = key_from_item("t", Some(k.clone().into())).unwrap().unwrap();
    assert_eq!(got.jwk, k);
    assert_eq!(got.thumbprint, k.thumbprint());
    assert_eq!(key_from_item("t", Some(item(&[]))), Err(StoreError::UndecodableKey("t".to_string())));
}

#[test]
fn url_parts_of_a_url() {
    let p = UrlParts::parse("DynamoDB://LocalHost:8000/t/u?insecure=true#frag").unwrap();
    assert_eq!(
        p,
        UrlParts {
            scheme: "dynamodb".to_string(),
            path: "/t/u".to_string(),
            query: Some("insecure=true".to_string()),
            host: Some("LocalHost".to_string()),
            port: Some(8000),
        }
    );
    assert_eq!(UrlParts::parse("not a url"), None);
}
