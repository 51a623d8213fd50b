use base64ct::Encoding;
use sha2::Digest;
use tldr_keystore::error::{ErrorKind, StoreError};
use tldr_keystore::jwk::{validate_thumbprint, MyJwkEcKey};

fn ec_key(x: &str, y: &str, d: Option<&str>) -> MyJwkEcKey {
    MyJwkEcKey {
        crv: "P-256".to_string(),
        x: x.to_string(),
        y: y.to_string(),
        d: d.map(|s| s.to_string()),
        kty: "EC".to_string(),
        key_use: Some("sig".to_string()),
        key_ops: vec!["sign".to_string(), "verify".to_string()],
        alg: Some("ES256".to_string()),
        kid: None,
        x5u: None,
        x5c: None,
        x5t: None,
        x5t_s256: None,
    }
}

#[test]
fn thumbprint_input_is_the_canonical_json_of_the_required_members() {
    let k = ec_key("XX", "YY", Some("DD"));
    assert_eq!(k.thumbprint_input(), r#"{"crv":"P-256","kty":"EC","x":"XX","y":"YY"}"#);
}

#[test]
fn thumbprint_is_base64url_of_sha256_of_canonical_json() {
    let k = ec_key(
        "f83OJ3D2xF1Bg8vub9tLe1gHMzV76e8Tus9uPHvRVEU",
        "x_FEzRu9m36HLN_tue659LNpXW6pCyStikYjKIWI5a0",
        None,
    );
    let json = r#"{"crv":"P-256","kty":"EC","x":"f83OJ3D2xF1Bg8vub9tLe1gHMzV76e8Tus9uPHvRVEU","y":"x_FEzRu9m36HLN_tue659LNpXW6pCyStikYjKIWI5a0"}"#;
    let digest = sha2::Sha256::digest(json.as_bytes());
    let expected = base64ct::Base64UrlUnpadded::encode_string(&digest);
    let t = k.thumbprint();
    assert_eq!(t, expected);
    assert_ne!(t, json);
}

#[test]
fn sha256_of_abc_gives_known_thumbprint_text() {
    // The thumbprint encoding of the SHA-256 digest of "abc".
    let digest = sha2::Sha256::digest(b"abc");
    assert_eq!(
        base64ct::Base64UrlUnpadded::encode_string(&digest),
        "ungWv48Bz-pBQUDeXa4iI7ADYaOWF3qctBD_YfIAFa0"
    );
}

#[test]
fn thumbprint_is_43_url_safe_characters_and_valid() {
    let k = ec_key("a", "b", None);
    let t = k.thumbprint();
    assert_eq!(t.chars().count(), 43);
    assert!(t.chars().all(|c| c.is_ascii_alphanumeric() || c == '-' || c == '_'));
    assert_eq!(validate_thumbprint(&t), Ok(()));
}

#[test]
fn thumbprint_ignores_private_and_optional_members() {
    let a = ec_key("a", "b", None);
    let mut b = ec_key("a", "b", Some("secret"));
    b.kid = Some("kid-1".to_string());
    b.key_ops = vec![];
    assert_eq!(a.thumbprint(), b.thumbprint());
}

#[test]
fn thumbprint_depends_on_coordinates() {
    assert_ne!(ec_key("a", "b", None).thumbprint(), ec_key("a", "c", None).thumbprint());
    assert_ne!(ec_key("a", "b", None).thumbprint(), ec_key("b", "b", None).thumbprint());
}

#[test]
fn validate_thumbprint_rejects_empty() {
    let r = validate_thumbprint("");
    assert_eq!(r, Err(StoreError::InvalidThumbprint(String::new())));
    assert_eq!(r.unwrap_err().kind(), ErrorKind::InvalidInput);
}

#[test]
fn validate_thumbprint_rejects_path_characters() {
    assert_eq!(
        validate_thumbprint("../etc"),
        Err(StoreError::InvalidThumbprint("../etc".to_string()))
    );
    assert_eq!(
        validate_thumbprint("a/b"),
        Err(StoreError::InvalidThumbprint("a/b".to_string()))
    );
    assert_eq!(
        validate_thumbprint("ab=="),
        Err(StoreError::InvalidThumbprint("ab==".to_string()))
    );
}

#[test]
fn validate_thumbprint_accepts_url_safe_base64() {
    assert_eq!(validate_thumbprint("aZ09-_"), Ok(()));
}

#[test]
fn duplicate_copies_a_key() {
    let k = ec_key("a", "b", Some("d"));
    assert_eq!(k.duplicate(), k);
}

#[test]
fn thumbprint_input_escapes_values_as_json_does() {
    let k = ec_key("a\"b\\c/d", "\n\u{1}\u{1f}\t\u{7f}é", None);
    let expected = format!(
        r#"{{"crv":"P-256","kty":"EC","x":{},"y":{}}}"#,
        serde_json::to_string("a\"b\\c/d").unwrap(),
        serde_json::to_string("\n\u{1}\u{1f}\t\u{7f}é").unwrap()
    );
    assert_eq!(k.thumbprint_input(), expected);
    assert_eq!(
        k.thumbprint_input(),
        "{\"crv\":\"P-256\",\"kty\":\"EC\",\"x\":\"a\\\"b\\\\c/d\",\"y\":\"\\n\\u0001\\u001f\\t\u{7f}é\"}"
    );
}
