use tldr_keystore::backend::{Backend, DirProbe};
use tldr_keystore::url_access::UrlParts;
use tldr_keystore::error::{ErrorKind, StoreError};

fn no_dir() -> DirProbe {
    DirProbe { exists: false, is_dir: false }
}

fn backend_for(url: &str) -> Result<Backend, StoreError> {
    Backend::for_url(&UrlParts::parse(url).unwrap(), no_dir())
}

#[test]
fn schemes_choose_their_backends() {
    assert!(matches!(backend_for("env://"), Ok(Backend::Env)));
    assert!(matches!(backend_for("sqlite:///tmp/db"), Ok(Backend::Sqlite)));
    assert!(matches!(backend_for("postgres://server/table"), Ok(Backend::Postgres)));
    assert!(matches!(backend_for("mssql://server/table"), Ok(Backend::MsSqlServer)));
    assert!(matches!(backend_for("dynamodb://table-name"), Ok(Backend::DynamoDb)));
    assert!(matches!(backend_for("asm://secret"), Ok(Backend::AwsSecretsManager)));
}

#[test]
fn scheme_case_does_not_matter() {
    assert!(matches!(backend_for("ENV://"), Ok(Backend::Env)));
}

#[test]
fn unknown_scheme_is_invalid_input() {
    let e = backend_for("ftp://host").err().unwrap();
    assert_eq!(e, StoreError::UnknownScheme("ftp".to_string()));
    assert_eq!(e.kind(), ErrorKind::InvalidInput);
}

#[test]
fn file_scheme_checks_the_directory() {
    let url = UrlParts::parse("file:///keys").unwrap();
    let e = Backend::for_url(&url, no_dir()).err().unwrap();
    assert_eq!(e, StoreError::DatabaseMissing("/keys".to_string()));
    let probe = DirProbe { exists: true, is_dir: false };
    assert_eq!(Backend::for_url(&url, probe).err(), Some(StoreError::NotADirectory("/keys".to_string())));
    let probe = DirProbe { exists: true, is_dir: true };
    match Backend::for_url(&url, probe) {
        Ok(Backend::Directory(b)) => assert_eq!(b.path(), "/keys"),
        _ => panic!("expected a directory backend"),
    }
}

#[test]
fn for_scheme_without_url() {
    assert!(matches!(Backend::for_scheme("env", "", no_dir()), Ok(Backend::Env)));
    let parts = UrlParts { scheme: "asm".into(), path: String::new(), query: None, host: None, port: None };
    assert!(matches!(Backend::for_url(&parts, no_dir()), Ok(Backend::AwsSecretsManager)));
    assert_eq!(Backend::for_scheme("Env", "", no_dir()).err(), Some(StoreError::UnknownScheme("Env".to_string())));
}

#[test]
fn unknown_scheme_message() {
    let e = backend_for("https://example.com/keys").err().unwrap();
    assert_eq!(e.kind(), ErrorKind::InvalidInput);
    assert_eq!(e.message(), "Unknown backend scheme: https");
}

#[test]
fn file_url_selects_the_directory_at_its_path() {
    let url = UrlParts::parse("file:///path/to/dir").unwrap();
    match Backend::for_url(&url, DirProbe { exists: true, is_dir: true }) {
        Ok(Backend::Directory(b)) => assert_eq!(b.path(), "/path/to/dir"),
        _ => panic!("expected a directory backend"),
    }
    let e = Backend::for_url(&url, DirProbe { exists: false, is_dir: false }).err().unwrap();
    assert_eq!(e.kind(), ErrorKind::NotFound);
    assert_eq!(e.message(), "Key database \"/path/to/dir\" does not exist");
    let e = Backend::for_url(&url, DirProbe { exists: true, is_dir: false }).err().unwrap();
    assert_eq!(e.kind(), ErrorKind::Unsupported);
    assert_eq!(e.message(), "Key database \"/path/to/dir\" is not a directory");
}
