//! Errors that the key stores report.
use vstd::prelude::*;

verus! {

/// The category of an error, in the terms of `std::io::ErrorKind`.
#[derive(Debug, Clone, Copy, PartialEq, Eq, Structural)]
pub enum ErrorKind {
    NotFound,
    InvalidInput,
    InvalidData,
    AlreadyExists,
    Unsupported,
    Other,
}

/// An error of a key store.
#[derive(Debug, Clone, PartialEq, Eq)]
pub enum StoreError {
    /// The in-memory store holds no key with the requested thumbprint.
    ThumbprintNotFound,
    /// The in-memory store holds no signing key with the given thumbprint.
    SigningKeyNotFound,
    /// The in-memory store holds no derive key with the given thumbprint.
    DeriveKeyNotFound,
    /// The URL names a scheme for which no backend exists.
    UnknownScheme(String),
    /// The key directory does not exist.
    DatabaseMissing(String),
    /// The key directory is not a directory.
    NotADirectory(String),
    /// No file holds the key with this thumbprint.
    NoKeyFound(String),
    /// A key file could not be parsed; the parser's message.
    UnparsableKey(String),
    /// A signing key with this thumbprint is already stored.
    SigningKeyExists(String),
    /// A derive key with this thumbprint is already stored.
    DeriveKeyExists(String),
    /// Neither an advertised nor an unadvertised file holds this key.
    NoKeysFound(String),
    /// This key is stored both advertised and unadvertised.
    AdvertisedAndUnadvertised(String),
    /// The thumbprint is not well-formed URL-safe Base64.
    InvalidThumbprint(String),
    /// The signing key with this thumbprint is advertised and will not be deleted.
    SigningKeyAdvertised(String),
    /// The derive key with this thumbprint is advertised and will not be deleted.
    DeriveKeyAdvertised(String),
    /// The file of the signing key with this thumbprint lies outside the key directory.
    SigningKeyOutsideStore(String),
    /// The file of the derive key with this thumbprint lies outside the key directory.
    DeriveKeyOutsideStore(String),
    /// A DynamoDB URL must have the `dynamodb` scheme.
    SchemeNotDynamoDb,
    /// Describing the table failed for another reason than its absence.
    TableLookupFailed { table: String, message: String },
    /// The DynamoDB service could not be reached.
    ConnectFailure(String),
    /// The DynamoDB service failed.
    ServiceFailure(String),
    /// The table name is empty.
    EmptyTableName,
    /// A key lookup was asked for an empty thumbprint.
    EmptyThumbprint,
    /// A stored item could not be decoded into a key.
    UndecodableStoredKey,
    /// The stored item of the key with this thumbprint could not be decoded.
    UndecodableKey(String),
}

/// The mathematical value of a [`StoreError`]: the same variant, with the characters of
/// each string.
pub enum StoreErrorView {
    ThumbprintNotFound,
    SigningKeyNotFound,
    DeriveKeyNotFound,
    UnknownScheme(Seq<char>),
    DatabaseMissing(Seq<char>),
    NotADirectory(Seq<char>),
    NoKeyFound(Seq<char>),
    UnparsableKey(Seq<char>),
    SigningKeyExists(Seq<char>),
    DeriveKeyExists(Seq<char>),
    NoKeysFound(Seq<char>),
    AdvertisedAndUnadvertised(Seq<char>),
    InvalidThumbprint(Seq<char>),
    SigningKeyAdvertised(Seq<char>),
    DeriveKeyAdvertised(Seq<char>),
    SigningKeyOutsideStore(Seq<char>),
    DeriveKeyOutsideStore(Seq<char>),
    SchemeNotDynamoDb,
    TableLookupFailed { table: Seq<char>, message: Seq<char> },
    ConnectFailure(Seq<char>),
    ServiceFailure(Seq<char>),
    EmptyTableName,
    EmptyThumbprint,
    UndecodableStoredKey,
    UndecodableKey(Seq<char>),
}

impl View for StoreError {
    type V = StoreErrorView;

    open spec fn view(&self) -> StoreErrorView {
        match self {
            StoreError::ThumbprintNotFound => StoreErrorView::ThumbprintNotFound,
            StoreError::SigningKeyNotFound => StoreErrorView::SigningKeyNotFound,
            StoreError::DeriveKeyNotFound => StoreErrorView::DeriveKeyNotFound,
            StoreError::UnknownScheme(s) => StoreErrorView::UnknownScheme(s@),
            StoreError::DatabaseMissing(s) => StoreErrorView::DatabaseMissing(s@),
            StoreError::NotADirectory(s) => StoreErrorView::NotADirectory(s@),
            StoreError::NoKeyFound(s) => StoreErrorView::NoKeyFound(s@),
            StoreError::UnparsableKey(s) => StoreErrorView::UnparsableKey(s@),
            StoreError::SigningKeyExists(s) => StoreErrorView::SigningKeyExists(s@),
            StoreError::DeriveKeyExists(s) => StoreErrorView::DeriveKeyExists(s@),
            StoreError::NoKeysFound(s) => StoreErrorView::NoKeysFound(s@),
            StoreError::AdvertisedAndUnadvertised(s) => StoreErrorView::AdvertisedAndUnadvertised(s@),
            StoreError::InvalidThumbprint(s) => StoreErrorView::InvalidThumbprint(s@),
            StoreError::SigningKeyAdvertised(s) => StoreErrorView::SigningKeyAdvertised(s@),
            StoreError::DeriveKeyAdvertised(s) => StoreErrorView::DeriveKeyAdvertised(s@),
            StoreError::SigningKeyOutsideStore(s) => StoreErrorView::SigningKeyOutsideStore(s@),
            StoreError::DeriveKeyOutsideStore(s) => StoreErrorView::DeriveKeyOutsideStore(s@),
            StoreError::SchemeNotDynamoDb => StoreErrorView::SchemeNotDynamoDb,
            StoreError::TableLookupFailed { table, message } => StoreErrorView::TableLookupFailed { table: table@, message: message@ },
            StoreError::ConnectFailure(s) => StoreErrorView::ConnectFailure(s@),
            StoreError::ServiceFailure(s) => StoreErrorView::ServiceFailure(s@),
            StoreError::EmptyTableName => StoreErrorView::EmptyTableName,
            StoreError::EmptyThumbprint => StoreErrorView::EmptyThumbprint,
            StoreError::UndecodableStoredKey => StoreErrorView::UndecodableStoredKey,
            StoreError::UndecodableKey(s) => StoreErrorView::UndecodableKey(s@),
        }
    }
}

/// The message of an error, as the stores word it.
pub open spec fn spec_message(e: StoreErrorView) -> Seq<char> {
    match e {
            StoreErrorView::ThumbprintNotFound => "Thumbprint not found."@,
            StoreErrorView::SigningKeyNotFound => "Signing Key for thumbprint not found"@,
            StoreErrorView::DeriveKeyNotFound => "Derive Key for thumbprint not found"@,
            StoreErrorView::UnknownScheme(s) => "Unknown backend scheme: "@ + s,
            StoreErrorView::DatabaseMissing(s) => "Key database \""@ + s + "\" does not exist"@,
            StoreErrorView::NotADirectory(s) => "Key database \""@ + s + "\" is not a directory"@,
            StoreErrorView::NoKeyFound(s) => "No key found for thumbprint "@ + s,
            StoreErrorView::UnparsableKey(s) => "Could not parse key: "@ + s,
            StoreErrorView::SigningKeyExists(s) => "Signing key already exists with thumbprint "@ + s,
            StoreErrorView::DeriveKeyExists(s) => "Derive key already exists with thumbprint "@ + s,
            StoreErrorView::NoKeysFound(s) => "No keys found for thumbprint "@ + s,
            StoreErrorView::AdvertisedAndUnadvertised(s) => "Key for thumbprint "@ + s + " is both advertised and unadvertised."@,
            StoreErrorView::InvalidThumbprint(s) => "Thumbprint "@ + s + " is not well-formed url-safe base64"@,
            StoreErrorView::SigningKeyAdvertised(s) => "Will not delete signing key with thumbprint "@ + s + " because it is currently advertised."@,
            StoreErrorView::DeriveKeyAdvertised(s) => "Will not delete derive key with thumbprint "@ + s + " because it is currently advertised."@,
            StoreErrorView::SigningKeyOutsideStore(s) => "Signing Key file "@ + s + " does not live in keystore."@,
            StoreErrorView::DeriveKeyOutsideStore(s) => "Derive Key file "@ + s + " does not live in keystore."@,
            StoreErrorView::SchemeNotDynamoDb => "Scheme must be dynamodb://"@,
            StoreErrorView::TableLookupFailed { table, message } => "Failure while looking up table "@ + table + ": "@ + message,
            StoreErrorView::ConnectFailure(s) => "Failed to connect to service: "@ + s,
            StoreErrorView::ServiceFailure(s) => "Service failure: "@ + s,
            StoreErrorView::EmptyTableName => "Table name is empty"@,
            StoreErrorView::EmptyThumbprint => "Key Thumbprint cannot be empty"@,
            StoreErrorView::UndecodableStoredKey => "Failed to deserialize key from database"@,
            StoreErrorView::UndecodableKey(s) => "Failed to deserialize key "@ + s + " from database"@,
    }
}

fn concat2(a: &str, b: &str) -> (r: String)
    ensures
        r@ == a@ + b@,
{
    let mut s = a.to_owned();
    s.append(b);
    s
}

fn concat3(a: &str, b: &str, c: &str) -> (r: String)
    ensures
        r@ == a@ + b@ + c@,
{
    let mut s = concat2(a, b);
    s.append(c);
    s
}

fn concat4(a: &str, b: &str, c: &str, d: &str) -> (r: String)
    ensures
        r@ == a@ + b@ + c@ + d@,
{
    let mut s = concat3(a, b, c);
    s.append(d);
    s
}

impl StoreError {
    pub open spec fn spec_kind(&self) -> ErrorKind {
        match self {
            StoreError::ThumbprintNotFound => ErrorKind::NotFound,
            StoreError::SigningKeyNotFound => ErrorKind::Other,
            StoreError::DeriveKeyNotFound => ErrorKind::Other,
            StoreError::UnknownScheme(_) => ErrorKind::InvalidInput,
            StoreError::DatabaseMissing(_) => ErrorKind::NotFound,
            StoreError::NotADirectory(_) => ErrorKind::Unsupported,
            StoreError::NoKeyFound(_) => ErrorKind::NotFound,
            StoreError::UnparsableKey(_) => ErrorKind::InvalidData,
            StoreError::SigningKeyExists(_) => ErrorKind::AlreadyExists,
            StoreError::DeriveKeyExists(_) => ErrorKind::AlreadyExists,
            StoreError::NoKeysFound(_) => ErrorKind::NotFound,
            StoreError::AdvertisedAndUnadvertised(_) => ErrorKind::InvalidData,
            StoreError::InvalidThumbprint(_) => ErrorKind::InvalidInput,
            StoreError::SigningKeyAdvertised(_) => ErrorKind::InvalidInput,
            StoreError::DeriveKeyAdvertised(_) => ErrorKind::InvalidInput,
            StoreError::SigningKeyOutsideStore(_) => ErrorKind::InvalidInput,
            StoreError::DeriveKeyOutsideStore(_) => ErrorKind::InvalidInput,
            StoreError::SchemeNotDynamoDb => ErrorKind::InvalidInput,
            StoreError::TableLookupFailed { .. } => ErrorKind::Other,
            StoreError::ConnectFailure(_) => ErrorKind::Other,
            StoreError::ServiceFailure(_) => ErrorKind::Other,
            StoreError::EmptyTableName => ErrorKind::InvalidInput,
            StoreError::EmptyThumbprint => ErrorKind::InvalidInput,
            StoreError::UndecodableStoredKey => ErrorKind::InvalidData,
            StoreError::UndecodableKey(_) => ErrorKind::InvalidData,
        }
    }

    /// The message of this error, as the stores word it.
    pub fn message(&self) -> (r: String)
        ensures
            r@ == spec_message(self@),
    {
        match self {
            StoreError::ThumbprintNotFound => "Thumbprint not found.".to_owned(),
            StoreError::SigningKeyNotFound => "Signing Key for thumbprint not found".to_owned(),
            StoreError::DeriveKeyNotFound => "Derive Key for thumbprint not found".to_owned(),
            StoreError::UnknownScheme(s) => concat2("Unknown backend scheme: ", s.as_str()),
            StoreError::DatabaseMissing(s) => concat3("Key database \"", s.as_str(), "\" does not exist"),
            StoreError::NotADirectory(s) => concat3("Key database \"", s.as_str(), "\" is not a directory"),
            StoreError::NoKeyFound(s) => concat2("No key found for thumbprint ", s.as_str()),
            StoreError::UnparsableKey(s) => concat2("Could not parse key: ", s.as_str()),
            StoreError::SigningKeyExists(s) => concat2("Signing key already exists with thumbprint ", s.as_str()),
            StoreError::DeriveKeyExists(s) => concat2("Derive key already exists with thumbprint ", s.as_str()),
            StoreError::NoKeysFound(s) => concat2("No keys found for thumbprint ", s.as_str()),
            StoreError::AdvertisedAndUnadvertised(s) => concat3("Key for thumbprint ", s.as_str(), " is both advertised and unadvertised."),
            StoreError::InvalidThumbprint(s) => concat3("Thumbprint ", s.as_str(), " is not well-formed url-safe base64"),
            StoreError::SigningKeyAdvertised(s) => concat3("Will not delete signing key with thumbprint ", s.as_str(), " because it is currently advertised."),
            StoreError::DeriveKeyAdvertised(s) => concat3("Will not delete derive key with thumbprint ", s.as_str(), " because it is currently advertised."),
            StoreError::SigningKeyOutsideStore(s) => concat3("Signing Key file ", s.as_str(), " does not live in keystore."),
            StoreError::DeriveKeyOutsideStore(s) => concat3("Derive Key file ", s.as_str(), " does not live in keystore."),
            StoreError::SchemeNotDynamoDb => "Scheme must be dynamodb://".to_owned(),
            StoreError::TableLookupFailed { table, message } => concat4("Failure while looking up table ", table.as_str(), ": ", message.as_str()),
            StoreError::ConnectFailure(s) => concat2("Failed to connect to service: ", s.as_str()),
            StoreError::ServiceFailure(s) => concat2("Service failure: ", s.as_str()),
            StoreError::EmptyTableName => "Table name is empty".to_owned(),
            StoreError::EmptyThumbprint => "Key Thumbprint cannot be empty".to_owned(),
            StoreError::UndecodableStoredKey => "Failed to deserialize key from database".to_owned(),
            StoreError::UndecodableKey(s) => concat3("Failed to deserialize key ", s.as_str(), " from database"),
        }
    }

    /// The category of this error.
    pub fn kind(&self) -> (r: ErrorKind)
        ensures
            r == self.spec_kind(),
    {
        match self {
            StoreError::ThumbprintNotFound => ErrorKind::NotFound,
            StoreError::SigningKeyNotFound => ErrorKind::Other,
            StoreError::DeriveKeyNotFound => ErrorKind::Other,
            StoreError::UnknownScheme(_) => ErrorKind::InvalidInput,
            StoreError::DatabaseMissing(_) => ErrorKind::NotFound,
            StoreError::NotADirectory(_) => ErrorKind::Unsupported,
            StoreError::NoKeyFound(_) => ErrorKind::NotFound,
            StoreError::UnparsableKey(_) => ErrorKind::InvalidData,
            StoreError::SigningKeyExists(_) => ErrorKind::AlreadyExists,
            StoreError::DeriveKeyExists(_) => ErrorKind::AlreadyExists,
            StoreError::NoKeysFound(_) => ErrorKind::NotFound,
            StoreError::AdvertisedAndUnadvertised(_) => ErrorKind::InvalidData,
            StoreError::InvalidThumbprint(_) => ErrorKind::InvalidInput,
            StoreError::SigningKeyAdvertised(_) => ErrorKind::InvalidInput,
            StoreError::DeriveKeyAdvertised(_) => ErrorKind::InvalidInput,
            StoreError::SigningKeyOutsideStore(_) => ErrorKind::InvalidInput,
            StoreError::DeriveKeyOutsideStore(_) => ErrorKind::InvalidInput,
            StoreError::SchemeNotDynamoDb => ErrorKind::InvalidInput,
            StoreError::TableLookupFailed { .. } => ErrorKind::Other,
            StoreError::ConnectFailure(_) => ErrorKind::Other,
            StoreError::ServiceFailure(_) => ErrorKind::Other,
            StoreError::EmptyTableName => ErrorKind::InvalidInput,
            StoreError::EmptyThumbprint => ErrorKind::InvalidInput,
            StoreError::UndecodableStoredKey => ErrorKind::InvalidData,
            StoreError::UndecodableKey(_) => ErrorKind::InvalidData,
        }
    }
}

} // verus!
