//! Key store backends, and the choice of one by URL scheme.
pub mod vec;
pub mod dir;
pub mod dynamodb;

use vstd::prelude::*;
use crate::backend::dir::DirBackend;
use crate::backend::vec::VecBackend;
use crate::error::StoreError;
use crate::text::str_equal;
use crate::url_access::UrlParts;

verus! {

/// A source of derive and sign/verify keys, chosen by the scheme of a URL.
pub enum Backend {
    /// Internal in-memory backend.
    EphemeralVec(VecBackend),
    /// Keys from environment variables (`env://`).
    Env,
    /// Keys in a directory (`file:///path/to/dir`).
    Directory(DirBackend),
    /// Keys in a Sqlite database (`sqlite://`).
    Sqlite,
    /// Keys in a Postgres table (`postgres://server/table`).
    Postgres,
    /// Keys in a SQL Server table (`mssql://server/table`).
    MsSqlServer,
    /// Keys in a DynamoDB table (`dynamodb://`).
    DynamoDb,
    /// Keys in an AWS Secrets Manager secret (`asm://secret_name`).
    AwsSecretsManager,
}

/// What the caller found on disk at the path of a `file://` URL.
#[derive(Debug, Clone, Copy, PartialEq, Eq, Structural)]
pub struct DirProbe {
    pub exists: bool,
    pub is_dir: bool,
}

/// The backend for a `file://` URL with this path: the directory at the path, when it
/// exists and is a directory.
pub open spec fn spec_directory_result(path: Seq<char>, dir: DirProbe, r: Result<Backend, StoreError>) -> bool {
    if !dir.exists {
        r matches Err(StoreError::DatabaseMissing(p)) && p@ == path
    } else if !dir.is_dir {
        r matches Err(StoreError::NotADirectory(p)) && p@ == path
    } else {
        r matches Ok(Backend::Directory(b)) && b.spec_path() == path
    }
}

/// The backend chosen for a scheme; for the `file` scheme, the directory at `path`.
pub open spec fn spec_for_scheme(scheme: Seq<char>, path: Seq<char>, dir: DirProbe, r: Result<Backend, StoreError>) -> bool {
    if scheme == "env"@ {
        r matches Ok(Backend::Env)
    } else if scheme == "file"@ {
        spec_directory_result(path, dir, r)
    } else if scheme == "sqlite"@ {
        r matches Ok(Backend::Sqlite)
    } else if scheme == "postgres"@ {
        r matches Ok(Backend::Postgres)
    } else if scheme == "mssql"@ {
        r matches Ok(Backend::MsSqlServer)
    } else if scheme == "dynamodb"@ {
        r matches Ok(Backend::DynamoDb)
    } else if scheme == "asm"@ {
        r matches Ok(Backend::AwsSecretsManager)
    } else {
        r matches Err(StoreError::UnknownScheme(s)) && s@ == scheme
    }
}

impl Backend {
    /// The backend for a URL scheme. For the `file` scheme it is the directory at `path`,
    /// and `dir` is what the caller found there; otherwise neither is consulted.
    pub fn for_scheme(scheme: &str, path: &str, dir: DirProbe) -> (r: Result<Backend, StoreError>)
        ensures
            spec_for_scheme(scheme@, path@, dir, r),
    {
        if str_equal(scheme, "env") {
            Ok(Backend::Env)
        } else if str_equal(scheme, "file") {
            match DirBackend::new(path.to_owned(), dir.exists, dir.is_dir) {
                Ok(b) => Ok(Backend::Directory(b)),
                Err(e) => Err(e),
            }
        } else if str_equal(scheme, "sqlite") {
            Ok(Backend::Sqlite)
        } else if str_equal(scheme, "postgres") {
            Ok(Backend::Postgres)
        } else if str_equal(scheme, "mssql") {
            Ok(Backend::MsSqlServer)
        } else if str_equal(scheme, "dynamodb") {
            Ok(Backend::DynamoDb)
        } else if str_equal(scheme, "asm") {
            Ok(Backend::AwsSecretsManager)
        } else {
            Err(StoreError::UnknownScheme(scheme.to_owned()))
        }
    }

    /// The backend for a URL, chosen by its scheme. A `file://` URL selects the directory at
    /// the URL's path (as the `url` crate gives it, percent-encoded), and `dir` is what the
    /// caller found at that path; for other schemes `dir` is not consulted.
    pub fn for_url(url: &UrlParts, dir: DirProbe) -> (r: Result<Backend, StoreError>)
        ensures
            spec_for_scheme(url.scheme@, url.path@, dir, r),
    {
        Self::for_scheme(url.scheme.as_str(), url.path.as_str(), dir)
    }
}

} // verus!
