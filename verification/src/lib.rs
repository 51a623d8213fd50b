//! Storage backends for JSON Web Keys (elliptic-curve JWKs) with advertisement state.
//!
//! The library holds the logic of the key stores: the key model and its thumbprint,
//! an in-memory key map, the decisions of the directory store, the item codec and
//! configuration of the DynamoDB store, and the choice of a backend by URL scheme.
pub mod text;
pub mod error;
pub mod digest;
pub mod jwk;
pub mod keys;
pub mod url_access;
pub mod backend;
