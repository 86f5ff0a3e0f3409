//! Verified core of the Jira integration: document conversion, URL and JQL
//! checks, status mapping, credential handling and request shaping.
use vstd::prelude::*;

pub mod adf;
pub mod auth;
pub mod board;
pub mod crypto;
pub mod document;
pub mod encoding;
pub mod error;
pub mod jql;
pub mod import;
pub mod issues;
pub mod json;
pub mod metadata;
pub mod oauth;
pub mod site;
pub mod status;
pub mod summary;
pub mod sync;
pub mod text;
pub mod types;

verus! {
} // verus!
