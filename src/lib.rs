//! Verified core of a caching middleware in front of a card catalog: the query language
//! (tokenizer, parser, validator, translator to parameterized predicates), the read-path
//! and refresh decisions, the circuit breaker, the bulk-ingestion bookkeeping, and an
//! in-memory store that meets the store contract.
use vstd::prelude::*;

pub mod errors;
pub mod text;
pub mod parser;
pub mod limits;
pub mod validator;
pub mod translator;
pub mod paging;
pub mod circuit_breaker;
pub mod read_path;
pub mod fingerprint;
pub mod bulk;
pub mod api;
pub mod refresh;
pub mod config;
pub mod sanitize;
pub mod upstream;
pub mod store;
pub mod schema;
pub mod complete;

verus! {

} // verus!
