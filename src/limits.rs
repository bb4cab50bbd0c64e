use vstd::prelude::*;

verus! {

/// Query complexity limits to prevent abuse.
#[derive(Debug, Clone, Copy)]
pub struct QueryLimits {
    /// Maximum query string length (characters).
    pub max_query_length: usize,
    /// Maximum nesting depth for boolean expressions.
    pub max_nesting_depth: usize,
    /// Maximum number of `or` nodes.
    pub max_or_clauses: usize,
    /// Maximum number of results to return.
    pub max_results: i64,
    /// Query execution timeout (seconds).
    pub query_timeout_seconds: u64,
}

impl QueryLimits {
    pub open spec fn is_default(self) -> bool {
        &&& self.max_query_length == 1000
        &&& self.max_nesting_depth == 5
        &&& self.max_or_clauses == 10
        &&& self.max_results == 1000
        &&& self.query_timeout_seconds == 30
    }
}

impl Default for QueryLimits {
    fn default() -> (r: Self)
        ensures
            r.is_default(),
    {
        QueryLimits {
            max_query_length: 1000,
            max_nesting_depth: 5,
            max_or_clauses: 10,
            max_results: 1000,
            query_timeout_seconds: 30,
        }
    }
}

} // verus!
