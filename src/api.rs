use vstd::prelude::*;
use vstd::string::*;
use vstd::set_lib::*;
use vstd::relations::injective_on;
use crate::errors::{ErrorCode, ErrorDetail};
use crate::paging::{has_more, pages_needed, total_pages};
use crate::parser::{parse_spec, QueryNode, QueryParser};
use crate::validator::{ast_verdict, depth, or_count, string_verdict, QueryValidator, ValidationError};

verus! {

/// The envelope of every successful JSON response.
#[derive(Debug)]
pub struct ApiResponse<T> {
    pub success: bool,
    pub data: Option<T>,
    pub error: Option<ErrorDetail>,
}

impl<T> ApiResponse<T> {
    /// A successful envelope around `data`.
    pub fn success(data: T) -> (r: Self)
        ensures
            r.success,
            r.data == Some(data),
            r.error is None,
    {
        ApiResponse { success: true, data: Some(data), error: None }
    }
}

/// Query parameters of a search.
#[derive(Debug, Clone)]
pub struct SearchParams {
    pub q: String,
    pub limit: Option<i64>,
    pub page: Option<usize>,
    pub page_size: Option<usize>,
}

/// One page of results with its position in the whole.
#[derive(Debug)]
pub struct PaginatedResponse<T> {
    pub data: Vec<T>,
    pub total: usize,
    pub page: usize,
    pub page_size: usize,
    pub total_pages: usize,
    pub has_more: bool,
}

impl<T> PaginatedResponse<T> {
    /// A page of `total` matches; the page count and whether more follow are derived.
    pub fn new(data: Vec<T>, total: usize, page: usize, page_size: usize) -> (r: Self)
        requires
            page_size >= 1,
        ensures
            r.data == data,
            r.total == total,
            r.page == page,
            r.page_size == page_size,
            r.total_pages == pages_needed(total as nat, page_size as nat),
            r.has_more == (page < r.total_pages),
    {
        let pages = total_pages(total, page_size);
        let more = has_more(page, pages);
        PaginatedResponse { data, total, page, page_size, total_pages: pages, has_more: more }
    }
}

/// Query parameters of a lookup by name: exactly one of the two is expected.
#[derive(Debug, Clone)]
pub struct NamedParams {
    pub fuzzy: Option<String>,
    pub exact: Option<String>,
}

/// Query parameters of an autocompletion.
#[derive(Debug, Clone)]
pub struct AutocompleteParams {
    pub q: String,
}

/// A list of completed names.
#[derive(Debug, Clone)]
pub struct AutocompleteResponse {
    pub object: String,
    pub data: Vec<String>,
}

impl AutocompleteResponse {
    /// The `catalog` object around `data`.
    pub fn catalog(data: Vec<String>) -> (r: Self)
        ensures
            r.object@ == "catalog"@,
            r.data == data,
    {
        AutocompleteResponse { object: "catalog".to_owned(), data }
    }
}

/// Counts of the store.
#[derive(Debug, Clone, Copy)]
pub struct CacheStats {
    pub total_cards: i64,
    pub total_cache_entries: i64,
}

/// One search of a batch.
#[derive(Debug, Clone)]
pub struct BatchQueryItem {
    pub id: String,
    pub query: String,
    pub page: Option<usize>,
    pub page_size: Option<usize>,
}

/// A batch of searches.
#[derive(Debug, Clone)]
pub struct BatchQueriesRequest {
    pub queries: Vec<BatchQueryItem>,
}

/// A batch of lookups by name.
#[derive(Debug, Clone)]
pub struct BatchNamedRequest {
    pub names: Vec<String>,
    pub fuzzy: Option<bool>,
}

/// A refused search: the code of the response and the refusal.
#[derive(Debug, Clone, Copy, PartialEq, Eq, Structural)]
pub enum QueryRejection {
    /// The string or the tree breaks a limit or a rule.
    Invalid(ValidationError),
    /// Parentheses do not balance, or no tree can be built.
    Malformed(Option<ValidationError>),
}

impl QueryRejection {
    pub open spec fn spec_code(self) -> ErrorCode {
        match self {
            QueryRejection::Invalid(_) => ErrorCode::ValidationError,
            QueryRejection::Malformed(_) => ErrorCode::InvalidQuery,
        }
    }

    /// `VALIDATION_ERROR` for a broken limit or rule, `INVALID_QUERY` for a malformed query.
    pub fn code(&self) -> (r: ErrorCode)
        ensures
            r == self.spec_code(),
    {
        match self {
            QueryRejection::Invalid(_) => ErrorCode::ValidationError,
            QueryRejection::Malformed(_) => ErrorCode::InvalidQuery,
        }
    }
}

/// The verdict on a search query of `byte_len` UTF-8 bytes: its length first, then its
/// parentheses, then parsing, then the tree.
pub open spec fn query_verdict(v: QueryValidator, byte_len: nat, q: Seq<char>) -> Result<(), QueryRejection> {
    match string_verdict(v.spec_limits(), byte_len, q) {
        Err(ValidationError::QueryTooLong) => Err(QueryRejection::Invalid(ValidationError::QueryTooLong)),
        Err(e) => Err(QueryRejection::Malformed(Some(e))),
        Ok(()) => match parse_spec(q) {
            None => Err(QueryRejection::Malformed(None)),
            Some(n) => match ast_verdict(v.spec_limits(), n) {
                Err(e) => Err(QueryRejection::Invalid(e)),
                Ok(()) => Ok(()),
            },
        },
    }
}

/// Check a search query and build its tree.
pub fn check_search_query(validator: &QueryValidator, q: &str) -> (r: Result<QueryNode, QueryRejection>)
    ensures
        match query_verdict(*validator, q.spec_bytes().len(), q@) {
            Ok(()) => r matches Ok(t) && Some(t@) == parse_spec(q@),
            Err(e) => r == Err::<QueryNode, QueryRejection>(e),
        },
{
    match validator.validate_query_string(q) {
        Err(ValidationError::QueryTooLong) => {
            return Err(QueryRejection::Invalid(ValidationError::QueryTooLong));
        },
        Err(e) => {
            return Err(QueryRejection::Malformed(Some(e)));
        },
        Ok(()) => {},
    }
    let ast = match QueryParser::parse(q) {
        Ok(t) => t,
        Err(_) => {
            return Err(QueryRejection::Malformed(None));
        },
    };
    match validator.validate_ast(&ast) {
        Err(e) => Err(QueryRejection::Invalid(e)),
        Ok(()) => Ok(ast),
    }
}

/// Every query that the checks accept parses to a tree within the nesting and `or` limits.
pub proof fn law_accepted_within_limits(v: QueryValidator, byte_len: nat, q: Seq<char>)
    requires
        query_verdict(v, byte_len, q) is Ok,
    ensures
        parse_spec(q) is Some,
        depth(parse_spec(q)->Some_0) <= v.spec_limits().max_nesting_depth,
        or_count(parse_spec(q)->Some_0) <= v.spec_limits().max_or_clauses,
{
}

/// The name to look up and whether the match is fuzzy: `fuzzy` wins over `exact`;
/// with neither, a validation error.
pub fn named_target(params: &NamedParams) -> (r: Result<(String, bool), ErrorCode>)
    ensures
        match params.fuzzy {
            Some(n) => r matches Ok((m, f)) && m@ == n@ && f,
            None => match params.exact {
                Some(n) => r matches Ok((m, f)) && m@ == n@ && !f,
                None => r == Err::<(String, bool), ErrorCode>(ErrorCode::ValidationError),
            },
        },
{
    match &params.fuzzy {
        Some(n) => Ok((n.clone(), true)),
        None => match &params.exact {
            Some(n) => Ok((n.clone(), false)),
            None => Err(ErrorCode::ValidationError),
        },
    }
}

/// A batch must hold between one and `max` items.
pub fn check_batch_len(len: usize, max: usize) -> (r: Result<(), ErrorCode>)
    ensures
        r is Ok <==> 1 <= len <= max,
        r matches Err(c) ==> c == ErrorCode::ValidationError,
{
    if len == 0 || len > max {
        Err(ErrorCode::ValidationError)
    } else {
        Ok(())
    }
}

/// How many batch items run at once: the setting, 4 by default, clamped to `1..=32`.
pub fn batch_parallelism(setting: Option<usize>) -> (r: usize)
    ensures
        r == (match setting {
            Some(p) => if p < 1 { 1 } else if p > 32 { 32 } else { p },
            None => 4,
        }),
{
    match setting {
        Some(p) => if p < 1 {
            1
        } else if p > 32 {
            32
        } else {
            p
        },
        None => 4,
    }
}

/// Results finish in any order, each tagged with its request index; `finished[j]` is the
/// index of the `j`-th result to finish. The answer lists, for each request index in
/// turn, the position of its result among the finished ones.
pub fn request_order(finished: &Vec<usize>) -> (r: Vec<usize>)
    requires
        forall|j: int| 0 <= j < finished.len() ==> finished@[j] < finished.len(),
        forall|i: int, j: int| 0 <= i < j < finished.len() ==> finished@[i] != finished@[j],
    ensures
        r.len() == finished.len(),
        forall|k: int| 0 <= k < r.len() ==> r@[k] < finished.len() && finished@[r@[k] as int] == k,
{
    let n = finished.len();
    let mut r: Vec<usize> = Vec::new();
    let mut k: usize = 0;
    while k < n
        invariant
            k <= n,
            n == finished.len(),
            r.len() == k,
            forall|m: int| 0 <= m < r.len() ==> r@[m] == 0,
        decreases n - k,
    {
        r.push(0);
        k += 1;
    }
    let mut j: usize = 0;
    while j < n
        invariant
            j <= n,
            n == finished.len(),
            r.len() == n,
            forall|i: int| 0 <= i < finished.len() ==> finished@[i] < finished.len(),
            forall|a: int, b: int| 0 <= a < b < finished.len() ==> finished@[a] != finished@[b],
            forall|i: int| 0 <= i < j ==> r@[finished@[i] as int] == i,
            forall|m: int| 0 <= m < n ==> r@[m] < n,
        decreases n - j,
    {
        let slot = finished[j];
        r.set(slot, j);
        j += 1;
    }
    proof {
        assert forall|k: int| 0 <= k < r.len() implies r@[k] < finished.len() && finished@[r@[k] as int] == k by {
            // every request index is finished by some position, as `finished` is injective
            // into `0..n`
            lemma_injective_onto(finished@, k);
        }
    }
    r
}

/// An injective map from `0..n` into `0..n` reaches every value.
proof fn lemma_injective_onto(s: Seq<usize>, k: int)
    requires
        0 <= k < s.len(),
        forall|j: int| 0 <= j < s.len() ==> s[j] < s.len(),
        forall|i: int, j: int| 0 <= i < j < s.len() ==> s[i] != s[j],
    ensures
        exists|j: int| 0 <= j < s.len() && s[j] == k,
{
    let n = s.len() as int;
    let dom = set_int_range(0, n);
    let f = |j: int| s[j] as int;
    let img = dom.map(f);
    lemma_int_range(0, n);
    assert(injective_on(f, dom)) by {
        assert forall|a: int, b: int| dom.contains(a) && dom.contains(b) && #[trigger] f(a) == #[trigger] f(b)
            implies a == b by {
            if a < b {
                assert(s[a] != s[b]);
            } else if b < a {
                assert(s[b] != s[a]);
            }
        }
    }
    lemma_map_size(dom, img, f);
    assert(img.subset_of(dom)) by {
        assert forall|v: int| img.contains(v) implies dom.contains(v) by {
            let j = choose|j: int| dom.contains(j) && f(j) == v;
            assert(s[j] < s.len());
        }
    }
    lemma_subset_equality(img, dom);
    assert(dom.contains(k));
    assert(img.contains(k));
    let j = choose|j: int| dom.contains(j) && f(j) == k;
    assert(0 <= j < s.len() && s[j] == k);
}

} // verus!
