use vstd::prelude::*;
use crate::paging::{offset_of, page_bounds, page_end, page_offset, page_start};
use crate::text::{lower_of, lowercase, push_str};

verus! {

/// Where a search stands on the read path.
#[derive(Debug, Clone, Copy, PartialEq, Eq, Structural)]
pub enum SearchStage {
    /// Nothing consulted yet.
    Start,
    /// Waiting for the distributed tier's id list.
    Distributed,
    /// Waiting for the store to dereference the distributed tier's ids.
    DistributedCards,
    /// Waiting for the durable result-set cache's id list.
    ResultSet,
    /// Waiting for the store to dereference the result-set ids.
    ResultSetCards,
    /// Waiting for the store's predicate search.
    Predicate,
    /// Waiting for the upstream search.
    Upstream,
    /// Finished.
    Done,
}

/// What came back from the last action.
#[derive(Debug, Clone, Copy, PartialEq, Eq, Structural)]
pub enum SearchEvent {
    /// The search begins.
    Begin,
    /// A tier answered with this many ids; zero on a miss or an error.
    Ids(usize),
    /// The store returned this many cards; zero on an error.
    Cards(usize),
    /// The predicate search returned this many cards; `None` on an error.
    Rows(Option<usize>),
    /// Upstream returned this many cards.
    UpstreamCards(usize),
    /// Upstream failed.
    UpstreamError,
}

/// What the caller does next.
#[derive(Debug, Clone, Copy, PartialEq, Eq, Structural)]
pub enum SearchAction {
    /// Look up `query:<fingerprint>` in the distributed tier.
    LookupDistributed,
    /// Look up the fingerprint in the durable result-set cache.
    LookupResultSet,
    /// Fetch the cards of the ids just returned from the store.
    FetchCards,
    /// Run the translated predicate against the store.
    RunPredicate,
    /// Search upstream.
    SearchUpstream,
    /// Return the cards just fetched; the result set was found in the distributed tier.
    ReturnCached,
    /// Return the cards just fetched; write their ids back to the distributed tier.
    ReturnCachedAndWarm,
    /// Return the predicate's cards and write their ids to both tiers (best effort).
    ReturnAndCache,
    /// Upsert upstream's cards, write their ids to both tiers (best effort), return them.
    UpsertReturnAndCache,
    /// Return no cards.
    ReturnEmpty,
    /// Fail the request with the upstream error.
    Fail,
    /// Nothing is left to do.
    Nothing,
}

/// The read path of a full search, one step at a time: tiers are consulted strictly in the
/// order distributed, result set, store, upstream; a cached id list that yields no card is
/// a miss.
pub open spec fn search_next(distributed: bool, stage: SearchStage, ev: SearchEvent) -> (SearchStage, SearchAction) {
    match (stage, ev) {
        (SearchStage::Start, SearchEvent::Begin) => if distributed {
            (SearchStage::Distributed, SearchAction::LookupDistributed)
        } else {
            (SearchStage::ResultSet, SearchAction::LookupResultSet)
        },
        (SearchStage::Distributed, SearchEvent::Ids(n)) => if n > 0 {
            (SearchStage::DistributedCards, SearchAction::FetchCards)
        } else {
            (SearchStage::ResultSet, SearchAction::LookupResultSet)
        },
        (SearchStage::DistributedCards, SearchEvent::Cards(n)) => if n > 0 {
            (SearchStage::Done, SearchAction::ReturnCached)
        } else {
            (SearchStage::ResultSet, SearchAction::LookupResultSet)
        },
        (SearchStage::ResultSet, SearchEvent::Ids(n)) => if n > 0 {
            (SearchStage::ResultSetCards, SearchAction::FetchCards)
        } else {
            (SearchStage::Predicate, SearchAction::RunPredicate)
        },
        (SearchStage::ResultSetCards, SearchEvent::Cards(n)) => if n > 0 {
            (SearchStage::Done, if distributed { SearchAction::ReturnCachedAndWarm } else { SearchAction::ReturnCached })
        } else {
            (SearchStage::Predicate, SearchAction::RunPredicate)
        },
        (SearchStage::Predicate, SearchEvent::Rows(r)) => match r {
            Some(n) => if n > 0 {
                (SearchStage::Done, SearchAction::ReturnAndCache)
            } else {
                (SearchStage::Upstream, SearchAction::SearchUpstream)
            },
            None => (SearchStage::Upstream, SearchAction::SearchUpstream),
        },
        (SearchStage::Upstream, SearchEvent::UpstreamCards(n)) => if n > 0 {
            (SearchStage::Done, SearchAction::UpsertReturnAndCache)
        } else {
            (SearchStage::Done, SearchAction::ReturnEmpty)
        },
        (SearchStage::Upstream, SearchEvent::UpstreamError) => (SearchStage::Done, SearchAction::Fail),
        _ => (stage, SearchAction::Nothing),
    }
}

/// One step of a full search: from the stage and what the last action returned, the next
/// stage and action. `distributed` tells whether a distributed tier is configured.
pub fn search_step(distributed: bool, stage: SearchStage, ev: SearchEvent) -> (r: (SearchStage, SearchAction))
    ensures
        r == search_next(distributed, stage, ev),
{
    match (stage, ev) {
        (SearchStage::Start, SearchEvent::Begin) => if distributed {
            (SearchStage::Distributed, SearchAction::LookupDistributed)
        } else {
            (SearchStage::ResultSet, SearchAction::LookupResultSet)
        },
        (SearchStage::Distributed, SearchEvent::Ids(n)) => if n > 0 {
            (SearchStage::DistributedCards, SearchAction::FetchCards)
        } else {
            (SearchStage::ResultSet, SearchAction::LookupResultSet)
        },
        (SearchStage::DistributedCards, SearchEvent::Cards(n)) => if n > 0 {
            (SearchStage::Done, SearchAction::ReturnCached)
        } else {
            (SearchStage::ResultSet, SearchAction::LookupResultSet)
        },
        (SearchStage::ResultSet, SearchEvent::Ids(n)) => if n > 0 {
            (SearchStage::ResultSetCards, SearchAction::FetchCards)
        } else {
            (SearchStage::Predicate, SearchAction::RunPredicate)
        },
        (SearchStage::ResultSetCards, SearchEvent::Cards(n)) => if n > 0 {
            (
                SearchStage::Done,
                if distributed {
                    SearchAction::ReturnCachedAndWarm
                } else {
                    SearchAction::ReturnCached
                },
            )
        } else {
            (SearchStage::Predicate, SearchAction::RunPredicate)
        },
        (SearchStage::Predicate, SearchEvent::Rows(r)) => match r {
            Some(n) => if n > 0 {
                (SearchStage::Done, SearchAction::ReturnAndCache)
            } else {
                (SearchStage::Upstream, SearchAction::SearchUpstream)
            },
            None => (SearchStage::Upstream, SearchAction::SearchUpstream),
        },
        (SearchStage::Upstream, SearchEvent::UpstreamCards(n)) => if n > 0 {
            (SearchStage::Done, SearchAction::UpsertReturnAndCache)
        } else {
            (SearchStage::Done, SearchAction::ReturnEmpty)
        },
        (SearchStage::Upstream, SearchEvent::UpstreamError) => (SearchStage::Done, SearchAction::Fail),
        _ => (stage, SearchAction::Nothing),
    }
}

/// Rank of a stage along the read path.
pub open spec fn tier_rank(s: SearchStage) -> nat {
    match s {
        SearchStage::Start => 0,
        SearchStage::Distributed => 1,
        SearchStage::DistributedCards => 2,
        SearchStage::ResultSet => 3,
        SearchStage::ResultSetCards => 4,
        SearchStage::Predicate => 5,
        SearchStage::Upstream => 6,
        SearchStage::Done => 7,
    }
}

/// Every step moves forward along the tiers or stays put doing nothing, and an id list
/// that dereferences to no card is a miss that moves on to the next tier.
pub proof fn law_tiers_in_order(distributed: bool, stage: SearchStage, ev: SearchEvent)
    ensures
        ({
            let (next, act) = search_next(distributed, stage, ev);
            (tier_rank(next) > tier_rank(stage)) || (next == stage && act == SearchAction::Nothing)
        }),
        search_next(distributed, SearchStage::ResultSetCards, SearchEvent::Cards(0))
            == (SearchStage::Predicate, SearchAction::RunPredicate),
        search_next(distributed, SearchStage::DistributedCards, SearchEvent::Cards(0))
            == (SearchStage::ResultSet, SearchAction::LookupResultSet),
{
}

// ---------------------------------------------------------------------------
// Paginated searches
// ---------------------------------------------------------------------------

/// Where a paginated search stands.
#[derive(Debug, Clone, Copy, PartialEq, Eq, Structural)]
pub enum PagedStage {
    Start,
    /// Waiting for the store's count of matches.
    Count,
    /// Waiting for the store's page; the total of matches is kept.
    Fetch(usize),
    /// Waiting for the upstream search.
    Upstream,
    Done,
}

/// What came back from the last action of a paginated search.
#[derive(Debug, Clone, Copy, PartialEq, Eq, Structural)]
pub enum PagedEvent {
    Begin,
    /// The store counted this many matches; `None` when translation or the store failed.
    Counted(Option<usize>),
    /// The store returned the page.
    Fetched,
    /// Upstream returned this many cards.
    UpstreamCards(usize),
    /// Upstream failed.
    UpstreamError,
}

/// What a paginated search does next.
#[derive(Debug, Clone, Copy, PartialEq, Eq, Structural)]
pub enum PagedAction {
    /// Translate the query and count its matches in the store.
    Count,
    /// Fetch the page that starts at this offset from the store.
    FetchPage(usize),
    /// Return the fetched page with this total.
    ReturnPage(usize),
    /// Search upstream, unpaginated.
    AskUpstream,
    /// Upsert upstream's cards where `upsert`, then return `cards[start..end]` with `total`.
    Slice { upsert: bool, start: usize, end: usize, total: usize },
    /// Fail the request with the upstream error.
    Fail,
    /// Nothing is left to do.
    Nothing,
}

/// Offset of a page, or the total where the offset lies past it (both give no rows).
pub open spec fn fetch_offset(total: nat, page: nat, page_size: nat) -> nat {
    if offset_of(page, page_size) <= total {
        offset_of(page, page_size)
    } else {
        total
    }
}

/// The paginated read path: the store serves the page when it counts at least one match;
/// a count of zero, a translation error or a store error falls back to an unpaginated
/// upstream search, whose cards are upserted when there are any and paginated in memory.
pub open spec fn paged_next(stage: PagedStage, ev: PagedEvent, page: usize, page_size: usize) -> (PagedStage, PagedAction) {
    match (stage, ev) {
        (PagedStage::Start, PagedEvent::Begin) => (PagedStage::Count, PagedAction::Count),
        (PagedStage::Count, PagedEvent::Counted(c)) => match c {
            Some(t) => if t > 0 {
                (
                    PagedStage::Fetch(t),
                    PagedAction::FetchPage(fetch_offset(t as nat, page as nat, page_size as nat) as usize),
                )
            } else {
                (PagedStage::Upstream, PagedAction::AskUpstream)
            },
            None => (PagedStage::Upstream, PagedAction::AskUpstream),
        },
        (PagedStage::Fetch(t), PagedEvent::Fetched) => (PagedStage::Done, PagedAction::ReturnPage(t)),
        (PagedStage::Upstream, PagedEvent::UpstreamCards(n)) => (
            PagedStage::Done,
            PagedAction::Slice {
                upsert: n > 0,
                start: page_start(n as nat, page as nat, page_size as nat) as usize,
                end: page_end(n as nat, page as nat, page_size as nat) as usize,
                total: n,
            },
        ),
        (PagedStage::Upstream, PagedEvent::UpstreamError) => (PagedStage::Done, PagedAction::Fail),
        _ => (stage, PagedAction::Nothing),
    }
}

/// One step of a paginated search.
pub fn paged_step(stage: PagedStage, ev: PagedEvent, page: usize, page_size: usize) -> (r: (PagedStage, PagedAction))
    requires
        page_size >= 1,
    ensures
        r == paged_next(stage, ev, page, page_size),
{
    match (stage, ev) {
        (PagedStage::Start, PagedEvent::Begin) => (PagedStage::Count, PagedAction::Count),
        (PagedStage::Count, PagedEvent::Counted(c)) => match c {
            Some(t) => if t > 0 {
                let offset = match page_offset(page, page_size) {
                    Some(o) => if o <= t {
                        o
                    } else {
                        t
                    },
                    None => t,
                };
                (PagedStage::Fetch(t), PagedAction::FetchPage(offset))
            } else {
                (PagedStage::Upstream, PagedAction::AskUpstream)
            },
            None => (PagedStage::Upstream, PagedAction::AskUpstream),
        },
        (PagedStage::Fetch(t), PagedEvent::Fetched) => (PagedStage::Done, PagedAction::ReturnPage(t)),
        (PagedStage::Upstream, PagedEvent::UpstreamCards(n)) => {
            let (start, end) = page_bounds(n, page, page_size);
            (PagedStage::Done, PagedAction::Slice { upsert: n > 0, start, end, total: n })
        },
        (PagedStage::Upstream, PagedEvent::UpstreamError) => (PagedStage::Done, PagedAction::Fail),
        _ => (stage, PagedAction::Nothing),
    }
}

// ---------------------------------------------------------------------------
// Single-card lookups
// ---------------------------------------------------------------------------

/// Where a lookup of one card stands.
#[derive(Debug, Clone, Copy, PartialEq, Eq, Structural)]
pub enum LookupStage {
    Start,
    Distributed,
    Store,
    Upstream,
    Done,
}

/// What a lookup of one card does next.
#[derive(Debug, Clone, Copy, PartialEq, Eq, Structural)]
pub enum LookupAction {
    /// Read `card:<id>` from the distributed tier.
    ReadDistributed,
    /// Read the card from the store.
    ReadStore,
    /// Ask upstream for the card.
    AskUpstream,
    /// Return the card found in the distributed tier.
    ReturnCard,
    /// Return the store's card and write it to the distributed tier (best effort).
    ReturnAndWarm,
    /// Upsert upstream's card, write it to the distributed tier (best effort), return it.
    UpsertAndReturn,
    /// Upstream confirms the card does not exist.
    ReturnNone,
    /// Nothing is left to do.
    Nothing,
}

/// The lookup of one card: distributed tier, then store, then upstream. `found` tells
/// whether the last read found the card.
pub open spec fn lookup_next(distributed: bool, stage: LookupStage, found: bool) -> (LookupStage, LookupAction) {
    match stage {
        LookupStage::Start => if distributed {
            (LookupStage::Distributed, LookupAction::ReadDistributed)
        } else {
            (LookupStage::Store, LookupAction::ReadStore)
        },
        LookupStage::Distributed => if found {
            (LookupStage::Done, LookupAction::ReturnCard)
        } else {
            (LookupStage::Store, LookupAction::ReadStore)
        },
        LookupStage::Store => if found {
            (LookupStage::Done, if distributed { LookupAction::ReturnAndWarm } else { LookupAction::ReturnCard })
        } else {
            (LookupStage::Upstream, LookupAction::AskUpstream)
        },
        LookupStage::Upstream => if found {
            (LookupStage::Done, LookupAction::UpsertAndReturn)
        } else {
            (LookupStage::Done, LookupAction::ReturnNone)
        },
        LookupStage::Done => (LookupStage::Done, LookupAction::Nothing),
    }
}

/// One step of a lookup of one card.
pub fn lookup_step(distributed: bool, stage: LookupStage, found: bool) -> (r: (LookupStage, LookupAction))
    ensures
        r == lookup_next(distributed, stage, found),
{
    match stage {
        LookupStage::Start => if distributed {
            (LookupStage::Distributed, LookupAction::ReadDistributed)
        } else {
            (LookupStage::Store, LookupAction::ReadStore)
        },
        LookupStage::Distributed => if found {
            (LookupStage::Done, LookupAction::ReturnCard)
        } else {
            (LookupStage::Store, LookupAction::ReadStore)
        },
        LookupStage::Store => if found {
            (
                LookupStage::Done,
                if distributed {
                    LookupAction::ReturnAndWarm
                } else {
                    LookupAction::ReturnCard
                },
            )
        } else {
            (LookupStage::Upstream, LookupAction::AskUpstream)
        },
        LookupStage::Upstream => if found {
            (LookupStage::Done, LookupAction::UpsertAndReturn)
        } else {
            (LookupStage::Done, LookupAction::ReturnNone)
        },
        LookupStage::Done => (LookupStage::Done, LookupAction::Nothing),
    }
}

/// Seconds a completion stays in the distributed tier.
pub const AUTOCOMPLETE_TTL_SECS: u64 = 600;

/// Whether a value of `len` bytes may be written to the distributed tier: whole mebibytes
/// above the cap are dropped.
pub fn fits_tier(len: usize, max_value_size_mb: usize) -> (r: bool)
    ensures
        r == ((len as nat) / 1048576 <= max_value_size_mb as nat),
{
    len / 1048576 <= max_value_size_mb
}

// ---------------------------------------------------------------------------
// Batch lookups
// ---------------------------------------------------------------------------

/// The ids of `ids` that `found` lacks, each once, in request order.
pub open spec fn missing_of(ids: Seq<u128>, found: Seq<u128>) -> Seq<u128>
    decreases ids.len(),
{
    if ids.len() == 0 {
        seq![]
    } else {
        let m = missing_of(ids.drop_last(), found);
        let x = ids.last();
        if !found.contains(x) && !m.contains(x) {
            m.push(x)
        } else {
            m
        }
    }
}

/// Index of the last occurrence of `x` in `s`, if any.
pub open spec fn last_index(s: Seq<u128>, x: u128) -> Option<int>
    decreases s.len(),
{
    if s.len() == 0 {
        None
    } else if s.last() == x {
        Some(s.len() - 1)
    } else {
        last_index(s.drop_last(), x)
    }
}

/// For each requested id in order, the position of its card among `found`; absent ids are
/// left out, and where `found` holds an id twice the later card counts.
pub open spec fn projection_of(ids: Seq<u128>, found: Seq<u128>) -> Seq<usize>
    decreases ids.len(),
{
    if ids.len() == 0 {
        seq![]
    } else {
        let p = projection_of(ids.drop_last(), found);
        match last_index(found, ids.last()) {
            Some(j) => p.push(j as usize),
            None => p,
        }
    }
}

fn contains_id(v: &Vec<u128>, x: u128) -> (r: bool)
    ensures
        r == v@.contains(x),
{
    let mut i: usize = 0;
    while i < v.len()
        invariant
            i <= v.len(),
            forall|j: int| 0 <= j < i ==> v@[j] != x,
        decreases v.len() - i,
    {
        if v[i] == x {
            return true;
        }
        i += 1;
    }
    false
}

fn last_index_of(v: &Vec<u128>, x: u128) -> (r: Option<usize>)
    ensures
        r matches Some(j) ==> last_index(v@, x) == Some(j as int),
        r is None ==> last_index(v@, x) is None,
{
    let mut i: usize = v.len();
    assert(v@.take(v.len() as int) =~= v@);
    while i > 0
        invariant
            i <= v.len(),
            last_index(v@, x) == last_index(v@.take(i as int), x),
        decreases i,
    {
        assert(v@.take(i as int).drop_last() =~= v@.take(i - 1));
        if v[i - 1] == x {
            return Some(i - 1);
        }
        i -= 1;
    }
    None
}

/// The requested ids that the store did not return, each once, in request order.
pub fn missing_ids(ids: &Vec<u128>, found: &Vec<u128>) -> (r: Vec<u128>)
    ensures
        r@ == missing_of(ids@, found@),
{
    let mut r: Vec<u128> = Vec::new();
    let mut i: usize = 0;
    assert(ids@.take(0) =~= Seq::<u128>::empty());
    while i < ids.len()
        invariant
            i <= ids.len(),
            r@ == missing_of(ids@.take(i as int), found@),
        decreases ids.len() - i,
    {
        assert(ids@.take(i + 1).drop_last() =~= ids@.take(i as int));
        let x = ids[i];
        if !contains_id(found, x) && !contains_id(&r, x) {
            r.push(x);
        }
        i += 1;
    }
    assert(ids@.take(ids.len() as int) =~= ids@);
    r
}

/// Positions among `found` of the cards to return, in request order.
pub fn project_in_request_order(ids: &Vec<u128>, found: &Vec<u128>) -> (r: Vec<usize>)
    ensures
        r@ == projection_of(ids@, found@),
        forall|k: int| 0 <= k < r.len() ==> r@[k] < found.len(),
{
    let mut r: Vec<usize> = Vec::new();
    let mut i: usize = 0;
    assert(ids@.take(0) =~= Seq::<u128>::empty());
    while i < ids.len()
        invariant
            i <= ids.len(),
            r@ == projection_of(ids@.take(i as int), found@),
            forall|k: int| 0 <= k < r.len() ==> r@[k] < found.len(),
        decreases ids.len() - i,
    {
        assert(ids@.take(i + 1).drop_last() =~= ids@.take(i as int));
        match last_index_of(found, ids[i]) {
            Some(j) => {
                proof {
                    lemma_last_index_bound(found@, ids@[i as int]);
                }
                r.push(j);
            },
            None => {},
        }
        i += 1;
    }
    assert(ids@.take(ids.len() as int) =~= ids@);
    r
}

proof fn lemma_last_index_bound(s: Seq<u128>, x: u128)
    ensures
        last_index(s, x) matches Some(j) ==> 0 <= j < s.len() && s[j] == x,
    decreases s.len(),
{
    if s.len() > 0 && s.last() != x {
        lemma_last_index_bound(s.drop_last(), x);
    }
}

/// Whether upstream is asked for the missing ids of a batch.
pub fn needs_upstream_fetch(fetch_missing: bool, missing: &Vec<u128>) -> (r: bool)
    ensures
        r == (fetch_missing && missing.len() > 0),
{
    fetch_missing && missing.len() > 0
}

// ---------------------------------------------------------------------------
// Autocomplete and cache keys
// ---------------------------------------------------------------------------

/// The shortest prefix that is completed.
pub const MIN_AUTOCOMPLETE_PREFIX: usize = 2;

/// How many names the store is asked for.
pub const AUTOCOMPLETE_LIMIT: i64 = 20;

/// Whether a prefix is long enough to be completed.
pub fn autocomplete_allowed(prefix: &str) -> (r: bool)
    ensures
        r == (prefix@.len() >= MIN_AUTOCOMPLETE_PREFIX),
{
    let n = crate::text::chars_of(prefix).len();
    n >= MIN_AUTOCOMPLETE_PREFIX
}

/// `query:<fingerprint>`, the distributed-tier key of a result set.
pub fn query_key(fingerprint: &str) -> (r: String)
    ensures
        r@ == "query:"@ + fingerprint@,
{
    let mut s = String::new();
    push_str(&mut s, "query:");
    push_str(&mut s, fingerprint);
    s
}

/// `card:<id>`, the distributed-tier key of a card, from the id's text.
pub fn card_key(id_text: &str) -> (r: String)
    ensures
        r@ == "card:"@ + id_text@,
{
    let mut s = String::new();
    push_str(&mut s, "card:");
    push_str(&mut s, id_text);
    s
}

/// `autocomplete:<prefix in lower case>`, the distributed-tier key of a completion.
pub fn autocomplete_key(prefix: &str) -> (r: String)
    ensures
        r@ == "autocomplete:"@ + lower_of(prefix@),
{
    let lowered = lowercase(prefix);
    let mut s = String::new();
    push_str(&mut s, "autocomplete:");
    push_str(&mut s, lowered.as_str());
    s
}

} // verus!
