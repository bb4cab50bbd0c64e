use scryfall_cache::api::{
    batch_parallelism, check_batch_len, check_search_query, named_target, request_order,
    ApiResponse, AutocompleteResponse, NamedParams, PaginatedResponse, QueryRejection,
};
use scryfall_cache::bulk::{
    check_download_size, decode_bulk, retry_with_backoff, select_bulk_type, should_load,
    upstream_updated, BulkError, ImportProgress, RetryAction, BATCH_SIZE,
};
use scryfall_cache::config::{CacheConfig, Config, DatabaseConfig, ScryfallConfig, ServerConfig};
use scryfall_cache::errors::{ErrorCode, ErrorResponse};
use scryfall_cache::fingerprint::hash_query;
use scryfall_cache::limits::QueryLimits;
use scryfall_cache::paging::{
    has_more, normalize_page, normalize_page_size, page_bounds, page_offset, total_pages,
};
use scryfall_cache::read_path::{
    autocomplete_allowed, autocomplete_key, card_key, missing_ids, needs_upstream_fetch,
    project_in_request_order, query_key, search_step, SearchAction, SearchEvent, SearchStage,
};
use scryfall_cache::refresh::{refresh_step, BulkRefreshConfig, RefreshAction, RefreshEvent};
use scryfall_cache::sanitize::sanitize_query;
use scryfall_cache::translator::build_where_clause;
use scryfall_cache::validator::{QueryValidator, ValidationError};

#[test]
fn test_sanitize_query() {
    assert_eq!(sanitize_query(""), "");
    assert_eq!(sanitize_query("q=sol+ring"), "q=sol+ring");
    assert_eq!(sanitize_query("api_key=secret123"), "api_key=***");
    assert_eq!(
        sanitize_query("q=test&api_key=secret&limit=10"),
        "q=test&api_key=***&limit=10"
    );
}

#[test]
fn sanitize_masks_each_key_once() {
    assert_eq!(
        sanitize_query("token=abc&password=p&x=1&secret=s"),
        "token=***&password=***&x=1&secret=***"
    );
}

#[test]
fn test_default_config() {
    let config = BulkRefreshConfig::default();
    assert!(config.enabled);
    assert_eq!(config.check_interval_hours, 720);
}

#[test]
fn test_monthly_interval() {
    let config = BulkRefreshConfig {
        enabled: true,
        check_interval_hours: 720,
    };
    assert_eq!(config.check_interval_hours / 24, 30);
    assert_eq!(config.interval_secs(), Some(2_592_000));
}

#[test]
fn test_server_address() {
    let config = Config {
        database: DatabaseConfig {
            url: "postgresql://localhost/test".to_string(),
            max_connections: 10,
            min_connections: 0,
            acquire_timeout_ms: 30_000,
            idle_timeout_seconds: 600,
            max_lifetime_seconds: 1800,
        },
        server: ServerConfig {
            host: "127.0.0.1".to_string(),
            port: 3000,
            instance_id: "test-instance".to_string(),
        },
        scryfall: ScryfallConfig {
            rate_limit_per_second: 10,
            bulk_data_type: "default_cards".to_string(),
            cache_ttl_hours: 24,
        },
        cache: CacheConfig {
            query_cache_ttl_hours: 24,
            query_cache_max_size: 10000,
            redis: None,
        },
    };
    assert_eq!(config.server_address(), "127.0.0.1:3000");
}

#[test]
fn test_error_code_status_codes() {
    assert_eq!(ErrorCode::InvalidQuery.status_code(), 400);
    assert_eq!(ErrorCode::ValidationError.status_code(), 400);
    assert_eq!(ErrorCode::InvalidApiKey.status_code(), 401);
    assert_eq!(ErrorCode::CardNotFound.status_code(), 404);
    assert_eq!(ErrorCode::RateLimitExceeded.status_code(), 429);
    assert_eq!(ErrorCode::InternalError.status_code(), 500);
    assert_eq!(ErrorCode::ScryfallApiError.status_code(), 502);
    assert_eq!(ErrorCode::DatabaseError.status_code(), 503);
}

#[test]
fn test_helper_methods() {
    let err = ErrorResponse::card_not_found("abc123", "7f1c6a52-0000-4000-8000-000000000001");
    assert_eq!(err.error.code, ErrorCode::CardNotFound);
    assert!(err.error.message.contains("abc123"));
    assert!(!err.success);
    assert_eq!(err.status_code(), 404);
    assert_eq!(ErrorCode::ScryfallApiError.as_str(), "SCRYFALL_API_ERROR");
}

#[test]
fn test_hash_query() {
    let query1 = "name:lightning c:red";
    let query2 = "name:lightning c:red";
    let query3 = "name:bolt c:red";
    let hash1 = hash_query(query1);
    let hash2 = hash_query(query2);
    let hash3 = hash_query(query3);
    assert_eq!(hash1, hash2);
    assert_ne!(hash1, hash3);
    assert_eq!(hash1.len(), 64);
}

#[test]
fn hash_query_known_digest() {
    assert_eq!(
        hash_query("abc"),
        "ba7816bf8f01cfea414140de5dae2223b00361a396177a9cb410ff61f20015ad"
    );
    assert_ne!(hash_query("c:r  t:elf"), hash_query("c:r t:elf"));
}

#[test]
fn invalid_query_scenario() {
    let v = QueryValidator::new(QueryLimits::default());
    let r = check_search_query(&v, "((((");
    assert_eq!(r.as_ref().err().copied(), Some(QueryRejection::Malformed(Some(ValidationError::Unclosed))));
    assert_eq!(r.err().unwrap().code(), ErrorCode::InvalidQuery);
    assert_eq!(ErrorCode::InvalidQuery.status_code(), 400);
}

#[test]
fn validation_rejection_scenario() {
    let v = QueryValidator::new(QueryLimits::default());
    let r = check_search_query(&v, "name:>5");
    assert_eq!(r.as_ref().err().copied(), Some(QueryRejection::Invalid(ValidationError::OrderingOnText)));
    assert_eq!(r.err().unwrap().code(), ErrorCode::ValidationError);
    let long = "a".repeat(1001);
    assert_eq!(check_search_query(&v, &long).err().unwrap().code(), ErrorCode::ValidationError);
    assert!(check_search_query(&v, "c:r").is_ok());
}

#[test]
fn simple_search_scenario_translation() {
    let v = QueryValidator::new(QueryLimits::default());
    let ast = check_search_query(&v, "c:r").unwrap();
    let (clause, params) = build_where_clause(&ast);
    assert_eq!(clause, "$1 = ANY(colors)");
    assert_eq!(params, vec!["R"]);
    assert_eq!(normalize_page(Some(1)), 1);
    assert_eq!(normalize_page_size(Some(10)), 10);
    assert_eq!(page_offset(1, 10), Some(0));
}

#[test]
fn paging_rules() {
    assert_eq!(normalize_page(None), 1);
    assert_eq!(normalize_page(Some(0)), 1);
    assert_eq!(normalize_page_size(None), 100);
    assert_eq!(normalize_page_size(Some(0)), 1);
    assert_eq!(normalize_page_size(Some(5000)), 1000);
    assert_eq!(total_pages(0, 10), 0);
    assert_eq!(total_pages(10, 10), 1);
    assert_eq!(total_pages(11, 10), 2);
    assert!(has_more(1, 2));
    assert!(!has_more(2, 2));
    assert_eq!(page_offset(3, 25), Some(50));
    assert_eq!(page_offset(usize::MAX, 2), None);
    assert_eq!(page_bounds(23, 1, 10), (0, 10));
    assert_eq!(page_bounds(23, 3, 10), (20, 23));
    assert_eq!(page_bounds(23, 4, 10), (23, 23));
    let p = PaginatedResponse::new(vec![1, 2, 3], 23, 3, 10);
    assert_eq!((p.total_pages, p.has_more), (3, false));
}

#[test]
fn pages_concatenate_to_everything() {
    let items: Vec<u32> = (0..23).collect();
    let mut all = Vec::new();
    let pages = total_pages(items.len(), 7);
    for page in 1..=pages {
        let (a, b) = page_bounds(items.len(), page, 7);
        all.extend_from_slice(&items[a..b]);
    }
    assert_eq!(all, items);
}

#[test]
fn batch_with_missing_scenario() {
    let l = 0x1111u128;
    let x = 0x2222u128;
    let requested = vec![l, x];
    let found = vec![l];
    assert_eq!(missing_ids(&requested, &found), vec![x]);
    assert_eq!(project_in_request_order(&requested, &found), vec![0]);
    assert!(!needs_upstream_fetch(false, &vec![x]));
    assert!(needs_upstream_fetch(true, &vec![x]));
    assert!(!needs_upstream_fetch(true, &vec![]));
}

#[test]
fn batch_order_and_dedup() {
    let ids = vec![3u128, 1, 3, 2, 1, 4];
    let found = vec![1u128, 3, 1];
    assert_eq!(missing_ids(&ids, &found), vec![2, 4]);
    assert_eq!(project_in_request_order(&ids, &found), vec![1, 2, 1, 2]);
}

#[test]
fn autocomplete_scenario() {
    assert!(autocomplete_allowed("light"));
    assert!(!autocomplete_allowed("l"));
    assert!(!autocomplete_allowed(""));
    assert_eq!(autocomplete_key("LiGHT"), "autocomplete:light");
    assert_eq!(query_key("ab12"), "query:ab12");
    assert_eq!(card_key("00000000-0000-0000-0000-000000000000"), "card:00000000-0000-0000-0000-000000000000");
    let r = AutocompleteResponse::catalog(vec!["Lightning Bolt".to_string(), "Lightning Helix".to_string()]);
    assert_eq!(r.object, "catalog");
    assert_eq!(r.data.len(), 2);
}

#[test]
fn read_path_tier_order() {
    let mut stage = SearchStage::Start;
    let mut seen = Vec::new();
    let events = [
        SearchEvent::Begin,
        SearchEvent::Ids(3),
        SearchEvent::Cards(0),
        SearchEvent::Ids(0),
        SearchEvent::Rows(Some(0)),
        SearchEvent::UpstreamCards(2),
    ];
    for ev in events {
        let (next, act) = search_step(true, stage, ev);
        seen.push(act);
        stage = next;
    }
    assert_eq!(
        seen,
        vec![
            SearchAction::LookupDistributed,
            SearchAction::FetchCards,
            SearchAction::LookupResultSet,
            SearchAction::RunPredicate,
            SearchAction::SearchUpstream,
            SearchAction::UpsertReturnAndCache,
        ]
    );
    assert_eq!(stage, SearchStage::Done);
    assert_eq!(search_step(false, SearchStage::Start, SearchEvent::Begin).1, SearchAction::LookupResultSet);
    assert_eq!(search_step(false, SearchStage::ResultSetCards, SearchEvent::Cards(4)).1, SearchAction::ReturnCached);
    assert_eq!(search_step(true, SearchStage::Predicate, SearchEvent::Rows(Some(9))).1, SearchAction::ReturnAndCache);
    assert_eq!(search_step(true, SearchStage::Predicate, SearchEvent::Rows(None)).1, SearchAction::SearchUpstream);
    assert_eq!(search_step(true, SearchStage::Upstream, SearchEvent::UpstreamCards(0)).1, SearchAction::ReturnEmpty);
    assert_eq!(search_step(true, SearchStage::Upstream, SearchEvent::UpstreamError).1, SearchAction::Fail);
    assert_eq!(search_step(true, SearchStage::Done, SearchEvent::Begin), (SearchStage::Done, SearchAction::Nothing));
}

#[test]
fn refresh_no_op_scenario() {
    let t = 1_700_000_000i64;
    let updated = upstream_updated(Some(t), t);
    assert!(!updated);
    assert_eq!(refresh_step(RefreshEvent::Tick), RefreshAction::CheckUpstream);
    assert_eq!(refresh_step(RefreshEvent::UpstreamChecked(Some(updated))), RefreshAction::Idle);
    assert_eq!(refresh_step(RefreshEvent::UpstreamChecked(Some(true))), RefreshAction::Load);
    assert_eq!(refresh_step(RefreshEvent::UpstreamChecked(None)), RefreshAction::CheckStaleness);
    assert_eq!(refresh_step(RefreshEvent::StalenessChecked(Some(true))), RefreshAction::Load);
    assert_eq!(refresh_step(RefreshEvent::StalenessChecked(None)), RefreshAction::Idle);
    assert!(upstream_updated(Some(t), t + 1));
    assert!(upstream_updated(None, t));
}

#[test]
fn staleness_rules() {
    let now = 1_700_000_000i64;
    assert!(should_load(false, None, now, 24));
    assert!(!should_load(true, None, now, 24));
    assert!(!should_load(true, Some(now - 23 * 3600 - 3599), now, 24));
    assert!(should_load(true, Some(now - 24 * 3600), now, 24));
    assert!(!should_load(true, Some(now + 10), now, 1));
}

#[test]
fn retry_backoff_schedule() {
    assert_eq!(retry_with_backoff(1, 3, true), RetryAction::Finish);
    assert_eq!(retry_with_backoff(1, 3, false), RetryAction::Retry(1000));
    assert_eq!(retry_with_backoff(2, 3, false), RetryAction::Retry(2000));
    assert_eq!(retry_with_backoff(3, 4, false), RetryAction::Retry(4000));
    assert_eq!(retry_with_backoff(3, 3, false), RetryAction::GiveUp);
    assert_eq!(retry_with_backoff(70, 100, false), RetryAction::Retry(u64::MAX));
}

#[test]
fn bulk_selection_and_sizes() {
    let types = vec!["oracle_cards".to_string(), "default_cards".to_string()];
    assert_eq!(select_bulk_type(&types, "default_cards"), Ok(1));
    assert!(matches!(select_bulk_type(&types, "all_cards"), Err(BulkError::TypeNotFound(t)) if t == types));
    assert_eq!(check_download_size(0, 100), Err(BulkError::EmptyDownload));
    assert_eq!(check_download_size(105, 100), Ok(false));
    assert_eq!(check_download_size(111, 100), Ok(true));
    assert_eq!(check_download_size(5, 0), Ok(true));
}

#[test]
fn bulk_decoding() {
    let plain = br#"[{"name":"a"},{"name":"b"}]"#.to_vec();
    assert_eq!(decode_bulk(&plain).unwrap().len(), 2);
    let mut enc = flate2::write::GzEncoder::new(Vec::new(), flate2::Compression::default());
    std::io::Write::write_all(&mut enc, &plain).unwrap();
    let gz = enc.finish().unwrap();
    assert_eq!(decode_bulk(&gz).unwrap().len(), 2);
    assert!(matches!(decode_bulk(&b"not json".to_vec()), Err(BulkError::NotGzip(_, _))));
    let mut enc = flate2::write::GzEncoder::new(Vec::new(), flate2::Compression::default());
    std::io::Write::write_all(&mut enc, b"{}").unwrap();
    let gz_obj = enc.finish().unwrap();
    assert!(matches!(decode_bulk(&gz_obj), Err(BulkError::Undecodable(_, _))));
}

#[test]
fn import_progress_batches_and_verdict() {
    assert_eq!(ImportProgress::new(0).err(), Some(BulkError::EmptyArray));
    let mut p = ImportProgress::new(1200).unwrap();
    let mut flushes = 0;
    for i in 0..1200 {
        if i % 100 == 0 {
            p.card_failed();
            continue;
        }
        if p.card_ok() {
            flushes += 1;
            p.batch_stored();
        }
    }
    p.batch_stored();
    assert_eq!(flushes, 1188 / BATCH_SIZE);
    assert_eq!(p.imported, 1188);
    assert_eq!(p.finish(), Ok((1188, false)));
    let mut q = ImportProgress::new(10).unwrap();
    q.card_ok();
    q.batch_stored();
    assert_eq!(q.finish(), Err(BulkError::TooFewCards(1)));
}

#[test]
fn api_helpers() {
    let r = ApiResponse::success(5u8);
    assert!(r.success);
    assert_eq!(r.data, Some(5));
    let n = NamedParams { fuzzy: Some("bolt".to_string()), exact: Some("x".to_string()) };
    assert_eq!(named_target(&n), Ok(("bolt".to_string(), true)));
    let e = NamedParams { fuzzy: None, exact: Some("Lightning Bolt".to_string()) };
    assert_eq!(named_target(&e), Ok(("Lightning Bolt".to_string(), false)));
    let none = NamedParams { fuzzy: None, exact: None };
    assert_eq!(named_target(&none), Err(ErrorCode::ValidationError));
    assert_eq!(check_batch_len(0, 10), Err(ErrorCode::ValidationError));
    assert_eq!(check_batch_len(11, 10), Err(ErrorCode::ValidationError));
    assert_eq!(check_batch_len(10, 10), Ok(()));
    assert_eq!(batch_parallelism(None), 4);
    assert_eq!(batch_parallelism(Some(0)), 1);
    assert_eq!(batch_parallelism(Some(99)), 32);
    assert_eq!(request_order(&vec![2, 0, 1]), vec![1, 2, 0]);
}
