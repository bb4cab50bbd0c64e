use scryfall_cache::read_path::{
    fits_tier, lookup_step, paged_step, LookupAction, LookupStage, PagedAction, PagedEvent, PagedStage,
};
use scryfall_cache::errors::ErrorCode;
use scryfall_cache::store::{MemoryStore, NewCard};
use scryfall_cache::upstream::{
    card_url, classify_status, collection_chunks, failure_code, named_url, next_page_url,
    search_url, ResponseClass,
};

fn card(id: u128, name: &str) -> NewCard {
    NewCard { id, name: name.to_string(), raw_json: format!("{{\"name\":\"{}\"}}", name) }
}

#[test]
fn upsert_then_get_card() {
    let mut s = MemoryStore::new();
    assert!(!s.any_cards());
    s.upsert_cards(&vec![card(1, "Lightning Bolt"), card(2, "Counterspell")], 100);
    let c = s.get_card(1).unwrap();
    assert_eq!(c.id, 1);
    assert_eq!(c.name, "Lightning Bolt");
    assert_eq!(c.raw_json, "{\"name\":\"Lightning Bolt\"}");
    assert_eq!((c.created_at, c.updated_at), (100, 100));
    assert!(s.get_card(3).is_none());
    assert_eq!(s.card_count(), 2);
}

#[test]
fn upsert_keeps_created_and_bumps_updated() {
    let mut s = MemoryStore::new();
    s.upsert_cards(&vec![card(1, "Bolt")], 100);
    s.upsert_cards(&vec![card(1, "Lightning Bolt")], 200);
    let c = s.get_card(1).unwrap();
    assert_eq!(c.name, "Lightning Bolt");
    assert_eq!((c.created_at, c.updated_at), (100, 200));
}

#[test]
fn duplicate_upsert_is_idempotent() {
    let mut a = MemoryStore::new();
    let mut b = MemoryStore::new();
    a.upsert_cards(&vec![card(7, "Opt"), card(7, "Opt")], 5);
    b.upsert_cards(&vec![card(7, "Opt")], 5);
    assert_eq!(a.card_count(), b.card_count());
    let (x, y) = (a.get_card(7).unwrap(), b.get_card(7).unwrap());
    assert_eq!((x.name, x.raw_json, x.created_at, x.updated_at), (y.name, y.raw_json, y.created_at, y.updated_at));
}

#[test]
fn reload_keeps_count() {
    let mut s = MemoryStore::new();
    let batch = vec![card(1, "a"), card(2, "b"), card(3, "c")];
    s.upsert_cards(&batch, 1);
    s.record_import(3, "https://example.invalid/bulk.json", 1);
    let n = s.card_count();
    s.upsert_cards(&batch, 2);
    s.record_import(3, "https://example.invalid/bulk.json", 2);
    assert_eq!(s.card_count(), n);
    assert_eq!(s.last_import_timestamp(), Some(2));
}

#[test]
fn result_set_round_trip() {
    let mut s = MemoryStore::new();
    assert!(s.get_result_set("fp", 0).is_none());
    s.put_result_set("fp", &vec![3, 1, 2], 24, 10);
    assert_eq!(s.get_result_set("fp", 20), Some((vec![3, 1, 2], 24)));
    s.put_result_set("fp", &vec![9], 1, 30);
    assert_eq!(s.get_result_set("fp", 40), Some((vec![9], 1)));
    assert_eq!(s.result_set_count(), 1);
    assert_eq!(s.last_import_timestamp(), None);
}

#[test]
fn upstream_requests() {
    assert_eq!(classify_status(200), ResponseClass::Success);
    assert_eq!(classify_status(299), ResponseClass::Success);
    assert_eq!(classify_status(404), ResponseClass::NotFound);
    assert_eq!(classify_status(503), ResponseClass::Failure);
    assert_eq!(next_page_url(true, Some("p2".to_string())), Some("p2".to_string()));
    assert_eq!(next_page_url(false, Some("p2".to_string())), None);
    assert_eq!(search_url("c:r t:elf"), "https://api.scryfall.com/cards/search?q=c%3Ar%20t%3Aelf");
    assert_eq!(card_url("abc"), "https://api.scryfall.com/cards/abc");
    assert_eq!(named_url("Sol Ring", true), "https://api.scryfall.com/cards/named?fuzzy=Sol%20Ring");
    assert_eq!(named_url("Opt", false), "https://api.scryfall.com/cards/named?exact=Opt");
}

#[test]
fn collection_chunking() {
    assert_eq!(collection_chunks(0, 75), vec![]);
    assert_eq!(collection_chunks(75, 75), vec![(0, 75)]);
    assert_eq!(collection_chunks(160, 75), vec![(0, 75), (75, 150), (150, 160)]);
}

#[test]
fn failure_codes_from_messages() {
    assert_eq!(failure_code("Scryfall API error: 502"), ErrorCode::ScryfallApiError);
    assert_eq!(failure_code("Circuit breaker is open"), ErrorCode::ScryfallApiError);
    assert_eq!(failure_code("pool timed out"), ErrorCode::DatabaseError);
    assert_eq!(failure_code("boom"), ErrorCode::InternalError);
}

#[test]
fn single_card_lookup_order() {
    assert_eq!(lookup_step(true, LookupStage::Start, false), (LookupStage::Distributed, LookupAction::ReadDistributed));
    assert_eq!(lookup_step(true, LookupStage::Distributed, false), (LookupStage::Store, LookupAction::ReadStore));
    assert_eq!(lookup_step(true, LookupStage::Store, true), (LookupStage::Done, LookupAction::ReturnAndWarm));
    assert_eq!(lookup_step(false, LookupStage::Store, false), (LookupStage::Upstream, LookupAction::AskUpstream));
    assert_eq!(lookup_step(false, LookupStage::Upstream, false), (LookupStage::Done, LookupAction::ReturnNone));
    assert_eq!(lookup_step(false, LookupStage::Upstream, true), (LookupStage::Done, LookupAction::UpsertAndReturn));
    assert!(fits_tier(10 * 1024 * 1024 + 5, 10));
    assert!(!fits_tier(11 * 1024 * 1024, 10));
}

#[test]
fn split_sql_keeps_function_bodies_whole() {
    let sql = "CREATE TABLE a (x int);\n-- comment; ignored\nCREATE OR REPLACE FUNCTION f() RETURNS trigger AS $$\nBEGIN\n  NEW.x = 1;\n  RETURN NEW;\nEND;\n$$ language 'plpgsql';\r\nCREATE INDEX i ON a(x);\n  SELECT 1  ";
    let stmts = scryfall_cache::schema::split_sql_statements(sql);
    assert_eq!(
        stmts,
        vec![
            "CREATE TABLE a (x int);",
            "CREATE OR REPLACE FUNCTION f() RETURNS trigger AS $$\nBEGIN\n  NEW.x = 1;\n  RETURN NEW;\nEND;\n$$ language 'plpgsql';",
            "CREATE INDEX i ON a(x);",
            "SELECT 1",
        ]
    );
    assert!(scryfall_cache::schema::split_sql_statements("").is_empty());
    assert!(scryfall_cache::schema::split_sql_statements("-- only a comment\n\n").is_empty());
}

#[test]
fn expired_result_sets_are_misses_and_gc_evicts_idle_ones() {
    let mut s = MemoryStore::new();
    s.put_result_set("a", &vec![1], 1, 0);
    s.put_result_set("b", &vec![2], 24, 0);
    assert_eq!(s.get_result_set("a", 3600), Some((vec![1], 1)));
    assert_eq!(s.get_result_set("a", 3600 + 3601), None);
    assert_eq!(s.result_set_count(), 1);
    s.put_result_set("c", &vec![3], 24, 10_000);
    assert_eq!(s.gc_result_sets(3, 7300), 0);
    assert!(s.gc_result_sets(1, 7300) > 0);
    assert_eq!(s.result_set_count(), 1);
    assert_eq!(s.get_result_set("c", 10_001), Some((vec![3], 24)));
    assert_eq!(s.get_result_set("b", 10_001), None);
}

#[test]
fn get_cards_keeps_request_order() {
    let mut s = MemoryStore::new();
    s.upsert_cards(&vec![card(1, "a"), card(2, "b")], 0);
    let got: Vec<u128> = s.get_cards(&vec![2, 9, 1, 2]).iter().map(|c| c.id).collect();
    assert_eq!(got, vec![2, 1]);
}

#[test]
fn paginated_read_path() {
    assert_eq!(paged_step(PagedStage::Start, PagedEvent::Begin, 2, 10), (PagedStage::Count, PagedAction::Count));
    assert_eq!(paged_step(PagedStage::Count, PagedEvent::Counted(Some(25)), 2, 10), (PagedStage::Fetch(25), PagedAction::FetchPage(10)));
    assert_eq!(paged_step(PagedStage::Count, PagedEvent::Counted(Some(25)), 9, 10), (PagedStage::Fetch(25), PagedAction::FetchPage(25)));
    assert_eq!(paged_step(PagedStage::Fetch(25), PagedEvent::Fetched, 2, 10), (PagedStage::Done, PagedAction::ReturnPage(25)));
    assert_eq!(paged_step(PagedStage::Count, PagedEvent::Counted(Some(0)), 1, 10).1, PagedAction::AskUpstream);
    assert_eq!(paged_step(PagedStage::Count, PagedEvent::Counted(None), 1, 10).1, PagedAction::AskUpstream);
    assert_eq!(
        paged_step(PagedStage::Upstream, PagedEvent::UpstreamCards(23), 3, 10).1,
        PagedAction::Slice { upsert: true, start: 20, end: 23, total: 23 }
    );
    assert_eq!(
        paged_step(PagedStage::Upstream, PagedEvent::UpstreamCards(0), 1, 10).1,
        PagedAction::Slice { upsert: false, start: 0, end: 0, total: 0 }
    );
    assert_eq!(paged_step(PagedStage::Upstream, PagedEvent::UpstreamError, 1, 10).1, PagedAction::Fail);
}

#[test]
fn translate_whole_tree() {
    let ast = scryfall_cache::parser::QueryParser::parse("c:r or s:M21").unwrap();
    let (clause, params) = scryfall_cache::translator::translate(&ast).unwrap();
    assert_eq!(clause, "($1 = ANY(colors) OR set_code = $2)");
    assert_eq!(params, vec!["R", "m21"]);
}

#[test]
fn store_autocomplete_is_distinct_sorted_and_limited() {
    let mut s = MemoryStore::new();
    s.upsert_cards(
        &vec![card(1, "Lightning Helix"), card(2, "Lightning Bolt"), card(3, "Counterspell"), card(4, "Lightning Bolt"), card(5, "lightning axe")],
        0,
    );
    assert_eq!(s.autocomplete("LIGHT", 20), vec!["Lightning Bolt", "Lightning Helix", "lightning axe"]);
    assert_eq!(s.autocomplete("light", 2), vec!["Lightning Bolt", "Lightning Helix"]);
    assert!(s.autocomplete("zz", 20).is_empty());
    let mut names = s.names();
    names.sort();
    assert_eq!(names, vec!["Counterspell", "Lightning Bolt", "Lightning Bolt", "Lightning Helix", "lightning axe"]);
}

#[test]
fn complete_names_filters_and_orders() {
    let names: Vec<String> = vec!["b", "Ab", "a", "ab", "b"].into_iter().map(String::from).collect();
    assert_eq!(scryfall_cache::complete::complete_names(&names, "A", 10), vec!["Ab", "a", "ab"]);
    assert_eq!(scryfall_cache::complete::complete_names(&names, "", 2), vec!["Ab", "a"]);
}

#[test]
fn migration_sql_includes_phase_2_indexes() {
    let sql = scryfall_cache::schema::MIGRATION_SQL;
    assert!(sql.contains("idx_cards_colors_type"), "Missing composite colors/type index");
    assert!(sql.contains("idx_cards_cmc_colors"), "Missing cmc/colors index");
    assert!(sql.contains("idx_cards_set_rarity"), "Missing set/rarity index");
    assert!(sql.contains("idx_cards_set_collector"), "Missing set/collector index");
}

#[test]
fn migration_sql_includes_cmc_type_fix() {
    let sql = scryfall_cache::schema::MIGRATION_SQL;
    assert!(
        sql.contains("ALTER TABLE cards ALTER COLUMN cmc TYPE DOUBLE PRECISION"),
        "Missing CMC type fix migration"
    );
}

#[test]
fn migration_splits_into_statements() {
    let stmts = scryfall_cache::schema::migration_statements();
    assert!(stmts.iter().all(|s| !s.starts_with("--")));
    let function = stmts.iter().find(|s| s.starts_with("CREATE OR REPLACE FUNCTION")).unwrap();
    assert!(function.ends_with("$$ language 'plpgsql';"));
    assert!(stmts.iter().any(|s| s == "ALTER TABLE cards ALTER COLUMN cmc TYPE DOUBLE PRECISION;"));
    assert_eq!(stmts.len(), 19);
}

#[test]
fn get_cards_returns_each_card_once() {
    let mut s = MemoryStore::new();
    s.upsert_cards(&vec![card(7, "Opt")], 0);
    assert_eq!(s.get_cards(&vec![7, 7]).len(), 1);
}

#[test]
fn upsert_never_moves_updated_back() {
    let mut s = MemoryStore::new();
    s.upsert_cards(&vec![card(1, "a")], 100);
    s.upsert_cards(&vec![card(1, "b")], 50);
    let c = s.get_card(1).unwrap();
    assert_eq!((c.name.as_str(), c.created_at, c.updated_at), ("b", 100, 100));
}
