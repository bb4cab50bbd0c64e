use scryfall_cache::parser::{Filter, Operator, QueryParser};
use scryfall_cache::translator::{
    build_color_clause, build_filter_clause, build_numeric_comparison, build_text_search,
    build_where_clause, count_sql, page_sql, search_sql,
};

#[test]
fn test_build_filter_clause() {
    let filter = Filter {
        field: "name".to_string(),
        operator: Operator::Contains,
        value: "lightning".to_string(),
    };
    let mut params = Vec::new();
    let clause = build_filter_clause(&filter, &mut params);
    assert!(clause.contains("to_tsvector"));
    assert_eq!(params.len(), 1);
    assert_eq!(params[0], "lightning");
}

#[test]
fn text_search_forms() {
    assert_eq!(build_text_search("name", 1, &Operator::Equal), "LOWER(name) = LOWER($1)");
    assert_eq!(
        build_text_search("oracle_text", 12, &Operator::Contains),
        "to_tsvector('english', oracle_text) @@ plainto_tsquery('english', $12)"
    );
    assert_eq!(build_text_search("type_line", 3, &Operator::Regex), "type_line ~ $3");
    assert_eq!(build_text_search("name", 2, &Operator::NotEqual), "name ILIKE '%' || $2 || '%'");
}

#[test]
fn numeric_comparison_forms() {
    assert_eq!(build_numeric_comparison("cmc", 1, &Operator::GreaterThanOrEqual), "cmc >= $1::numeric");
    assert_eq!(build_numeric_comparison("power::numeric", 2, &Operator::Contains), "power::numeric = $2::numeric");
    assert_eq!(build_numeric_comparison("cmc", 10, &Operator::NotEqual), "cmc != $10::numeric");
}

#[test]
fn color_clause_uses_first_code() {
    let mut params = Vec::new();
    assert_eq!(build_color_clause("ur", &Operator::Contains, &mut params), "$1 = ANY(colors)");
    assert_eq!(params, vec!["U"]);
    assert_eq!(build_color_clause(" x g", &Operator::NotEqual, &mut params), "NOT ($2 = ANY(colors))");
    assert_eq!(params, vec!["U", "G"]);
}

#[test]
fn empty_color_value_is_no_color() {
    let mut params = Vec::new();
    assert_eq!(build_color_clause("", &Operator::Contains, &mut params), "(colors IS NULL OR colors = '{}')");
    assert!(params.is_empty());
    let ast = QueryParser::parse("c:").unwrap();
    let (clause, params) = build_where_clause(&ast);
    assert_eq!(clause, "(colors IS NULL OR colors = '{}')");
    assert!(params.is_empty());
    let ast = QueryParser::parse("t:elf c:").unwrap();
    let (clause, params) = build_where_clause(&ast);
    assert_eq!(
        clause,
        "(to_tsvector('english', type_line) @@ plainto_tsquery('english', $1) AND (colors IS NULL OR colors = '{}'))"
    );
    assert_eq!(params, vec!["elf"]);
}

#[test]
fn and_concatenates_params_and_renumbers() {
    let (a, pa) = build_where_clause(&QueryParser::parse("c:red").unwrap());
    let (b, pb) = build_where_clause(&QueryParser::parse("s:M21").unwrap());
    assert_eq!(a, "$1 = ANY(colors)");
    assert_eq!(b, "set_code = $1");
    let (ab, pab) = build_where_clause(&QueryParser::parse("c:red s:M21").unwrap());
    assert_eq!(ab, "($1 = ANY(colors) AND set_code = $2)");
    let mut joined = pa.clone();
    joined.extend(pb.clone());
    assert_eq!(pab, joined);
    assert_eq!(pab, vec!["R", "m21"]);
}

#[test]
fn not_keeps_params() {
    let (a, pa) = build_where_clause(&QueryParser::parse("cmc:>=3").unwrap());
    let (n, pn) = build_where_clause(&QueryParser::parse("not cmc:>=3").unwrap());
    assert_eq!(n, format!("NOT ({})", a));
    assert_eq!(pa, pn);
    assert_eq!(pn, vec!["3"]);
}

#[test]
fn or_and_identity_clauses() {
    let (c, p) = build_where_clause(&QueryParser::parse("id:w or r:Rare").unwrap());
    assert_eq!(c, "($1 = ANY(color_identity) OR rarity = $2)");
    assert_eq!(p, vec!["W", "rare"]);
}

#[test]
fn search_forms() {
    assert_eq!(count_sql("x = $1"), "SELECT COUNT(*) FROM cards WHERE x = $1");
    assert_eq!(
        page_sql("x = $1", 10, 20),
        "SELECT * FROM cards WHERE x = $1 ORDER BY name ASC, id ASC LIMIT 10 OFFSET 20"
    );
    let mut params = vec!["a".to_string()];
    assert_eq!(
        search_sql("x = $1", &mut params, Some(50)),
        "SELECT * FROM cards WHERE x = $1 ORDER BY name ASC, id ASC LIMIT $2"
    );
    assert_eq!(params, vec!["a", "50"]);
    assert_eq!(search_sql("x", &mut params, None), "SELECT * FROM cards WHERE x ORDER BY name ASC, id ASC");
}
