use scryfall_cache::limits::QueryLimits;
use scryfall_cache::parser::{Filter, Operator, QueryParser};
use scryfall_cache::validator::{QueryValidator, ValidationError};

#[test]
fn test_query_too_long() {
    let validator = QueryValidator::new(QueryLimits {
        max_query_length: 10,
        ..Default::default()
    });
    let result = validator.validate_query_string("this is a very long query");
    assert!(result.is_err());
    assert!(result.unwrap_err().message().contains("Query too long"));
}

#[test]
fn test_unbalanced_parentheses() {
    let validator = QueryValidator::new(QueryLimits::default());
    assert!(validator.validate_query_string("(name:sol").is_err());
    assert!(validator.validate_query_string("name:sol)").is_err());
    assert!(validator.validate_query_string("(name:sol)").is_ok());
}

#[test]
fn test_invalid_field_name() {
    let validator = QueryValidator::new(QueryLimits::default());
    let filter = Filter {
        field: "invalid_field".to_string(),
        operator: Operator::Equal,
        value: "test".to_string(),
    };
    let result = validator.validate_filter(&filter);
    assert!(result.is_err());
    assert!(result.unwrap_err().message().contains("Invalid field name"));
}

#[test]
fn test_numeric_operator_on_text_field() {
    let validator = QueryValidator::new(QueryLimits::default());
    let filter = Filter {
        field: "name".to_string(),
        operator: Operator::GreaterThan,
        value: "5".to_string(),
    };
    let result = validator.validate_filter(&filter);
    assert!(result.is_err());
    assert!(result.unwrap_err().message().contains("not valid for text field"));
}

#[test]
fn test_valid_filter() {
    let validator = QueryValidator::new(QueryLimits::default());
    let filter = Filter {
        field: "name".to_string(),
        operator: Operator::Contains,
        value: "lightning".to_string(),
    };
    assert!(validator.validate_filter(&filter).is_ok());
}

#[test]
fn default_limits() {
    let l = QueryLimits::default();
    assert_eq!(l.max_query_length, 1000);
    assert_eq!(l.max_nesting_depth, 5);
    assert_eq!(l.max_or_clauses, 10);
    assert_eq!(l.max_results, 1000);
    assert_eq!(l.query_timeout_seconds, 30);
}

#[test]
fn parenthesis_errors_are_told_apart() {
    let v = QueryValidator::new(QueryLimits::default());
    assert_eq!(v.validate_query_string("a)("), Err(ValidationError::TooManyClosing));
    assert_eq!(v.validate_query_string("(("), Err(ValidationError::Unclosed));
    assert_eq!(v.validate_query_string(""), Ok(()));
}

#[test]
fn length_limit_is_inclusive() {
    let v = QueryValidator::new(QueryLimits { max_query_length: 5, ..Default::default() });
    assert_eq!(v.validate_query_string("abcde"), Ok(()));
    assert_eq!(v.validate_query_string("abcdef"), Err(ValidationError::QueryTooLong));
}

#[test]
fn depth_and_or_limits() {
    let v = QueryValidator::new(QueryLimits {
        max_nesting_depth: 2,
        max_or_clauses: 1,
        ..Default::default()
    });
    let shallow = QueryParser::parse("c:r or c:u").unwrap();
    assert_eq!(v.validate_ast(&shallow), Ok(()));
    let deep = QueryParser::parse("not not c:r").unwrap();
    assert_eq!(v.validate_ast(&deep), Err(ValidationError::TooDeep));
    let ors = QueryParser::parse("(c:r or c:u) (t:elf or t:goblin)").unwrap();
    let v2 = QueryValidator::new(QueryLimits { max_or_clauses: 1, ..Default::default() });
    assert_eq!(v2.validate_ast(&ors), Err(ValidationError::TooManyOr));
}

#[test]
fn colors_and_fields_in_trees() {
    let v = QueryValidator::new(QueryLimits::default());
    let bad_color = QueryParser::parse("c:rx").unwrap();
    assert_eq!(v.validate_ast(&bad_color), Err(ValidationError::InvalidColor));
    let good_color = QueryParser::parse("c:WuBrGc").unwrap();
    assert_eq!(v.validate_ast(&good_color), Ok(()));
    let numeric = QueryParser::parse("cmc:>=3 pow:<2").unwrap();
    assert_eq!(v.validate_ast(&numeric), Ok(()));
    let unknown = QueryParser::parse("c:r foo:bar").unwrap();
    assert_eq!(v.validate_ast(&unknown), Err(ValidationError::UnknownField));
    assert_eq!(v.limits().max_nesting_depth, 5);
}

#[test]
fn allowed_fields_are_the_canonical_set() {
    let v = QueryValidator::new(QueryLimits::default());
    for q in ["id:wu", "identity:c", "name:bolt", "c:r", "t:elf", "o:draw", "s:m21", "r:rare", "pow:>2", "tou:<3", "loy:4", "cmc:>=1", "mana:2"] {
        let ast = QueryParser::parse(q).unwrap();
        assert_eq!(v.validate_ast(&ast), Ok(()), "{}", q);
    }
    for q in ["artist:Poole", "colors:r", "flavor:x", "layout:normal"] {
        let ast = QueryParser::parse(q).unwrap();
        assert_eq!(v.validate_ast(&ast), Err(ValidationError::UnknownField), "{}", q);
    }
    let bad = QueryParser::parse("id:wx").unwrap();
    assert_eq!(v.validate_ast(&bad), Err(ValidationError::InvalidColor));
}

#[test]
fn length_limit_counts_bytes() {
    let v = QueryValidator::new(QueryLimits { max_query_length: 6, ..Default::default() });
    assert_eq!(v.validate_query_string("ééé"), Ok(()));
    assert_eq!(v.validate_query_string("éééé"), Err(ValidationError::QueryTooLong));
}
