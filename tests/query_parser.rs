use scryfall_cache::parser::{Operator, QueryNode, QueryParser};

#[test]
fn test_tokenize() {
    let tokens = QueryParser::tokenize("name:lightning c:red");
    assert_eq!(tokens, vec!["name:lightning", "c:red"]);
}

#[test]
fn test_parse_simple_filter() {
    let ast = QueryParser::parse("name:lightning").unwrap();
    match ast {
        QueryNode::Filter(filter) => {
            assert_eq!(filter.field, "name");
            assert_eq!(filter.value, "lightning");
        }
        _ => panic!("Expected Filter node"),
    }
}

#[test]
fn test_parse_and() {
    let ast = QueryParser::parse("c:red t:creature").unwrap();
    match ast {
        QueryNode::And(nodes) => {
            assert_eq!(nodes.len(), 2);
        }
        _ => panic!("Expected And node"),
    }
}

#[test]
fn test_parse_or() {
    let ast = QueryParser::parse("c:red or c:blue").unwrap();
    match ast {
        QueryNode::Or(nodes) => {
            assert_eq!(nodes.len(), 2);
        }
        _ => panic!("Expected Or node"),
    }
}

#[test]
fn test_parse_comparison() {
    let ast = QueryParser::parse("cmc:>=3").unwrap();
    match ast {
        QueryNode::Filter(filter) => {
            assert_eq!(filter.field, "cmc");
            assert_eq!(filter.operator, Operator::GreaterThanOrEqual);
            assert_eq!(filter.value, "3");
        }
        _ => panic!("Expected Filter node"),
    }
}

#[test]
fn test_parse_not() {
    let ast = QueryParser::parse("not c:red").unwrap();
    match ast {
        QueryNode::Not(inner) => match *inner {
            QueryNode::Filter(filter) => {
                assert_eq!(filter.field, "color");
                assert_eq!(filter.value, "red");
            }
            _ => panic!("Expected Filter node inside Not"),
        },
        _ => panic!("Expected Not node"),
    }
}

#[test]
fn tokenize_keeps_quoted_text_and_splits_parentheses() {
    let tokens = QueryParser::tokenize("(name:\"sol ring\" or t:artifact)");
    assert_eq!(tokens, vec!["(", "name:\"sol ring\"", "or", "t:artifact", ")"]);
    assert!(QueryParser::tokenize("").is_empty());
    assert!(QueryParser::tokenize("   ").is_empty());
}

#[test]
fn parse_strips_quotes_and_reads_bareword_as_name() {
    match QueryParser::parse("\"Lightning Bolt\"").unwrap() {
        QueryNode::Filter(f) => {
            assert_eq!(f.field, "name");
            assert_eq!(f.operator, Operator::Contains);
            assert_eq!(f.value, "Lightning Bolt");
        }
        _ => panic!("Expected Filter node"),
    }
}

#[test]
fn parse_operators_and_aliases() {
    let cases = [
        ("pow:<=2", "power", Operator::LessThanOrEqual, "2"),
        ("tou:>4", "toughness", Operator::GreaterThan, "4"),
        ("loy:<3", "loyalty", Operator::LessThan, "3"),
        ("r:!=common", "rarity", Operator::NotEqual, "common"),
        ("s:=m21", "set", Operator::Equal, "m21"),
        ("o:/draw.*card/", "oracle", Operator::Regex, "draw.*card"),
        ("T:goblin", "type", Operator::Contains, "goblin"),
        ("id:wu", "color_identity", Operator::Contains, "wu"),
        ("mana:3", "cmc", Operator::Contains, "3"),
        ("artist:Poole", "artist", Operator::Contains, "Poole"),
    ];
    for (q, field, op, value) in cases {
        match QueryParser::parse(q).unwrap() {
            QueryNode::Filter(f) => {
                assert_eq!(f.field, field, "{}", q);
                assert_eq!(f.operator, op, "{}", q);
                assert_eq!(f.value, value, "{}", q);
            }
            _ => panic!("Expected Filter node for {}", q),
        }
    }
}

#[test]
fn parse_flattens_or_chains_and_groups() {
    match QueryParser::parse("c:r or c:u or c:g").unwrap() {
        QueryNode::Or(nodes) => assert_eq!(nodes.len(), 3),
        _ => panic!("Expected Or node"),
    }
    match QueryParser::parse("(c:r or c:u) and t:instant").unwrap() {
        QueryNode::And(nodes) => {
            assert_eq!(nodes.len(), 2);
            assert!(matches!(nodes[0], QueryNode::Or(_)));
        }
        _ => panic!("Expected And node"),
    }
    match QueryParser::parse("- c:r").unwrap() {
        QueryNode::Not(_) => {}
        _ => panic!("Expected Not node"),
    }
}

#[test]
fn parse_fails_on_missing_term() {
    assert!(QueryParser::parse("").is_err());
    assert!(QueryParser::parse("c:r and").is_err());
    assert!(QueryParser::parse("not").is_err());
    assert!(QueryParser::parse("c:r or").is_err());
}

#[test]
fn tokenize_splits_on_unicode_whitespace() {
    assert_eq!(QueryParser::tokenize("c:r\tt:elf\u{3000}o:draw\u{a0}x"), vec!["c:r", "t:elf", "o:draw", "x"]);
    assert_eq!(QueryParser::tokenize("\"a\tb\""), vec!["\"a\tb\""]);
}
