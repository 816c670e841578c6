use connectorx::errors::ConnectorAgentError;
use connectorx::sql::{
    all_takeable, check_tokens, get_limit, limit_from_shapes, parse_count, StatementShape, TokenKind,
};

#[test]
fn parse_count_reads_decimal_digits() {
    assert_eq!(parse_count("0"), Some(0));
    assert_eq!(parse_count("7"), Some(7));
    assert_eq!(parse_count("007"), Some(7));
    assert_eq!(parse_count("1234567890"), Some(1234567890));
    assert_eq!(
        parse_count(&usize::MAX.to_string()),
        Some(usize::MAX)
    );
}

#[test]
fn parse_count_refuses_what_is_no_count() {
    assert_eq!(parse_count(""), None);
    assert_eq!(parse_count("12a"), None);
    assert_eq!(parse_count("+7"), None);
    assert_eq!(parse_count("-7"), None);
    assert_eq!(parse_count("1 + 1"), None);
    assert_eq!(parse_count("٧"), None);
    assert_eq!(parse_count("340282366920938463463374607431768211456"), None);
    let mut too_large = usize::MAX.to_string();
    too_large.push('0');
    assert_eq!(parse_count(&too_large), None);
}

#[test]
fn limit_of_a_query_is_its_row_count() {
    assert_eq!(get_limit("SELECT * FROM t LIMIT 7").unwrap(), Some(7));
    assert_eq!(get_limit("select a, b from t where a > 3 limit 1000").unwrap(), Some(1000));
    assert_eq!(get_limit("SELECT * FROM t LIMIT 0").unwrap(), Some(0));
}

#[test]
fn a_query_without_limit_has_none() {
    assert_eq!(get_limit("SELECT * FROM t").unwrap(), None);
    assert_eq!(get_limit("SELECT a FROM t ORDER BY a;").unwrap(), None);
}

#[test]
fn a_text_that_does_not_parse_is_a_parser_error() {
    assert!(matches!(
        get_limit("SELECT * FROM"),
        Err(ConnectorAgentError::SQLParserError(_))
    ));
    assert!(matches!(
        get_limit("SELECT * FROM t LIMIT 1 + 1"),
        Err(ConnectorAgentError::SQLParserError(_))
    ));
}

#[test]
fn only_a_single_query_is_supported() {
    match get_limit("SELECT 1; SELECT 2") {
        Err(ConnectorAgentError::SQLQueryNotSupported(q)) => assert_eq!(q, "SELECT 1; SELECT 2"),
        other => panic!("unexpected outcome: {:?}", other),
    }
    assert!(matches!(
        get_limit("INSERT INTO t VALUES (1)"),
        Err(ConnectorAgentError::SQLQueryNotSupported(_))
    ));
    assert!(matches!(get_limit(""), Err(ConnectorAgentError::SQLQueryNotSupported(_))));
    assert!(matches!(
        get_limit("SELECT * FROM t LIMIT 1.5"),
        Err(ConnectorAgentError::SQLQueryNotSupported(_))
    ));
}

#[test]
fn limit_is_read_off_the_shapes_of_a_text() {
    let one = vec![StatementShape::Query(Some("12".to_string()))];
    assert_eq!(limit_from_shapes("q", &one).unwrap(), Some(12));
    let none = vec![StatementShape::Query(None)];
    assert_eq!(limit_from_shapes("q", &none).unwrap(), None);
    let other = vec![StatementShape::Other];
    assert!(matches!(
        limit_from_shapes("q", &other),
        Err(ConnectorAgentError::SQLQueryNotSupported(q)) if q == "q"
    ));
    let two = vec![StatementShape::Query(None), StatementShape::Query(None)];
    assert!(matches!(
        limit_from_shapes("q", &two),
        Err(ConnectorAgentError::SQLQueryNotSupported(_))
    ));
    let bad = vec![StatementShape::Query(Some("x".to_string()))];
    assert!(matches!(
        limit_from_shapes("q", &bad),
        Err(ConnectorAgentError::SQLQueryNotSupported(_))
    ));
    assert!(matches!(
        limit_from_shapes("q", &Vec::new()),
        Err(ConnectorAgentError::SQLQueryNotSupported(_))
    ));
}

#[test]
fn tokens_are_tested_before_a_text_is_parsed() {
    assert!(check_tokens("").is_ok());
    assert!(check_tokens("SELECT a, b FROM t WHERE a < b AND b > 3 LIMIT 7").is_ok());
    assert!(check_tokens("SELECT a FROM t WHERE a <> 1 AND a <= 2 AND a >= 0").is_ok());
    assert!(check_tokens("SELECT a[ FROM t").is_ok());
    assert!(check_tokens("SELECT '>>' FROM t").is_ok());
    assert!(check_tokens("SELECT 'é#' FROM t").is_ok());
    assert!(check_tokens("SELECT `a]` FROM t -- # >> ]").is_ok());
    assert!(check_tokens("SELECT a /* << */ FROM t").is_ok());
    for query in ["SELECT 1 ]", "]", "SELECT 1 # 2", "SELECT a << 2 FROM t", "SELECT a >> 1", "<<"] {
        match check_tokens(query) {
            Err(ConnectorAgentError::SQLQueryNotSupported(q)) => assert_eq!(q, query),
            other => panic!("unexpected outcome: {:?}", other),
        }
    }
    assert!(matches!(
        check_tokens("SELECT 'abc"),
        Err(ConnectorAgentError::SQLParserError(_))
    ));
    assert!(matches!(
        check_tokens("SELECT 1 /* # "),
        Err(ConnectorAgentError::SQLParserError(_))
    ));
}

#[test]
fn one_kind_of_token_is_takeable() {
    assert!(all_takeable(&Vec::new()));
    assert!(all_takeable(&vec![TokenKind::Other, TokenKind::Other]));
    assert!(!all_takeable(&vec![TokenKind::Other, TokenKind::Sharp]));
    assert!(!all_takeable(&vec![TokenKind::ShiftLeft]));
    assert!(!all_takeable(&vec![TokenKind::ShiftRight, TokenKind::Other]));
    assert!(!all_takeable(&vec![TokenKind::Other, TokenKind::RBracket, TokenKind::Other]));
}

#[test]
fn a_text_with_a_token_that_the_parser_cannot_take_is_not_supported() {
    for query in ["SELECT 1 ]", "SELECT a << 2 FROM t", "SELECT a >> 1", "SELECT 1 # 2"] {
        match get_limit(query) {
            Err(ConnectorAgentError::SQLQueryNotSupported(q)) => assert_eq!(q, query),
            other => panic!("unexpected outcome: {:?}", other),
        }
    }
    assert!(matches!(
        get_limit("SELECT 'abc LIMIT 3"),
        Err(ConnectorAgentError::SQLParserError(_))
    ));
}

#[test]
fn the_inside_of_strings_comments_and_names_does_not_count() {
    assert_eq!(get_limit("SELECT * FROM t WHERE name = 'a#b' LIMIT 3").unwrap(), Some(3));
    assert_eq!(get_limit("SELECT '#' LIMIT 3").unwrap(), Some(3));
    assert_eq!(get_limit("SELECT * FROM t WHERE name = '<<]>>' LIMIT 12").unwrap(), Some(12));
    assert_eq!(get_limit("SELECT `a]#` FROM t /* >> */ LIMIT 5").unwrap(), Some(5));
    assert_eq!(get_limit("SELECT a FROM t -- << #\n").unwrap(), None);
    assert_eq!(get_limit("SELECT * FROM t WHERE a < 1 AND b > 2 LIMIT 3").unwrap(), Some(3));
}
