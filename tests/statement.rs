use gitql_pgwire::handler::QueryError;
use gitql_pgwire::parameter::{make_qeury, ParameterError};
use gitql_pgwire::statement::{parse_error_text, tokenize_statement};

#[test]
fn parameters_are_substituted_by_position() {
    let params = vec![Some("'x'".to_string()), Some("5".to_string())];
    assert_eq!(
        make_qeury("SELECT * FROM t WHERE a = $1 LIMIT $2", &params).unwrap(),
        "SELECT * FROM t WHERE a = 'x' LIMIT 5 "
    );
}

#[test]
fn null_parameter_is_substituted_by_nothing() {
    let params = vec![None];
    assert_eq!(make_qeury("a $1 b", &params).unwrap(), "a  b ");
}

#[test]
fn repeated_spaces_collapse() {
    assert_eq!(make_qeury("  SELECT   1 ", &vec![]).unwrap(), "SELECT 1 ");
    assert_eq!(make_qeury("", &vec![]).unwrap(), "");
}

#[test]
fn missing_parameter_is_an_error() {
    let params = vec![Some("1".to_string())];
    assert_eq!(make_qeury("SELECT $2", &params), Err(ParameterError::MissingParameter));
    assert_eq!(make_qeury("SELECT $99999999999999999999999", &params), Err(ParameterError::MissingParameter));
}

#[test]
fn malformed_reference_is_an_error() {
    let params = vec![Some("1".to_string())];
    assert_eq!(make_qeury("SELECT $x", &params), Err(ParameterError::BadReference));
    assert_eq!(make_qeury("SELECT $0", &params), Err(ParameterError::BadReference));
    assert_eq!(make_qeury("SELECT $", &params), Err(ParameterError::BadReference));
}

#[test]
fn parse_error_text_appends_hints() {
    let hints = vec!["try this".to_string(), "or that".to_string()];
    assert_eq!(parse_error_text(&"bad".to_string(), &hints), "bad\nHelp: try this\nor that");
    assert_eq!(parse_error_text(&"bad".to_string(), &vec![]), "bad\nHelp: ");
}

#[test]
fn empty_statement_is_rejected() {
    assert!(matches!(tokenize_statement(""), Err(QueryError::EmptyStatement)));
    assert!(matches!(tokenize_statement("   "), Err(QueryError::EmptyStatement)));
}

#[test]
fn statement_is_tokenized() {
    let tokens = tokenize_statement("SELECT name FROM commits").unwrap();
    assert_eq!(tokens.len(), 4);
    let tokens = tokenize_statement("SELECT 'it''s' -- note\n").unwrap();
    assert!(!tokens.is_empty());
}

#[test]
fn tokenizer_failure_is_reported() {
    match tokenize_statement("SELECT 0b") {
        Err(QueryError::Tokenize(m)) => assert!(!m.is_empty()),
        Err(e) => panic!("unexpected {:?}", e),
        Ok(_) => panic!("0b tokenized"),
    }
}

#[test]
fn unclosed_constructs_are_refused_before_tokenizing() {
    assert!(matches!(tokenize_statement("SELECT 'abc"), Err(QueryError::UnsupportedText)));
    assert!(matches!(tokenize_statement("SELECT \"abc\\\""), Err(QueryError::UnsupportedText)));
    assert!(matches!(tokenize_statement("SELECT `name"), Err(QueryError::UnsupportedText)));
    assert!(matches!(tokenize_statement("SELECT 1 -- note"), Err(QueryError::UnsupportedText)));
    assert!(matches!(tokenize_statement("/* note */ SELECT 1"), Err(QueryError::UnsupportedText)));
}
