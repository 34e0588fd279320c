use lispir::lexer::tokenize;
use lispir::object::Object;
use lispir::parser::{parse_list, ParseError};

#[test]
fn parses_a_token_stream() {
    let mut tokenized = tokenize("(+ 1 2)").into_iter().rev().collect();
    let list = parse_list(&mut tokenized).unwrap();
    assert_eq!(
        list,
        Object::List(vec![
            Object::Symbol("+".to_string()),
            Object::Integer(1),
            Object::Integer(2)
        ])
    )
}

#[test]
fn parses_nested_token_stream() {
    let mut tokenized = tokenize("(+ 1 (* 2 3))").into_iter().rev().collect();
    let list = parse_list(&mut tokenized).unwrap();
    assert_eq!(
        list,
        Object::List(vec![
            Object::Symbol("+".to_string()),
            Object::Integer(1),
            Object::List(vec![
                Object::Symbol("*".to_string()),
                Object::Integer(2),
                Object::Integer(3)
            ])
        ])
    )
}

#[test]
fn parse_rejects_empty_token_stream() {
    let mut tokens = Vec::new();
    assert_eq!(parse_list(&mut tokens), Err(ParseError::UnexpectedEof));
}

#[test]
fn parse_rejects_leading_atom() {
    let mut tokens = tokenize("5").into_iter().rev().collect();
    assert_eq!(parse_list(&mut tokens), Err(ParseError::ExpectedOpenParen));
}

#[test]
fn parse_rejects_unclosed_list() {
    let mut tokens = tokenize("(+ 1 2").into_iter().rev().collect();
    assert_eq!(
        parse_list(&mut tokens),
        Err(ParseError::InsufficientTokens)
    );
}

#[test]
fn parse_leaves_trailing_tokens_unconsumed() {
    let mut tokens = tokenize("(a) b").into_iter().rev().collect::<Vec<_>>();
    let list = parse_list(&mut tokens).unwrap();
    assert_eq!(list, Object::List(vec![Object::Symbol("a".to_string())]));
    assert_eq!(tokens.len(), 1);
}
