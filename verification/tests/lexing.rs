use lispir::lexer::{tokenize, Token};

#[test]
fn tokenize_works_for_one_expression() {
    let tokens = tokenize("(+ 1 2)");
    assert_eq!(
        tokens,
        vec![
            Token::OpenParenthesis,
            Token::Symbol("+".to_string()),
            Token::Integer(1),
            Token::Integer(2),
            Token::CloseParenthesis
        ]
    );
}

#[test]
fn tokenize_handles_empty_input() {
    assert_eq!(tokenize(""), vec![]);
    assert_eq!(tokenize("   \t\n  "), vec![]);
}

#[test]
fn tokenize_splits_parentheses_inside_words() {
    assert_eq!(
        tokenize("x(y"),
        vec![
            Token::Symbol("x".to_string()),
            Token::OpenParenthesis,
            Token::Symbol("y".to_string()),
        ]
    );
}

#[test]
fn tokenize_classifies_signed_integers() {
    assert_eq!(tokenize("-5"), vec![Token::Integer(-5)]);
    assert_eq!(tokenize("+7"), vec![Token::Integer(7)]);
    assert_eq!(tokenize("007"), vec![Token::Integer(7)]);
    assert_eq!(tokenize("-"), vec![Token::Symbol("-".to_string())]);
    assert_eq!(tokenize("1x"), vec![Token::Symbol("1x".to_string())]);
}

#[test]
fn tokenize_extreme_integers() {
    assert_eq!(
        tokenize("9223372036854775807"),
        vec![Token::Integer(i64::MAX)]
    );
    assert_eq!(
        tokenize("-9223372036854775808"),
        vec![Token::Integer(i64::MIN)]
    );
    // one past either end of the 64-bit range is not an integer literal
    assert_eq!(
        tokenize("9223372036854775808"),
        vec![Token::Symbol("9223372036854775808".to_string())]
    );
    assert_eq!(
        tokenize("-9223372036854775809"),
        vec![Token::Symbol("-9223372036854775809".to_string())]
    );
}
