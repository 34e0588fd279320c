use lispir::env::Env;
use lispir::evaluator::{eval, EvalError};
use lispir::object::Object;
use lispir::parser::ParseError;

#[test]
fn test_add() {
    let mut env = Env::new();
    let result = eval("(+ 1 2)", &mut env).unwrap();
    assert_eq!(result, Object::Integer(3));
}

#[test]
fn test_sqr_function() {
    let mut env = Env::new();
    let result = eval(
        "(
                        (define sqr (lambda (x) (* x x)))
                        (sqr 2)
        )",
        &mut env,
    )
    .unwrap();
    assert_eq!(result, Object::List(vec![Object::Integer(4)]));
}

#[test]
fn test_fibonacci_function() {
    let mut env = Env::new();
    let result = eval(
        "(
                        (define fib (lambda (n)
                                        (if (< n 2)
                                            n
                                            (+ (fib (- n 1)) (fib (- n 2))))))
                        (fib 10)
        )",
        &mut env,
    )
    .unwrap();
    assert_eq!(result, Object::List(vec![Object::Integer(55)]));
}

#[test]
fn test_factorial_function() {
    let mut env = Env::new();
    let result = eval(
        "(
                        (define fact (lambda (n)
                                        (if (= n 1)
                                            1
                                            (* n (fact (- n 1))))))
                        (fact 5)
        )",
        &mut env,
    )
    .unwrap();
    assert_eq!(result, Object::List(vec![Object::Integer(120)]));
}

#[test]
fn operators_follow_native_semantics() {
    let mut env = Env::new();
    assert_eq!(eval("(- 3 10)", &mut env).unwrap(), Object::Integer(-7));
    assert_eq!(eval("(* -4 6)", &mut env).unwrap(), Object::Integer(-24));
    assert_eq!(eval("(/ 7 2)", &mut env).unwrap(), Object::Integer(3));
    assert_eq!(eval("(/ -7 2)", &mut env).unwrap(), Object::Integer(-3));
    assert_eq!(eval("(< 1 2)", &mut env).unwrap(), Object::Bool(true));
    assert_eq!(eval("(> 1 2)", &mut env).unwrap(), Object::Bool(false));
    assert_eq!(eval("(= 2 2)", &mut env).unwrap(), Object::Bool(true));
    assert_eq!(eval("(!= 2 2)", &mut env).unwrap(), Object::Bool(false));
}

#[test]
fn addition_wraps_on_overflow() {
    let mut env = Env::new();
    assert_eq!(
        eval("(+ 9223372036854775807 1)", &mut env).unwrap(),
        Object::Integer(i64::MIN)
    );
}

#[test]
fn division_by_zero_is_an_error() {
    let mut env = Env::new();
    assert_eq!(eval("(/ 1 0)", &mut env), Err(EvalError::DivisionByZero));
}

#[test]
fn remainder_is_not_dispatched() {
    // `%` is reachable only internally: in head position it is looked up as
    // an ordinary symbol, and nothing binds it.
    let mut env = Env::new();
    assert_eq!(eval("(% 7 3)", &mut env), Err(EvalError::UndefinedSymbol));
}

#[test]
fn if_true_never_touches_the_untaken_branch() {
    let mut env = Env::new();
    let result = eval("(if (< 1 2) 1 (define z 9))", &mut env).unwrap();
    assert_eq!(result, Object::Integer(1));
    // the side effect in the untaken branch must not have happened
    assert_eq!(env.get(0, "z"), None);
}

#[test]
fn if_condition_must_be_boolean() {
    let mut env = Env::new();
    assert_eq!(eval("(if 1 2 3)", &mut env), Err(EvalError::TypeMismatch));
}

#[test]
fn define_binds_in_the_same_environment() {
    let mut env = Env::new();
    assert_eq!(eval("(define x 5)", &mut env).unwrap(), Object::Void);
    assert_eq!(env.get(0, "x"), Some(Object::Integer(5)));
}

#[test]
fn define_in_child_never_alters_parent() {
    let mut env = Env::new();
    env.set(0, "x", Object::Integer(1));
    let child = env.extend(0);
    env.set(child, "x", Object::Integer(2));
    assert_eq!(env.get(child, "x"), Some(Object::Integer(2)));
    assert_eq!(env.get(0, "x"), Some(Object::Integer(1)));
}

#[test]
fn child_lookup_falls_back_to_parent() {
    let mut env = Env::new();
    env.set(0, "y", Object::Integer(7));
    let child = env.extend(0);
    assert_eq!(env.get(child, "y"), Some(Object::Integer(7)));
    assert_eq!(env.get(child, "missing"), None);
}

#[test]
fn unbound_symbol_is_an_error() {
    let mut env = Env::new();
    assert_eq!(eval("(foo)", &mut env), Err(EvalError::UndefinedSymbol));
}

#[test]
fn calling_a_non_lambda_is_an_error() {
    let mut env = Env::new();
    eval("(define y 1)", &mut env).unwrap();
    assert_eq!(eval("(y 2)", &mut env), Err(EvalError::NotAFunction));
}

#[test]
fn operator_arity_is_checked() {
    let mut env = Env::new();
    assert_eq!(eval("(+ 1)", &mut env), Err(EvalError::ArityMismatch));
    assert_eq!(eval("(if (< 1 2) 1)", &mut env), Err(EvalError::ArityMismatch));
    assert_eq!(eval("(define x)", &mut env), Err(EvalError::ArityMismatch));
}

#[test]
fn call_arity_is_checked() {
    let mut env = Env::new();
    eval("(define sqr (lambda (x) (* x x)))", &mut env).unwrap();
    assert_eq!(eval("(sqr 1 2)", &mut env), Err(EvalError::ArityMismatch));
    assert_eq!(eval("(sqr)", &mut env), Err(EvalError::ArityMismatch));
}

#[test]
fn operands_must_be_integers() {
    let mut env = Env::new();
    assert_eq!(
        eval("(+ 1 (lambda (x) (x)))", &mut env),
        Err(EvalError::TypeMismatch)
    );
}

#[test]
fn lambda_form_builds_a_lambda_value() {
    let mut env = Env::new();
    let result = eval("(lambda (x) (* x x))", &mut env).unwrap();
    assert_eq!(
        result,
        Object::Lambda(
            vec!["x".to_string()],
            vec![
                Object::Symbol("*".to_string()),
                Object::Symbol("x".to_string()),
                Object::Symbol("x".to_string())
            ]
        )
    );
}

#[test]
fn lambda_parameters_must_be_symbols() {
    let mut env = Env::new();
    assert_eq!(
        eval("(lambda (1) (2))", &mut env),
        Err(EvalError::TypeMismatch)
    );
}

#[test]
fn aggregate_list_drops_void_results() {
    let mut env = Env::new();
    let result = eval("((define a 1) (define b 2) (+ a b))", &mut env).unwrap();
    assert_eq!(result, Object::List(vec![Object::Integer(3)]));
}

#[test]
fn empty_list_evaluates_to_empty_list() {
    let mut env = Env::new();
    assert_eq!(eval("()", &mut env).unwrap(), Object::List(vec![]));
}

#[test]
fn parse_errors_surface_through_eval() {
    let mut env = Env::new();
    assert_eq!(
        eval("", &mut env),
        Err(EvalError::Parse(ParseError::UnexpectedEof))
    );
    assert_eq!(
        eval("5", &mut env),
        Err(EvalError::Parse(ParseError::ExpectedOpenParen))
    );
    assert_eq!(
        eval("(", &mut env),
        Err(EvalError::Parse(ParseError::InsufficientTokens))
    );
}

#[test]
fn runaway_recursion_hits_the_depth_limit() {
    let mut env = Env::new();
    eval("(define spin (lambda (x) (spin x)))", &mut env).unwrap();
    assert_eq!(
        eval("(spin 1)", &mut env),
        Err(EvalError::DepthLimitExceeded)
    );
}

#[test]
fn definitions_persist_across_eval_calls() {
    let mut env = Env::new();
    eval("(define sqr (lambda (x) (* x x)))", &mut env).unwrap();
    assert_eq!(eval("(sqr 9)", &mut env).unwrap(), Object::Integer(81));
}
