//! A minimal tree-walking interpreter for a Lisp-like expression language:
//! a tokenizer, a parser that builds one nested-list syntax object, a chained
//! lexical environment, and a recursive evaluator, each specified against a
//! mathematical model and verified.

pub mod env;
pub mod evaluator;
pub mod lexer;
pub mod object;
pub mod parser;
