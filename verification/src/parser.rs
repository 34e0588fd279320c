//! The parser: consumes the token sequence from its end backward (the caller
//! reverses the tokens first, so this is source order) and builds one
//! nested-list syntax object.

use vstd::prelude::*;

use crate::lexer::{token_view, tokens_view, Token, TokenView};
use crate::object::{obj_view, objs_view, Object, ObjectView};

verus! {

broadcast use vstd::seq::group_seq_axioms, crate::object::lemma_objs_view;

/// Malformed parenthesization, each variant for one way the token sequence
/// can go wrong.
#[derive(Debug, Clone, Copy, PartialEq, Eq, Structural)]
pub enum ParseError {
    /// No token at all where an opening parenthesis was owed.
    UnexpectedEof,
    /// A token other than an opening parenthesis at the start of a form.
    ExpectedOpenParen,
    /// The tokens ran out before every open list was closed.
    InsufficientTokens,
}

/// The models of a stack of partly built lists.
pub open spec fn stack_view(s: Seq<Vec<Object>>) -> Seq<Seq<ObjectView>> {
    Seq::new(s.len(), |i: int| objs_view(s[i]@))
}

/// The stack with `o` appended to its innermost list.
pub open spec fn push_top(stack: Seq<Seq<ObjectView>>, o: ObjectView) -> Seq<Seq<ObjectView>> {
    stack.update(stack.len() - 1, stack.last().push(o))
}

/// One step per token: the parse of `tokens`, consumed from the end backward,
/// given the stack of open lists. An empty stack awaits the opening
/// parenthesis of the single top-level form. The result carries the tokens
/// left unconsumed.
pub open spec fn parse_run(tokens: Seq<TokenView>, stack: Seq<Seq<ObjectView>>) -> (Result<
    ObjectView,
    ParseError,
>, Seq<TokenView>)
    decreases tokens.len(),
{
    if stack.len() == 0 {
        if tokens.len() == 0 {
            (Err(ParseError::UnexpectedEof), tokens)
        } else if tokens.last() is OpenParenthesis {
            parse_run(tokens.drop_last(), seq![Seq::<ObjectView>::empty()])
        } else {
            (Err(ParseError::ExpectedOpenParen), tokens.drop_last())
        }
    } else if tokens.len() == 0 {
        (Err(ParseError::InsufficientTokens), tokens)
    } else {
        let rest = tokens.drop_last();
        match tokens.last() {
            TokenView::Integer(n) => parse_run(rest, push_top(stack, ObjectView::Integer(n))),
            TokenView::Symbol(s) => parse_run(rest, push_top(stack, ObjectView::Symbol(s))),
            TokenView::OpenParenthesis => parse_run(rest, stack.push(Seq::empty())),
            TokenView::CloseParenthesis => {
                let done = ObjectView::List(stack.last());
                if stack.len() == 1 {
                    (Ok(done), rest)
                } else {
                    parse_run(rest, push_top(stack.drop_last(), done))
                }
            },
        }
    }
}

/// The syntax object parsed from `tokens`, consumed from the end backward.
pub open spec fn parse_result(tokens: Seq<TokenView>) -> Result<ObjectView, ParseError> {
    parse_run(tokens, Seq::empty()).0
}

/// The tokens a parse of `tokens` leaves unconsumed.
pub open spec fn parse_leftover(tokens: Seq<TokenView>) -> Seq<TokenView> {
    parse_run(tokens, Seq::empty()).1
}

/// Parses one parenthesized form from the tail of `tokens` backward, exactly
/// as the parsing model describes, leaving the unconsumed tokens behind.
pub fn parse_list(tokens: &mut Vec<Token>) -> (r: Result<Object, ParseError>)
    ensures
        tokens_view(final(tokens)@) == parse_leftover(tokens_view(old(tokens)@)),
        match r {
            Ok(o) => parse_result(tokens_view(old(tokens)@)) == Ok::<ObjectView, ParseError>(
                obj_view(o),
            ),
            Err(e) => parse_result(tokens_view(old(tokens)@)) == Err::<ObjectView, ParseError>(e),
        },
{
    let ghost toks0: Seq<TokenView> = tokens_view(old(tokens)@);
    match tokens.pop() {
        None => {
            proof {
                assert(tokens_view(tokens@) =~= toks0);
            }
            return Err(ParseError::UnexpectedEof);
        },
        Some(Token::OpenParenthesis) => {
            proof {
                assert(toks0.last() == TokenView::OpenParenthesis);
                assert(tokens_view(tokens@) =~= toks0.drop_last());
            }
        },
        Some(_) => {
            proof {
                assert(!(toks0.last() is OpenParenthesis));
                assert(tokens_view(tokens@) =~= toks0.drop_last());
            }
            return Err(ParseError::ExpectedOpenParen);
        },
    }
    let mut stack: Vec<Vec<Object>> = Vec::new();
    stack.push(Vec::new());
    proof {
        assert(stack_view(stack@) =~= seq![Seq::<ObjectView>::empty()]);
        assert(objs_view(Seq::<Object>::empty()) =~= Seq::<ObjectView>::empty());
    }
    let outcome: Result<Object, ParseError>;
    loop
        invariant_except_break
            stack@.len() >= 1,
            parse_run(toks0, Seq::empty()) == parse_run(tokens_view(tokens@), stack_view(stack@)),
        ensures
            match outcome {
                Ok(o) => parse_run(toks0, Seq::empty()) == (
                    Ok::<ObjectView, ParseError>(obj_view(o)),
                    tokens_view(tokens@),
                ),
                Err(e) => parse_run(toks0, Seq::empty()) == (
                    Err::<ObjectView, ParseError>(e),
                    tokens_view(tokens@),
                ),
            },
        decreases tokens@.len(),
    {
        let ghost toks_pre: Seq<TokenView> = tokens_view(tokens@);
        let ghost stck_pre: Seq<Seq<ObjectView>> = stack_view(stack@);
        match tokens.pop() {
            None => {
                proof {
                    assert(toks_pre =~= Seq::<TokenView>::empty());
                    assert(tokens_view(tokens@) =~= toks_pre);
                    assert(parse_run(toks_pre, stck_pre) == (
                        Err::<ObjectView, ParseError>(ParseError::InsufficientTokens),
                        toks_pre,
                    ));
                    assert(parse_leftover(toks0) == toks_pre);
                }
                outcome = Err(ParseError::InsufficientTokens);
                break;
            },
            Some(t) => {
                proof {
                    assert(toks_pre.last() == token_view(t));
                    assert(tokens_view(tokens@) =~= toks_pre.drop_last());
                }
                match t {
                    Token::Integer(n) => {
                        let l: usize = stack.len();
                        let ghost topv: Seq<Object> = stack@[l - 1]@;
                        stack[l - 1].push(Object::Integer(n));
                        proof {
                            let x = Object::Integer(n);
                            assert(topv.push(x).drop_last() =~= topv);
                            assert(objs_view(topv.push(x)) == objs_view(topv).push(obj_view(x)));
                            assert(stack_view(stack@) =~= push_top(
                                stck_pre,
                                ObjectView::Integer(n),
                            ));
                        }
                    },
                    Token::Symbol(s) => {
                        let ghost sv: Seq<char> = s@;
                        let l: usize = stack.len();
                        let ghost topv: Seq<Object> = stack@[l - 1]@;
                        let ghost x: Object = Object::Symbol(s);
                        stack[l - 1].push(Object::Symbol(s));
                        proof {
                            assert(topv.push(x).drop_last() =~= topv);
                            assert(objs_view(topv.push(x)) == objs_view(topv).push(obj_view(x)));
                            assert(stack_view(stack@) =~= push_top(stck_pre, ObjectView::Symbol(sv)));
                        }
                    },
                    Token::OpenParenthesis => {
                        stack.push(Vec::new());
                        proof {
                            assert(objs_view(Seq::<Object>::empty()) =~= Seq::<ObjectView>::empty());
                            assert(stack_view(stack@) =~= stck_pre.push(Seq::empty()));
                        }
                    },
                    Token::CloseParenthesis => {
                        let top: Vec<Object> = match stack.pop() {
                            Some(v) => v,
                            None => {
                                proof {
                                    assert(false);
                                }
                                Vec::new()
                            },
                        };
                        let done = Object::List(top);
                        proof {
                            assert(obj_view(done) == ObjectView::List(stck_pre.last()));
                        }
                        if stack.len() == 0 {
                            proof {
                                assert(stck_pre.len() == 1);
                            }
                            outcome = Ok(done);
                            break;
                        } else {
                            let l: usize = stack.len();
                            let ghost topv: Seq<Object> = stack@[l - 1]@;
                            let ghost x: Object = done;
                            stack[l - 1].push(done);
                            proof {
                                assert(topv.push(x).drop_last() =~= topv);
                                assert(objs_view(topv.push(x)) == objs_view(topv).push(obj_view(x)));
                                assert(stack_view(stack@) =~= push_top(
                                    stck_pre.drop_last(),
                                    ObjectView::List(stck_pre.last()),
                                ));
                            }
                        }
                    },
                }
            },
        }
    }
    outcome
}

} // verus!
