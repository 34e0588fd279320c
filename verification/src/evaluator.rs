//! The evaluator: walks a syntax object recursively, dispatching on special
//! forms and function application, against a chained environment. Every step
//! is specified by a small-step interpreter over the models.
//!
//! Evaluation is bounded by an explicit depth limit, reported as an error
//! rather than faulting on stack exhaustion; addition, subtraction and
//! multiplication wrap around on 64-bit overflow; division and remainder by
//! zero are explicit errors, and the one overflowing division wraps.

use vstd::prelude::*;

use crate::env::{env_lookup, env_wf, set_in, Env, FrameView};
use crate::lexer::{spec_tokenize, tokenize, tokens_view, Token};
use crate::object::{
    duplicate_objects, obj_view, objs_view, str_eq, strs_view, Object, ObjectView,
};
use crate::parser::{parse_list, parse_result, ParseError};

verus! {

broadcast use
    vstd::seq::group_seq_axioms,
    vstd::string::group_string_axioms,
    crate::object::lemma_objs_view;


/// How evaluation can fail; every error aborts the whole top-level
/// evaluation and is returned to the caller.
#[derive(Debug, Clone, Copy, PartialEq, Eq, Structural)]
pub enum EvalError {
    /// The text did not parse.
    Parse(ParseError),
    /// A referenced name has no binding anywhere in the environment chain.
    UndefinedSymbol,
    /// A symbol in call position resolved to a value that is not a lambda.
    NotAFunction,
    /// A special form or operator got the wrong number of operands.
    ArityMismatch,
    /// An operand or condition has the wrong kind of value.
    TypeMismatch,
    /// Division or remainder by zero.
    DivisionByZero,
    /// The evaluation nested deeper than the explicit depth limit.
    DepthLimitExceeded,
}

/// The depth to which `eval` evaluates before reporting
/// `DepthLimitExceeded`: each nested evaluation step spends one unit.
pub const EVAL_DEPTH_LIMIT: u64 = 400;

/// The model of an evaluation result.
pub open spec fn res_view(r: Result<Object, EvalError>) -> Result<ObjectView, EvalError> {
    match r {
        Ok(o) => Ok(obj_view(o)),
        Err(e) => Err(e),
    }
}

/// The operator names the list dispatcher recognizes. The remainder
/// operator is deliberately not among them: a list headed by `%` is treated
/// as an ordinary function call, so `%` is reachable only internally.
pub open spec fn is_op_name(s: Seq<char>) -> bool {
    s == "+"@ || s == "-"@ || s == "*"@ || s == "/"@ || s == "<"@ || s == ">"@ || s == "="@ || s
        == "!="@
}

/// What a binary operator returns on two already-evaluated operands: both
/// must be integers; `+ - *` wrap on overflow; `/ %` reject a zero right
/// operand, and the one overflowing quotient wraps; comparisons yield
/// booleans.
pub open spec fn apply_op(name: Seq<char>, v1: ObjectView, v2: ObjectView) -> Result<
    ObjectView,
    EvalError,
> {
    match (v1, v2) {
        (ObjectView::Integer(a), ObjectView::Integer(b)) => {
            if name == "+"@ {
                Ok(ObjectView::Integer(a.wrapping_add(b)))
            } else if name == "-"@ {
                Ok(ObjectView::Integer(a.wrapping_sub(b)))
            } else if name == "*"@ {
                Ok(ObjectView::Integer(a.wrapping_mul(b)))
            } else if name == "/"@ {
                if b == 0 {
                    Err(EvalError::DivisionByZero)
                } else {
                    match a.checked_div(b) {
                        Some(q) => Ok(ObjectView::Integer(q)),
                        None => Ok(ObjectView::Integer(i64::MIN)),
                    }
                }
            } else if name == "%"@ {
                if b == 0 {
                    Err(EvalError::DivisionByZero)
                } else {
                    match a.checked_rem(b) {
                        Some(q) => Ok(ObjectView::Integer(q)),
                        None => Ok(ObjectView::Integer(0)),
                    }
                }
            } else if name == "<"@ {
                Ok(ObjectView::Bool(a < b))
            } else if name == ">"@ {
                Ok(ObjectView::Bool(a > b))
            } else if name == "="@ {
                Ok(ObjectView::Bool(a == b))
            } else if name == "!="@ {
                Ok(ObjectView::Bool(a != b))
            } else {
                Err(EvalError::TypeMismatch)
            }
        },
        _ => Err(EvalError::TypeMismatch),
    }
}

/// What the operator position contributes: a symbol applies its operator,
/// anything else is the wrong kind of value.
pub open spec fn apply_op_position(op: ObjectView, v1: ObjectView, v2: ObjectView) -> Result<
    ObjectView,
    EvalError,
> {
    match op {
        ObjectView::Symbol(name) => apply_op(name, v1, v2),
        _ => Err(EvalError::TypeMismatch),
    }
}

/// Every element is a symbol.
pub open spec fn all_symbols(ps: Seq<ObjectView>) -> bool {
    forall|i: int| 0 <= i < ps.len() ==> (#[trigger] ps[i]) is Symbol
}

/// The names of a sequence of symbols.
pub open spec fn symbol_names(ps: Seq<ObjectView>) -> Seq<Seq<char>> {
    Seq::new(ps.len(), |i: int| ps[i]->Symbol_0)
}

/// What the `lambda` special form returns: the second element must be a list
/// of symbols (the parameters) and the third a list (the body, kept
/// unevaluated); elements past the third are ignored.
pub open spec fn make_lambda_s(items: Seq<ObjectView>) -> Result<ObjectView, EvalError> {
    if items.len() < 3 {
        Err(EvalError::ArityMismatch)
    } else {
        match items[1] {
            ObjectView::List(ps) => if !all_symbols(ps) {
                Err(EvalError::TypeMismatch)
            } else {
                match items[2] {
                    ObjectView::List(body) => Ok(ObjectView::Lambda(symbol_names(ps), body)),
                    _ => Err(EvalError::TypeMismatch),
                }
            },
            _ => Err(EvalError::TypeMismatch),
        }
    }
}

/// One evaluation step of a syntax object against frame `idx`, spending one
/// unit of fuel per nesting level. Atoms evaluate to themselves, a bare
/// lambda value to void, a symbol to its binding, and a list per
/// `eval_list_s`.
pub open spec fn eval_obj_s(o: ObjectView, fr: Seq<FrameView>, idx: int, fuel: nat) -> (Result<
    ObjectView,
    EvalError,
>, Seq<FrameView>)
    decreases fuel, 3int, 0int,
{
    if fuel == 0 {
        (Err(EvalError::DepthLimitExceeded), fr)
    } else {
        match o {
            ObjectView::Void => (Ok(o), fr),
            ObjectView::Bool(_) => (Ok(o), fr),
            ObjectView::Integer(_) => (Ok(o), fr),
            ObjectView::Lambda(_, _) => (Ok(ObjectView::Void), fr),
            ObjectView::Symbol(name) => match env_lookup(fr, idx, name) {
                Some(v) => (Ok(v), fr),
                None => (Err(EvalError::UndefinedSymbol), fr),
            },
            ObjectView::List(items) => eval_list_s(items, fr, idx, fuel),
        }
    }
}

/// A list evaluates by dispatch on its head: a recognized operator, `if`,
/// `define`, `lambda`, any other symbol as a function call; a list that is
/// empty or headed by a non-symbol is a generic aggregate.
pub open spec fn eval_list_s(items: Seq<ObjectView>, fr: Seq<FrameView>, idx: int, fuel: nat) -> (
    Result<ObjectView, EvalError>,
    Seq<FrameView>,
)
    decreases fuel, 2int, 0int,
{
    if fuel == 0 {
        (Err(EvalError::DepthLimitExceeded), fr)
    } else if items.len() > 0 && items[0] is Symbol {
        let name = items[0]->Symbol_0;
        if is_op_name(name) {
            eval_binop_s(items, fr, idx, fuel)
        } else if name == "if"@ {
            eval_if_s(items, fr, idx, fuel)
        } else if name == "define"@ {
            eval_define_s(items, fr, idx, fuel)
        } else if name == "lambda"@ {
            (make_lambda_s(items), fr)
        } else {
            eval_call_s(name, items, fr, idx, fuel)
        }
    } else {
        eval_elems_s(items, 0, Seq::empty(), fr, idx, fuel)
    }
}

/// A binary operation: exactly two operand positions, both evaluated (left
/// first) in the current frame, then the operator applied.
pub open spec fn eval_binop_s(items: Seq<ObjectView>, fr: Seq<FrameView>, idx: int, fuel: nat) -> (
    Result<ObjectView, EvalError>,
    Seq<FrameView>,
)
    decreases fuel, 1int, 0int,
{
    if fuel == 0 {
        (Err(EvalError::DepthLimitExceeded), fr)
    } else if items.len() != 3 {
        (Err(EvalError::ArityMismatch), fr)
    } else {
        let r1 = eval_obj_s(items[1], fr, idx, (fuel - 1) as nat);
        match r1.0 {
            Err(e) => (Err(e), r1.1),
            Ok(v1) => {
                let r2 = eval_obj_s(items[2], r1.1, idx, (fuel - 1) as nat);
                match r2.0 {
                    Err(e) => (Err(e), r2.1),
                    Ok(v2) => (apply_op_position(items[0], v1, v2), r2.1),
                }
            },
        }
    }
}

/// `if`: exactly four elements; the condition must evaluate to a boolean;
/// exactly one branch is then evaluated, the other never touched.
pub open spec fn eval_if_s(items: Seq<ObjectView>, fr: Seq<FrameView>, idx: int, fuel: nat) -> (
    Result<ObjectView, EvalError>,
    Seq<FrameView>,
)
    decreases fuel, 1int, 0int,
{
    if fuel == 0 {
        (Err(EvalError::DepthLimitExceeded), fr)
    } else if items.len() != 4 {
        (Err(EvalError::ArityMismatch), fr)
    } else {
        let rc = eval_obj_s(items[1], fr, idx, (fuel - 1) as nat);
        match rc.0 {
            Err(e) => (Err(e), rc.1),
            Ok(cv) => match cv {
                ObjectView::Bool(b) => eval_obj_s(
                    if b {
                        items[2]
                    } else {
                        items[3]
                    },
                    rc.1,
                    idx,
                    (fuel - 1) as nat,
                ),
                _ => (Err(EvalError::TypeMismatch), rc.1),
            },
        }
    }
}

/// `define`: exactly three elements, a literal symbol second; the expression
/// is evaluated and bound in the current frame; the result is void.
pub open spec fn eval_define_s(items: Seq<ObjectView>, fr: Seq<FrameView>, idx: int, fuel: nat) -> (
    Result<ObjectView, EvalError>,
    Seq<FrameView>,
)
    decreases fuel, 1int, 0int,
{
    if fuel == 0 {
        (Err(EvalError::DepthLimitExceeded), fr)
    } else if items.len() != 3 {
        (Err(EvalError::ArityMismatch), fr)
    } else if !(items[1] is Symbol) {
        (Err(EvalError::TypeMismatch), fr)
    } else {
        let rv = eval_obj_s(items[2], fr, idx, (fuel - 1) as nat);
        match rv.0 {
            Err(e) => (Err(e), rv.1),
            Ok(v) => (Ok(ObjectView::Void), set_in(rv.1, idx, items[1]->Symbol_0, v)),
        }
    }
}

/// A function call: the head symbol must resolve to a lambda with as many
/// parameters as there are argument positions. A fresh frame extends the
/// caller's current frame (not the lambda's defining scope); each argument is
/// evaluated in the caller's frame and bound positionally; the body is then
/// evaluated as one list in the new frame.
pub open spec fn eval_call_s(
    name: Seq<char>,
    items: Seq<ObjectView>,
    fr: Seq<FrameView>,
    idx: int,
    fuel: nat,
) -> (Result<ObjectView, EvalError>, Seq<FrameView>)
    decreases fuel, 1int, 0int,
{
    if fuel == 0 {
        (Err(EvalError::DepthLimitExceeded), fr)
    } else {
        match env_lookup(fr, idx, name) {
            None => (Err(EvalError::UndefinedSymbol), fr),
            Some(f) => match f {
                ObjectView::Lambda(params, body) => {
                    if items.len() != params.len() + 1 {
                        (Err(EvalError::ArityMismatch), fr)
                    } else {
                        let cidx = fr.len() as int;
                        let fr1 = fr.push(
                            FrameView { parent: Some(idx), vars: Seq::empty() },
                        );
                        let ra = eval_args_s(items, params, 0, cidx, fr1, idx, fuel);
                        match ra.0 {
                            Some(e) => (Err(e), ra.1),
                            None => eval_obj_s(ObjectView::List(body), ra.1, cidx, (fuel - 1) as nat),
                        }
                    }
                },
                _ => (Err(EvalError::NotAFunction), fr),
            },
        }
    }
}

/// Argument binding, one position at a time: argument `j` is evaluated in
/// the caller's frame `idx`, then bound to parameter `j` in the callee's
/// frame `cidx`, before the next argument is touched.
pub open spec fn eval_args_s(
    items: Seq<ObjectView>,
    params: Seq<Seq<char>>,
    j: int,
    cidx: int,
    fr: Seq<FrameView>,
    idx: int,
    fuel: nat,
) -> (Option<EvalError>, Seq<FrameView>)
    decreases fuel, 0int, params.len() - j,
{
    if fuel == 0 {
        (Some(EvalError::DepthLimitExceeded), fr)
    } else if j >= params.len() {
        (None, fr)
    } else {
        let r = eval_obj_s(items[j + 1], fr, idx, (fuel - 1) as nat);
        match r.0 {
            Err(e) => (Some(e), r.1),
            Ok(v) => eval_args_s(
                items,
                params,
                j + 1,
                cidx,
                set_in(r.1, cidx, params[j], v),
                idx,
                fuel,
            ),
        }
    }
}

/// Generic aggregate evaluation: every element is evaluated in order, void
/// results are dropped, and the rest come back as a new list.
pub open spec fn eval_elems_s(
    items: Seq<ObjectView>,
    j: int,
    acc: Seq<ObjectView>,
    fr: Seq<FrameView>,
    idx: int,
    fuel: nat,
) -> (Result<ObjectView, EvalError>, Seq<FrameView>)
    decreases fuel, 0int, items.len() - j,
{
    if fuel == 0 {
        (Err(EvalError::DepthLimitExceeded), fr)
    } else if j >= items.len() {
        (Ok(ObjectView::List(acc)), fr)
    } else {
        let r = eval_obj_s(items[j], fr, idx, (fuel - 1) as nat);
        match r.0 {
            Err(e) => (Err(e), r.1),
            Ok(v) => eval_elems_s(
                items,
                j + 1,
                if v is Void {
                    acc
                } else {
                    acc.push(v)
                },
                r.1,
                idx,
                fuel,
            ),
        }
    }
}

/// The whole pipeline on one line of source text: tokenize, parse the one
/// top-level form (a parse error is an evaluation error), then evaluate it
/// against the root frame with the full depth budget.
pub open spec fn eval_source_s(text: Seq<char>, fr: Seq<FrameView>) -> (Result<
    ObjectView,
    EvalError,
>, Seq<FrameView>) {
    match parse_result(spec_tokenize(text).reverse()) {
        Ok(o) => eval_obj_s(o, fr, 0, EVAL_DEPTH_LIMIT as nat),
        Err(pe) => (Err(EvalError::Parse(pe)), fr),
    }
}

/// The lengths and characters of the operator and special-form literals,
/// so that distinct names are provably distinct.
proof fn op_literal_facts()
    ensures
        "+"@.len() == 1 && "+"@[0] == '+',
        "-"@.len() == 1 && "-"@[0] == '-',
        "*"@.len() == 1 && "*"@[0] == '*',
        "/"@.len() == 1 && "/"@[0] == '/',
        "%"@.len() == 1 && "%"@[0] == '%',
        "<"@.len() == 1 && "<"@[0] == '<',
        ">"@.len() == 1 && ">"@[0] == '>',
        "="@.len() == 1 && "="@[0] == '=',
        "!="@.len() == 2 && "!="@[0] == '!' && "!="@[1] == '=',
        "if"@.len() == 2 && "if"@[0] == 'i' && "if"@[1] == 'f',
        "define"@.len() == 6 && "define"@[0] == 'd',
        "lambda"@.len() == 6 && "lambda"@[0] == 'l',
{
    reveal_strlit("+");
    reveal_strlit("-");
    reveal_strlit("*");
    reveal_strlit("/");
    reveal_strlit("%");
    reveal_strlit("<");
    reveal_strlit(">");
    reveal_strlit("=");
    reveal_strlit("!=");
    reveal_strlit("if");
    reveal_strlit("define");
    reveal_strlit("lambda");
}

/// For all 64-bit integers `a` and `b`, an operator form `(op a b)`
/// evaluates to the native 64-bit result and leaves the environment alone:
/// wrapping addition, subtraction and multiplication; truncating division
/// once `b != 0` (the one overflowing quotient wraps, and a zero divisor is
/// exactly `DivisionByZero`); exact comparisons.
#[verifier::rlimit(100)]
pub proof fn lemma_operator_semantics(a: i64, b: i64, fr: Seq<FrameView>, idx: int, fuel: nat)
    requires
        fuel >= 2,
    ensures
        eval_list_s(
            seq![ObjectView::Symbol("+"@), ObjectView::Integer(a), ObjectView::Integer(b)],
            fr,
            idx,
            fuel,
        ) == (Ok::<ObjectView, EvalError>(ObjectView::Integer(a.wrapping_add(b))), fr),
        eval_list_s(
            seq![ObjectView::Symbol("-"@), ObjectView::Integer(a), ObjectView::Integer(b)],
            fr,
            idx,
            fuel,
        ) == (Ok::<ObjectView, EvalError>(ObjectView::Integer(a.wrapping_sub(b))), fr),
        eval_list_s(
            seq![ObjectView::Symbol("*"@), ObjectView::Integer(a), ObjectView::Integer(b)],
            fr,
            idx,
            fuel,
        ) == (Ok::<ObjectView, EvalError>(ObjectView::Integer(a.wrapping_mul(b))), fr),
        b != 0 ==> eval_list_s(
            seq![ObjectView::Symbol("/"@), ObjectView::Integer(a), ObjectView::Integer(b)],
            fr,
            idx,
            fuel,
        ) == (
            match a.checked_div(b) {
                Some(q) => Ok::<ObjectView, EvalError>(ObjectView::Integer(q)),
                None => Ok::<ObjectView, EvalError>(ObjectView::Integer(i64::MIN)),
            },
            fr,
        ),
        b == 0 ==> eval_list_s(
            seq![ObjectView::Symbol("/"@), ObjectView::Integer(a), ObjectView::Integer(b)],
            fr,
            idx,
            fuel,
        ) == (Err::<ObjectView, EvalError>(EvalError::DivisionByZero), fr),
        eval_list_s(
            seq![ObjectView::Symbol("<"@), ObjectView::Integer(a), ObjectView::Integer(b)],
            fr,
            idx,
            fuel,
        ) == (Ok::<ObjectView, EvalError>(ObjectView::Bool(a < b)), fr),
        eval_list_s(
            seq![ObjectView::Symbol(">"@), ObjectView::Integer(a), ObjectView::Integer(b)],
            fr,
            idx,
            fuel,
        ) == (Ok::<ObjectView, EvalError>(ObjectView::Bool(a > b)), fr),
        eval_list_s(
            seq![ObjectView::Symbol("="@), ObjectView::Integer(a), ObjectView::Integer(b)],
            fr,
            idx,
            fuel,
        ) == (Ok::<ObjectView, EvalError>(ObjectView::Bool(a == b)), fr),
        eval_list_s(
            seq![ObjectView::Symbol("!="@), ObjectView::Integer(a), ObjectView::Integer(b)],
            fr,
            idx,
            fuel,
        ) == (Ok::<ObjectView, EvalError>(ObjectView::Bool(a != b)), fr),
{
    op_literal_facts();
    let ia = ObjectView::Integer(a);
    let ib = ObjectView::Integer(b);
    assert(eval_obj_s(ia, fr, idx, (fuel - 1) as nat) == (Ok::<ObjectView, EvalError>(ia), fr));
    assert(eval_obj_s(ib, fr, idx, (fuel - 1) as nat) == (Ok::<ObjectView, EvalError>(ib), fr));
}

/// The remainder operator, applied to two integer operands, follows the
/// native 64-bit truncating remainder once `b != 0` (the one overflowing
/// case yields zero, as wrapping remainder does), and a zero divisor is
/// exactly `DivisionByZero`. The list dispatcher never routes a form to it:
/// `%` in head position is looked up as an ordinary symbol instead.
pub proof fn lemma_remainder_semantics(a: i64, b: i64)
    ensures
        b != 0 ==> apply_op("%"@, ObjectView::Integer(a), ObjectView::Integer(b)) == (
        match a.checked_rem(b) {
            Some(q) => Ok::<ObjectView, EvalError>(ObjectView::Integer(q)),
            None => Ok::<ObjectView, EvalError>(ObjectView::Integer(0)),
        }),
        b == 0 ==> apply_op("%"@, ObjectView::Integer(a), ObjectView::Integer(b)) == Err::<
            ObjectView,
            EvalError,
        >(EvalError::DivisionByZero),
        !is_op_name("%"@),
{
    op_literal_facts();
}

/// `(if <true-literal> x y)` evaluates and returns only `x`'s value: the
/// whole form evaluates exactly as `x` alone does on one unit less fuel, so
/// the untaken branch `y` contributes nothing to the result or to the
/// environment — the right-hand side does not mention `y` at all.
pub proof fn lemma_if_true_takes_then_branch(
    x: ObjectView,
    y: ObjectView,
    fr: Seq<FrameView>,
    idx: int,
    fuel: nat,
)
    requires
        fuel >= 2,
    ensures
        eval_list_s(
            seq![ObjectView::Symbol("if"@), ObjectView::Bool(true), x, y],
            fr,
            idx,
            fuel,
        ) == eval_obj_s(x, fr, idx, (fuel - 1) as nat),
{
    op_literal_facts();
}

/// Evaluates one syntax object against frame `idx`, exactly as `eval_obj_s`
/// describes, spending one unit of fuel per nesting level.
fn eval_obj(obj: &Object, env: &mut Env, idx: usize, fuel: u64) -> (r: Result<Object, EvalError>)
    requires
        env_wf(old(env)@),
        idx < old(env)@.len(),
    ensures
        env_wf(final(env)@),
        old(env)@.len() <= final(env)@.len(),
        res_view(r) == eval_obj_s(obj@, old(env)@, idx as int, fuel as nat).0,
        final(env)@ == eval_obj_s(obj@, old(env)@, idx as int, fuel as nat).1,
    decreases fuel, 3int, 0int,
{
    if fuel == 0 {
        return Err(EvalError::DepthLimitExceeded);
    }
    match obj {
        Object::Void => Ok(Object::Void),
        Object::Bool(b) => Ok(Object::Bool(*b)),
        Object::Integer(n) => Ok(Object::Integer(*n)),
        Object::Lambda(_, _) => Ok(Object::Void),
        Object::Symbol(s) => match env.get(idx, s.as_str()) {
            Some(v) => Ok(v),
            None => Err(EvalError::UndefinedSymbol),
        },
        Object::List(items) => eval_list(items, env, idx, fuel),
    }
}

/// Evaluates a list form by dispatch on its head, exactly as `eval_list_s`
/// describes.
fn eval_list(items: &Vec<Object>, env: &mut Env, idx: usize, fuel: u64) -> (r: Result<
    Object,
    EvalError,
>)
    requires
        env_wf(old(env)@),
        idx < old(env)@.len(),
    ensures
        env_wf(final(env)@),
        old(env)@.len() <= final(env)@.len(),
        res_view(r) == eval_list_s(objs_view(items@), old(env)@, idx as int, fuel as nat).0,
        final(env)@ == eval_list_s(objs_view(items@), old(env)@, idx as int, fuel as nat).1,
    decreases fuel, 2int, 0int,
{
    if fuel == 0 {
        return Err(EvalError::DepthLimitExceeded);
    }
    if items.len() > 0 {
        match &items[0] {
            Object::Symbol(s) => {
                let name = s.as_str();
                if str_eq(name, "+") || str_eq(name, "-") || str_eq(name, "*") || str_eq(name, "/")
                    || str_eq(name, "<") || str_eq(name, ">") || str_eq(name, "=") || str_eq(
                    name,
                    "!=",
                ) {
                    eval_binary_operation(items, env, idx, fuel)
                } else if str_eq(name, "if") {
                    eval_if(items, env, idx, fuel)
                } else if str_eq(name, "define") {
                    eval_define(items, env, idx, fuel)
                } else if str_eq(name, "lambda") {
                    eval_function_definition(items)
                } else {
                    eval_function_call(s, items, env, idx, fuel)
                }
            },
            _ => {
                proof {
                    assert(objs_view(Seq::<Object>::empty()) =~= Seq::<ObjectView>::empty());
                }
                eval_elems(items, 0, Vec::new(), env, idx, fuel)
            },
        }
    } else {
        proof {
            assert(objs_view(Seq::<Object>::empty()) =~= Seq::<ObjectView>::empty());
        }
        eval_elems(items, 0, Vec::new(), env, idx, fuel)
    }
}

/// Evaluates a binary operation, exactly as `eval_binop_s` describes: both
/// operands first, left to right, then the operand kinds, then the operator.
fn eval_binary_operation(list: &Vec<Object>, env: &mut Env, idx: usize, fuel: u64) -> (r: Result<
    Object,
    EvalError,
>)
    requires
        env_wf(old(env)@),
        idx < old(env)@.len(),
    ensures
        env_wf(final(env)@),
        old(env)@.len() <= final(env)@.len(),
        res_view(r) == eval_binop_s(objs_view(list@), old(env)@, idx as int, fuel as nat).0,
        final(env)@ == eval_binop_s(objs_view(list@), old(env)@, idx as int, fuel as nat).1,
    decreases fuel, 1int, 0int,
{
    if fuel == 0 {
        return Err(EvalError::DepthLimitExceeded);
    }
    if list.len() != 3 {
        return Err(EvalError::ArityMismatch);
    }
    let left = match eval_obj(&list[1], env, idx, fuel - 1) {
        Ok(v) => v,
        Err(e) => {
            return Err(e);
        },
    };
    let right = match eval_obj(&list[2], env, idx, fuel - 1) {
        Ok(v) => v,
        Err(e) => {
            return Err(e);
        },
    };
    let a: i64 = match left {
        Object::Integer(n) => n,
        _ => {
            return Err(EvalError::TypeMismatch);
        },
    };
    let b: i64 = match right {
        Object::Integer(n) => n,
        _ => {
            return Err(EvalError::TypeMismatch);
        },
    };
    match &list[0] {
        Object::Symbol(s) => {
            let name = s.as_str();
            if str_eq(name, "+") {
                Ok(Object::Integer(a.wrapping_add(b)))
            } else if str_eq(name, "-") {
                Ok(Object::Integer(a.wrapping_sub(b)))
            } else if str_eq(name, "*") {
                Ok(Object::Integer(a.wrapping_mul(b)))
            } else if str_eq(name, "/") {
                if b == 0 {
                    Err(EvalError::DivisionByZero)
                } else {
                    match a.checked_div(b) {
                        Some(q) => Ok(Object::Integer(q)),
                        None => Ok(Object::Integer(i64::MIN)),
                    }
                }
            } else if str_eq(name, "%") {
                if b == 0 {
                    Err(EvalError::DivisionByZero)
                } else {
                    match a.checked_rem(b) {
                        Some(q) => Ok(Object::Integer(q)),
                        None => Ok(Object::Integer(0)),
                    }
                }
            } else if str_eq(name, "<") {
                Ok(Object::Bool(a < b))
            } else if str_eq(name, ">") {
                Ok(Object::Bool(a > b))
            } else if str_eq(name, "=") {
                Ok(Object::Bool(a == b))
            } else if str_eq(name, "!=") {
                Ok(Object::Bool(a != b))
            } else {
                Err(EvalError::TypeMismatch)
            }
        },
        _ => Err(EvalError::TypeMismatch),
    }
}

/// Evaluates an `if` form, exactly as `eval_if_s` describes: the condition,
/// then exactly one branch.
fn eval_if(list: &Vec<Object>, env: &mut Env, idx: usize, fuel: u64) -> (r: Result<
    Object,
    EvalError,
>)
    requires
        env_wf(old(env)@),
        idx < old(env)@.len(),
    ensures
        env_wf(final(env)@),
        old(env)@.len() <= final(env)@.len(),
        res_view(r) == eval_if_s(objs_view(list@), old(env)@, idx as int, fuel as nat).0,
        final(env)@ == eval_if_s(objs_view(list@), old(env)@, idx as int, fuel as nat).1,
    decreases fuel, 1int, 0int,
{
    if fuel == 0 {
        return Err(EvalError::DepthLimitExceeded);
    }
    if list.len() != 4 {
        return Err(EvalError::ArityMismatch);
    }
    let cond = match eval_obj(&list[1], env, idx, fuel - 1) {
        Ok(v) => v,
        Err(e) => {
            return Err(e);
        },
    };
    let b: bool = match cond {
        Object::Bool(b) => b,
        _ => {
            return Err(EvalError::TypeMismatch);
        },
    };
    if b {
        eval_obj(&list[2], env, idx, fuel - 1)
    } else {
        eval_obj(&list[3], env, idx, fuel - 1)
    }
}

/// Evaluates a `define` form, exactly as `eval_define_s` describes: the
/// expression's value is bound under the literal symbol in the current frame.
fn eval_define(list: &Vec<Object>, env: &mut Env, idx: usize, fuel: u64) -> (r: Result<
    Object,
    EvalError,
>)
    requires
        env_wf(old(env)@),
        idx < old(env)@.len(),
    ensures
        env_wf(final(env)@),
        old(env)@.len() <= final(env)@.len(),
        res_view(r) == eval_define_s(objs_view(list@), old(env)@, idx as int, fuel as nat).0,
        final(env)@ == eval_define_s(objs_view(list@), old(env)@, idx as int, fuel as nat).1,
    decreases fuel, 1int, 0int,
{
    if fuel == 0 {
        return Err(EvalError::DepthLimitExceeded);
    }
    if list.len() != 3 {
        return Err(EvalError::ArityMismatch);
    }
    let sym: String = match &list[1] {
        Object::Symbol(s) => s.clone(),
        _ => {
            return Err(EvalError::TypeMismatch);
        },
    };
    let val = match eval_obj(&list[2], env, idx, fuel - 1) {
        Ok(v) => v,
        Err(e) => {
            return Err(e);
        },
    };
    env.set(idx, sym.as_str(), val);
    Ok(Object::Void)
}

/// Builds a lambda value from a `lambda` form, exactly as `make_lambda_s`
/// describes; nothing is evaluated and the environment is untouched.
fn eval_function_definition(list: &Vec<Object>) -> (r: Result<Object, EvalError>)
    ensures
        res_view(r) == make_lambda_s(objs_view(list@)),
{
    if list.len() < 3 {
        return Err(EvalError::ArityMismatch);
    }
    match &list[1] {
        Object::List(ps) => {
            let mut names: Vec<String> = Vec::new();
            let mut i: usize = 0;
            while i < ps.len()
                invariant
                    i <= ps@.len(),
                    names@.len() == i,
                    list@.len() >= 3,
                    obj_view(list@[1]) == ObjectView::List(objs_view(ps@)),
                    forall|k: int| 0 <= k < i ==> (#[trigger] objs_view(ps@)[k]) is Symbol,
                    forall|k: int| 0 <= k < i ==> names@[k]@ == objs_view(ps@)[k]->Symbol_0,
                decreases ps@.len() - i,
            {
                match &ps[i] {
                    Object::Symbol(s) => {
                        names.push(s.clone());
                    },
                    _ => {
                        proof {
                            assert(!(ps@[i as int] is Symbol));
                            assert(objs_view(ps@)[i as int] == obj_view(ps@[i as int]));
                            assert(!(obj_view(ps@[i as int]) is Symbol)) by {
                                match ps@[i as int] {
                                    Object::Symbol(_) => {
                                        assert(false);
                                    },
                                    _ => {},
                                }
                            }
                            assert(!all_symbols(objs_view(ps@)));
                        }
                        return Err(EvalError::TypeMismatch);
                    },
                }
                i = i + 1;
            }
            proof {
                assert(all_symbols(objs_view(ps@)));
            }
            match &list[2] {
                Object::List(b) => {
                    let body = duplicate_objects(b);
                    proof {
                        assert(strs_view(names@) =~= symbol_names(objs_view(ps@)));
                    }
                    Ok(Object::Lambda(names, body))
                },
                _ => Err(EvalError::TypeMismatch),
            }
        },
        _ => Err(EvalError::TypeMismatch),
    }
}

/// Performs a function call, exactly as `eval_call_s` describes: the callee
/// is looked up, a fresh frame extends the caller's frame, the arguments are
/// bound, and the body runs in the new frame.
fn eval_function_call(s: &String, list: &Vec<Object>, env: &mut Env, idx: usize, fuel: u64) -> (r:
    Result<Object, EvalError>)
    requires
        env_wf(old(env)@),
        idx < old(env)@.len(),
        list@.len() >= 1,
    ensures
        env_wf(final(env)@),
        old(env)@.len() <= final(env)@.len(),
        res_view(r) == eval_call_s(s@, objs_view(list@), old(env)@, idx as int, fuel as nat).0,
        final(env)@ == eval_call_s(s@, objs_view(list@), old(env)@, idx as int, fuel as nat).1,
    decreases fuel, 1int, 0int,
{
    if fuel == 0 {
        return Err(EvalError::DepthLimitExceeded);
    }
    let func = match env.get(idx, s.as_str()) {
        Some(f) => f,
        None => {
            return Err(EvalError::UndefinedSymbol);
        },
    };
    match func {
        Object::Lambda(params, body) => {
            if list.len() - 1 != params.len() {
                return Err(EvalError::ArityMismatch);
            }
            let cidx = env.extend(idx);
            match eval_args(list, &params, 0, cidx, env, idx, fuel) {
                Some(e) => Err(e),
                None => eval_list(&body, env, cidx, fuel - 1),
            }
        },
        _ => Err(EvalError::NotAFunction),
    }
}

/// Binds arguments to parameters one position at a time, exactly as
/// `eval_args_s` describes.
fn eval_args(
    list: &Vec<Object>,
    params: &Vec<String>,
    j: usize,
    cidx: usize,
    env: &mut Env,
    idx: usize,
    fuel: u64,
) -> (r: Option<EvalError>)
    requires
        env_wf(old(env)@),
        idx < old(env)@.len(),
        cidx < old(env)@.len(),
        list@.len() == params@.len() + 1,
        j <= params@.len(),
    ensures
        env_wf(final(env)@),
        old(env)@.len() <= final(env)@.len(),
        r == eval_args_s(
            objs_view(list@),
            strs_view(params@),
            j as int,
            cidx as int,
            old(env)@,
            idx as int,
            fuel as nat,
        ).0,
        final(env)@ == eval_args_s(
            objs_view(list@),
            strs_view(params@),
            j as int,
            cidx as int,
            old(env)@,
            idx as int,
            fuel as nat,
        ).1,
    decreases fuel, 0int, params@.len() - j,
{
    if fuel == 0 {
        return Some(EvalError::DepthLimitExceeded);
    }
    if j >= params.len() {
        return None;
    }
    let v = match eval_obj(&list[j + 1], env, idx, fuel - 1) {
        Ok(v) => v,
        Err(e) => {
            return Some(e);
        },
    };
    env.set(cidx, params[j].as_str(), v);
    eval_args(list, params, j + 1, cidx, env, idx, fuel)
}

/// Generic aggregate evaluation, exactly as `eval_elems_s` describes: every
/// element in order, void results dropped.
fn eval_elems(list: &Vec<Object>, j: usize, acc: Vec<Object>, env: &mut Env, idx: usize, fuel: u64) -> (r:
    Result<Object, EvalError>)
    requires
        env_wf(old(env)@),
        idx < old(env)@.len(),
        j <= list@.len(),
    ensures
        env_wf(final(env)@),
        old(env)@.len() <= final(env)@.len(),
        res_view(r) == eval_elems_s(
            objs_view(list@),
            j as int,
            objs_view(acc@),
            old(env)@,
            idx as int,
            fuel as nat,
        ).0,
        final(env)@ == eval_elems_s(
            objs_view(list@),
            j as int,
            objs_view(acc@),
            old(env)@,
            idx as int,
            fuel as nat,
        ).1,
    decreases fuel, 0int, list@.len() - j,
{
    if fuel == 0 {
        return Err(EvalError::DepthLimitExceeded);
    }
    if j >= list.len() {
        return Ok(Object::List(acc));
    }
    let v = match eval_obj(&list[j], env, idx, fuel - 1) {
        Ok(v) => v,
        Err(e) => {
            return Err(e);
        },
    };
    let ghost accv: Seq<Object> = acc@;
    let mut acc2 = acc;
    match v {
        Object::Void => {},
        o => {
            let ghost ov: Object = o;
            acc2.push(o);
            proof {
                assert(accv.push(ov).drop_last() =~= accv);
                assert(objs_view(acc2@) == objs_view(accv).push(obj_view(ov)));
            }
        },
    }
    eval_elems(list, j + 1, acc2, env, idx, fuel)
}

/// Tokenizes, parses and evaluates one line of source text against the root
/// frame of `env`, exactly as the whole-pipeline model `eval_source_s`
/// describes. `define` writes into the root frame, so bindings persist across
/// calls that share the environment.
pub fn eval(program: &str, env: &mut Env) -> (r: Result<Object, EvalError>)
    requires
        env_wf(old(env)@),
    ensures
        env_wf(final(env)@),
        res_view(r) == eval_source_s(program@, old(env)@).0,
        final(env)@ == eval_source_s(program@, old(env)@).1,
{
    let toks = tokenize(program);
    let ghost toks0: Seq<Token> = toks@;
    let mut src = toks;
    let mut rev: Vec<Token> = Vec::new();
    while src.len() > 0
        invariant
            src@ =~= toks0.take(src@.len() as int),
            src@.len() + rev@.len() == toks0.len(),
            forall|k: int| 0 <= k < rev@.len() ==> rev@[k] == toks0[toks0.len() - 1 - k],
        decreases src@.len(),
    {
        match src.pop() {
            Some(t) => {
                rev.push(t);
            },
            None => {
                proof {
                    assert(false);
                }
            },
        }
    }
    proof {
        assert(tokens_view(rev@) =~= tokens_view(toks0).reverse());
        assert(tokens_view(toks0) == spec_tokenize(program@));
    }
    let mut tokens = rev;
    match parse_list(&mut tokens) {
        Err(pe) => Err(EvalError::Parse(pe)),
        Ok(obj) => eval_obj(&obj, env, 0, EVAL_DEPTH_LIMIT),
    }
}

} // verus!
