//! The tokenizer: turns a raw line of source text into a flat ordered
//! sequence of tokens. Parentheses are standalone tokens wherever they occur;
//! the other maximal runs of non-whitespace, non-parenthesis characters are
//! words, each classified as a signed 64-bit integer literal when it parses as
//! one and as a symbol otherwise. Tokenizing always succeeds.

use vstd::prelude::*;
use vstd::string::*;

verus! {

broadcast use vstd::seq::group_seq_axioms;

/// The possible tokens of a program.
#[derive(Debug, PartialEq, Eq)]
pub enum Token {
    OpenParenthesis,
    CloseParenthesis,
    Integer(i64),
    Symbol(String),
}

/// The mathematical model of a token.
#[verifier::ext_equal]
pub enum TokenView {
    OpenParenthesis,
    CloseParenthesis,
    Integer(i64),
    Symbol(Seq<char>),
}

/// The model of a token.
pub open spec fn token_view(t: Token) -> TokenView {
    match t {
        Token::OpenParenthesis => TokenView::OpenParenthesis,
        Token::CloseParenthesis => TokenView::CloseParenthesis,
        Token::Integer(n) => TokenView::Integer(n),
        Token::Symbol(s) => TokenView::Symbol(s@),
    }
}

impl View for Token {
    type V = TokenView;

    open spec fn view(&self) -> TokenView {
        token_view(*self)
    }
}

/// The models of a sequence of tokens, element by element.
pub open spec fn tokens_view(ts: Seq<Token>) -> Seq<TokenView> {
    Seq::new(ts.len(), |i: int| token_view(ts[i]))
}

/// The Unicode whitespace characters, the ones `White_Space` names: words are
/// split on exactly these.
pub open spec fn is_ws_char(c: char) -> bool {
    let u = c as u32;
    (9 <= u && u <= 13) || u == 32 || u == 133 || u == 160 || u == 0x1680 || (0x2000 <= u
        && u <= 0x200A) || u == 0x2028 || u == 0x2029 || u == 0x202F || u == 0x205F || u == 0x3000
}

/// Whether `c` splits words, per the Unicode whitespace table above.
pub fn char_is_ws(c: char) -> (r: bool)
    ensures
        r == is_ws_char(c),
{
    let u: u32 = c as u32;
    (9 <= u && u <= 13) || u == 32 || u == 133 || u == 160 || u == 0x1680 || (0x2000 <= u
        && u <= 0x200A) || u == 0x2028 || u == 0x2029 || u == 0x202F || u == 0x205F || u == 0x3000
}

/// A decimal digit.
pub open spec fn is_digit_char(c: char) -> bool {
    48 <= c as u32 && c as u32 <= 57
}

/// The numeric value of a decimal digit.
pub open spec fn digit_val(c: char) -> int {
    c as u32 - 48
}

/// Every character of `s` is a decimal digit.
pub open spec fn all_digits(s: Seq<char>) -> bool {
    forall|i: int| 0 <= i < s.len() ==> is_digit_char(#[trigger] s[i])
}

/// The value of a run of decimal digits, most significant first.
pub open spec fn digits_value(s: Seq<char>) -> int
    decreases s.len(),
{
    if s.len() == 0 {
        0
    } else {
        digits_value(s.drop_last()) * 10 + digit_val(s.last())
    }
}

/// The digits of a word, once an optional leading sign is removed.
pub open spec fn int_body(w: Seq<char>) -> Seq<char> {
    if w.len() > 0 && (w[0] == '+' || w[0] == '-') {
        w.drop_first()
    } else {
        w
    }
}

/// The sign a word's optional leading sign denotes.
pub open spec fn int_sign(w: Seq<char>) -> int {
    if w.len() > 0 && w[0] == '-' {
        -1
    } else {
        1
    }
}

/// A word is an integer literal when an optional sign is followed by one or
/// more decimal digits and the signed value fits in a 64-bit signed integer;
/// any other word is a symbol.
pub open spec fn is_int_token(w: Seq<char>) -> bool {
    let b = int_body(w);
    b.len() > 0 && all_digits(b) && i64::MIN <= int_sign(w) * digits_value(b) <= i64::MAX
}

/// The value of an integer-literal word.
pub open spec fn int_token_value(w: Seq<char>) -> int {
    int_sign(w) * digits_value(int_body(w))
}

/// The token a whitespace-delimited word denotes.
pub open spec fn classify_word(w: Seq<char>) -> TokenView {
    if is_int_token(w) {
        TokenView::Integer(int_token_value(w) as i64)
    } else {
        TokenView::Symbol(w)
    }
}

/// The token of the word running from `start` to `end`, or nothing when the
/// word is empty.
pub open spec fn flush_word(text: Seq<char>, start: int, end: int) -> Seq<TokenView> {
    if start < end {
        seq![classify_word(text.subrange(start, end))]
    } else {
        Seq::empty()
    }
}

/// The tokens of `text` from position `i` on, given the start of the current
/// word and the tokens already produced.
pub open spec fn spec_tokenize_from(
    text: Seq<char>,
    i: int,
    start: int,
    acc: Seq<TokenView>,
) -> Seq<TokenView>
    decreases text.len() - i,
{
    if !(0 <= i < text.len()) {
        acc + flush_word(text, start, text.len() as int)
    } else {
        let c = text[i];
        if c == '(' {
            spec_tokenize_from(
                text,
                i + 1,
                i + 1,
                acc + flush_word(text, start, i) + seq![TokenView::OpenParenthesis],
            )
        } else if c == ')' {
            spec_tokenize_from(
                text,
                i + 1,
                i + 1,
                acc + flush_word(text, start, i) + seq![TokenView::CloseParenthesis],
            )
        } else if is_ws_char(c) {
            spec_tokenize_from(text, i + 1, i + 1, acc + flush_word(text, start, i))
        } else {
            spec_tokenize_from(text, i + 1, start, acc)
        }
    }
}

/// The token sequence of a whole text.
pub open spec fn spec_tokenize(text: Seq<char>) -> Seq<TokenView> {
    spec_tokenize_from(text, 0, 0, Seq::empty())
}

/// Digit runs have non-negative values, and a prefix never exceeds the whole.
proof fn lemma_digits_bounds(s: Seq<char>, j: int)
    requires
        all_digits(s),
        0 <= j <= s.len(),
    ensures
        digits_value(s.take(j)) >= 0,
        digits_value(s) >= digits_value(s.take(j)),
    decreases s.len() - j, s.len(),
{
    if j == s.len() {
        assert(s.take(j) =~= s);
        if s.len() > 0 {
            assert(s.drop_last() =~= s.take(s.len() - 1));
            lemma_digits_bounds(s.drop_last(), s.len() - 1);
            assert(digits_value(s.drop_last()) >= 0);
        }
    } else {
        lemma_digits_bounds(s, j + 1);
        assert(s.take(j + 1).drop_last() =~= s.take(j));
        assert(s.take(j + 1).last() == s[j]);
        assert(digits_value(s.take(j + 1)) == digits_value(s.take(j)) * 10 + digit_val(s[j]));
        assert(digits_value(s.take(j)) * 10 >= digits_value(s.take(j))) by {
            if digits_value(s.take(j)) < 0 {
                lemma_digits_bounds(s.take(j), s.take(j).len() as int);
            }
        }
    }
}

/// The value of one more digit appended to a digit run.
proof fn lemma_digits_step(s: Seq<char>, j: int)
    requires
        0 <= j < s.len(),
    ensures
        digits_value(s.take(j + 1)) == digits_value(s.take(j)) * 10 + digit_val(s[j]),
{
    assert(s.take(j + 1).drop_last() =~= s.take(j));
    assert(s.take(j + 1).last() == s[j]);
}

/// Parses a word as a signed 64-bit integer literal: the value exactly when
/// the word is one, and nothing otherwise.
pub fn parse_int_word(w: &str) -> (r: Option<i64>)
    ensures
        match r {
            Some(v) => is_int_token(w@) && v == int_token_value(w@),
            None => !is_int_token(w@),
        },
{
    let n: usize = w.unicode_len();
    if n == 0 {
        return None;
    }
    let c0: char = w.get_char(0);
    let neg: bool = c0 == '-';
    let pos0: usize = if c0 == '-' || c0 == '+' {
        1
    } else {
        0
    };
    if pos0 >= n {
        // a bare sign has no digits
        proof {
            assert(int_body(w@).len() == 0);
        }
        return None;
    }
    let limit: u64 = if neg {
        9223372036854775808u64
    } else {
        9223372036854775807u64
    };
    let ghost body: Seq<char> = int_body(w@);
    proof {
        if pos0 == 1 {
            assert(body =~= w@.subrange(1, n as int));
        } else {
            assert(body =~= w@.subrange(0, n as int));
            assert(w@.subrange(0, n as int) =~= w@);
        }
        assert(body.len() == n - pos0);
    }
    let mut acc: u64 = 0;
    let mut j: usize = pos0;
    while j < n
        invariant
            n == w@.len(),
            pos0 <= j <= n,
            pos0 < n,
            body == int_body(w@),
            body.len() == n - pos0,
            forall|k: int| pos0 <= k < n ==> body[k - pos0] == w@[k],
            forall|k: int| 0 <= k < j - pos0 ==> is_digit_char(#[trigger] body[k]),
            acc == digits_value(body.take(j - pos0)),
            acc <= limit,
            limit == if int_sign(w@) == -1 {
                9223372036854775808u64
            } else {
                9223372036854775807u64
            },
        decreases n - j,
    {
        let c: char = w.get_char(j);
        let u: u32 = c as u32;
        if !(48 <= u && u <= 57) {
            proof {
                assert(body[j - pos0] == c);
                assert(!is_digit_char(body[j - pos0]));
                assert(!all_digits(body));
            }
            return None;
        }
        let d: u64 = (u - 48) as u64;
        proof {
            lemma_digits_step(body, j - pos0);
        }
        if acc > (limit - d) / 10 {
            // the digits already overflow the 64-bit range, and more digits
            // only grow the value
            proof {
                assert(acc * 10 + d > limit);
                if all_digits(body) {
                    assert(body.take(j - pos0 + 1).len() == j - pos0 + 1);
                    assert(forall|k: int|
                        0 <= k < j - pos0 + 1 ==> is_digit_char(#[trigger] body.take(j - pos0 + 1)[k]));
                    lemma_digits_bounds(body, j - pos0 + 1);
                    assert(digits_value(body) > limit);
                    let v = digits_value(body);
                    let sgn = int_sign(w@);
                    if sgn == -1 {
                        assert(sgn * v == -v) by (nonlinear_arith)
                            requires
                                sgn == -1,
                        ;
                        assert(-v < i64::MIN);
                    } else {
                        assert(sgn * v == v) by (nonlinear_arith)
                            requires
                                sgn == 1,
                        ;
                        assert(v > i64::MAX);
                    }
                }
            }
            return None;
        }
        acc = acc * 10 + d;
        j = j + 1;
    }
    proof {
        assert(body.take(n - pos0) =~= body);
        assert(all_digits(body));
        assert(is_int_token(w@));
    }
    if neg {
        proof {
            assert(int_sign(w@) == -1);
            assert(int_token_value(w@) == -(acc as int));
        }
        if acc == 9223372036854775808u64 {
            Some(i64::MIN)
        } else {
            Some(-(acc as i64))
        }
    } else {
        proof {
            assert(int_sign(w@) == 1);
            assert(int_token_value(w@) == acc as int);
        }
        Some(acc as i64)
    }
}

/// The token a word denotes: an integer literal when it parses as one, a
/// symbol otherwise.
pub fn classify_token(w: &str) -> (t: Token)
    ensures
        token_view(t) == classify_word(w@),
{
    match parse_int_word(w) {
        Some(v) => Token::Integer(v),
        None => Token::Symbol(w.to_owned()),
    }
}

/// Takes a program string and produces the sequence of its tokens, in source
/// order, exactly as the tokenizing model describes.
pub fn tokenize(program: &str) -> (r: Vec<Token>)
    ensures
        tokens_view(r@) == spec_tokenize(program@),
{
    let n: usize = program.unicode_len();
    let mut tokens: Vec<Token> = Vec::new();
    let mut start: usize = 0;
    let mut i: usize = 0;
    proof {
        assert(tokens_view(tokens@) =~= Seq::<TokenView>::empty());
    }
    while i < n
        invariant
            n == program@.len(),
            start <= i <= n,
            spec_tokenize(program@) == spec_tokenize_from(
                program@,
                i as int,
                start as int,
                tokens_view(tokens@),
            ),
        decreases n - i,
    {
        let ghost pre: Seq<TokenView> = tokens_view(tokens@);
        let c: char = program.get_char(i);
        if c == '(' {
            if start < i {
                let w = program.substring_char(start, i);
                tokens.push(classify_token(w));
            }
            tokens.push(Token::OpenParenthesis);
            proof {
                assert(tokens_view(tokens@) =~= pre + flush_word(program@, start as int, i as int)
                    + seq![TokenView::OpenParenthesis]);
            }
            start = i + 1;
        } else if c == ')' {
            if start < i {
                let w = program.substring_char(start, i);
                tokens.push(classify_token(w));
            }
            tokens.push(Token::CloseParenthesis);
            proof {
                assert(tokens_view(tokens@) =~= pre + flush_word(program@, start as int, i as int)
                    + seq![TokenView::CloseParenthesis]);
            }
            start = i + 1;
        } else if char_is_ws(c) {
            if start < i {
                let w = program.substring_char(start, i);
                tokens.push(classify_token(w));
            }
            proof {
                assert(tokens_view(tokens@) =~= pre + flush_word(
                    program@,
                    start as int,
                    i as int,
                ));
            }
            start = i + 1;
        }
        i = i + 1;
    }
    if start < n {
        let ghost pre: Seq<TokenView> = tokens_view(tokens@);
        let w = program.substring_char(start, n);
        tokens.push(classify_token(w));
        proof {
            assert(tokens_view(tokens@) =~= pre + flush_word(program@, start as int, n as int));
        }
    } else {
        proof {
            assert(tokens_view(tokens@) =~= tokens_view(tokens@) + flush_word(
                program@,
                start as int,
                n as int,
            ));
        }
    }
    tokens
}

} // verus!
