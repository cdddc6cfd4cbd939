//! The `calculator` tool: a tokenizer and a recursive-descent parser that
//! compile an arithmetic expression into a postfix (stack) program.
//!
//! Numbers are kept as their literal text; the arithmetic itself is done on
//! floating-point values by the caller, which runs the program in order.
use vstd::prelude::*;
use crate::json::{JsonModel, JsonValue, members_model};
use crate::protocol::{ToolCallResult, ToolDefinition};
use crate::text::{chars_of, concat, owned, push_char};
use super::{Tool, object_schema, object_schema_value, string_property, string_property_value};

verus! {

// ---------------------------------------------------------------------------
// Tokens
// ---------------------------------------------------------------------------

/// A lexical token of an arithmetic expression.
#[derive(Debug, Clone, PartialEq, Eq)]
pub enum Token {
    /// A number literal, kept as written (digits and at most one `.`).
    Number(String),
    Plus,
    Minus,
    Multiply,
    Divide,
    LParen,
    RParen,
}

/// The mathematical model of a [`Token`].
pub ghost enum TokenModel {
    Number(Seq<char>),
    Plus,
    Minus,
    Multiply,
    Divide,
    LParen,
    RParen,
}

impl View for Token {
    type V = TokenModel;

    open spec fn view(&self) -> TokenModel {
        match self {
            Token::Number(s) => TokenModel::Number(s@),
            Token::Plus => TokenModel::Plus,
            Token::Minus => TokenModel::Minus,
            Token::Multiply => TokenModel::Multiply,
            Token::Divide => TokenModel::Divide,
            Token::LParen => TokenModel::LParen,
            Token::RParen => TokenModel::RParen,
        }
    }
}

pub open spec fn tokens_model(ts: Seq<Token>) -> Seq<TokenModel> {
    ts.map_values(|t: Token| t@)
}

// ---------------------------------------------------------------------------
// Errors
// ---------------------------------------------------------------------------

/// Why an expression could not be evaluated.
#[derive(Debug, Clone, PartialEq, Eq)]
pub enum CalcError {
    /// A run of digits and dots that is not a number (no digit, or two dots).
    InvalidNumber(String),
    /// A character that no token starts with.
    UnexpectedCharacter(char),
    /// The expression holds no token at all.
    EmptyExpression,
    /// The expression ended where an operand was expected.
    UnexpectedEnd,
    /// An opening parenthesis whose expression runs to the end of the input.
    UnmatchedParen,
    /// A parenthesised expression followed by something other than `)`.
    ExpectedRParen,
    /// A token that cannot start an operand.
    UnexpectedToken(Token),
    /// A complete expression followed by more tokens.
    ExtraTokens,
    /// A division whose divisor evaluated to zero.
    DivisionByZero,
}

/// The mathematical model of a [`CalcError`].
pub ghost enum CalcErrorModel {
    InvalidNumber(Seq<char>),
    UnexpectedCharacter(char),
    EmptyExpression,
    UnexpectedEnd,
    UnmatchedParen,
    ExpectedRParen,
    UnexpectedToken(TokenModel),
    ExtraTokens,
    DivisionByZero,
}

impl View for CalcError {
    type V = CalcErrorModel;

    open spec fn view(&self) -> CalcErrorModel {
        match self {
            CalcError::InvalidNumber(s) => CalcErrorModel::InvalidNumber(s@),
            CalcError::UnexpectedCharacter(c) => CalcErrorModel::UnexpectedCharacter(*c),
            CalcError::EmptyExpression => CalcErrorModel::EmptyExpression,
            CalcError::UnexpectedEnd => CalcErrorModel::UnexpectedEnd,
            CalcError::UnmatchedParen => CalcErrorModel::UnmatchedParen,
            CalcError::ExpectedRParen => CalcErrorModel::ExpectedRParen,
            CalcError::UnexpectedToken(t) => CalcErrorModel::UnexpectedToken(t@),
            CalcError::ExtraTokens => CalcErrorModel::ExtraTokens,
            CalcError::DivisionByZero => CalcErrorModel::DivisionByZero,
        }
    }
}

// ---------------------------------------------------------------------------
// Tokenizer specification
// ---------------------------------------------------------------------------

pub open spec fn is_space(c: char) -> bool {
    c == ' ' || c == '\t' || c == '\r' || c == '\n'
}

pub open spec fn is_digit(c: char) -> bool {
    '0' <= c && c <= '9'
}

pub open spec fn is_number_char(c: char) -> bool {
    is_digit(c) || c == '.'
}

/// The token that a single operator or parenthesis character stands for.
pub open spec fn symbol_token(c: char) -> Option<TokenModel> {
    if c == '+' {
        Some(TokenModel::Plus)
    } else if c == '-' {
        Some(TokenModel::Minus)
    } else if c == '*' {
        Some(TokenModel::Multiply)
    } else if c == '/' {
        Some(TokenModel::Divide)
    } else if c == '(' {
        Some(TokenModel::LParen)
    } else if c == ')' {
        Some(TokenModel::RParen)
    } else {
        None
    }
}

/// The end of the run of number characters that starts at `i`.
pub open spec fn number_end(s: Seq<char>, i: int) -> int
    decreases s.len() - i,
{
    if 0 <= i < s.len() && is_number_char(s[i]) {
        number_end(s, i + 1)
    } else {
        i
    }
}

/// A literal made of digits and dots is a number when it holds a digit and
/// at most one dot.
pub open spec fn valid_number(lit: Seq<char>) -> bool {
    &&& exists|k: int| 0 <= k < lit.len() && is_digit(#[trigger] lit[k])
    &&& forall|a: int, b: int| 0 <= a < b < lit.len() ==> !(lit[a] == '.' && lit[b] == '.')
}

pub open spec fn prepend(
    t: TokenModel,
    rest: Result<Seq<TokenModel>, CalcErrorModel>,
) -> Result<Seq<TokenModel>, CalcErrorModel> {
    match rest {
        Ok(ts) => Ok(seq![t] + ts),
        Err(e) => Err(e),
    }
}

pub proof fn lemma_number_end(s: Seq<char>, i: int)
    requires
        0 <= i <= s.len(),
    ensures
        i <= number_end(s, i) <= s.len(),
        forall|k: int| i <= k < number_end(s, i) ==> is_number_char(#[trigger] s[k]),
        number_end(s, i) < s.len() ==> !is_number_char(s[number_end(s, i)]),
    decreases s.len() - i,
{
    if i < s.len() && is_number_char(s[i]) {
        lemma_number_end(s, i + 1);
    }
}

/// The tokens of `s` from position `i` on, or the first lexical error.
pub open spec fn tokenize_from(s: Seq<char>, i: int) -> Result<Seq<TokenModel>, CalcErrorModel>
    decreases s.len() - i,
{
    if i < 0 || i >= s.len() {
        Ok(seq![])
    } else {
        let c = s[i];
        if is_space(c) {
            tokenize_from(s, i + 1)
        } else if symbol_token(c) is Some {
            prepend(symbol_token(c)->0, tokenize_from(s, i + 1))
        } else if is_number_char(c) {
            let e = number_end(s, i);
            let lit = s.subrange(i, e);
            proof {
                lemma_number_end(s, i);
            }
            if valid_number(lit) {
                prepend(TokenModel::Number(lit), tokenize_from(s, e))
            } else {
                Err(CalcErrorModel::InvalidNumber(lit))
            }
        } else {
            Err(CalcErrorModel::UnexpectedCharacter(c))
        }
    }
}

/// The tokens of a whole expression, or the first lexical error.
pub open spec fn tokenize_spec(s: Seq<char>) -> Result<Seq<TokenModel>, CalcErrorModel> {
    tokenize_from(s, 0)
}

/// The tokens of two texts read one after the other: the first error met,
/// else the tokens of the first text followed by those of the second.
pub open spec fn join_tokens(
    x: Result<Seq<TokenModel>, CalcErrorModel>,
    y: Result<Seq<TokenModel>, CalcErrorModel>,
) -> Result<Seq<TokenModel>, CalcErrorModel> {
    match x {
        Err(e) => Err(e),
        Ok(p) => match y {
            Err(e) => Err(e),
            Ok(q) => Ok(p + q),
        },
    }
}

/// Reading `b` after a separator is reading `b` alone.
proof fn lemma_tokenize_shift(a: Seq<char>, c: char, b: Seq<char>, j: int)
    requires
        0 <= j <= b.len(),
    ensures
        tokenize_from(a + seq![c] + b, a.len() + 1 + j) == tokenize_from(b, j),
        number_end(a + seq![c] + b, a.len() + 1 + j) == a.len() + 1 + number_end(b, j),
    decreases b.len() - j,
{
    let s = a + seq![c] + b;
    let off = a.len() + 1;
    if j < b.len() {
        assert(s[off + j] == b[j]);
        lemma_tokenize_shift(a, c, b, j + 1);
        lemma_number_end(b, j);
        lemma_number_end(s, off + j);
        if is_number_char(b[j]) {
            let e = number_end(b, j);
            if e > j {
                lemma_tokenize_shift(a, c, b, e);
            }
            assert(s.subrange(off + j, off + e) =~= b.subrange(j, e));
        }
    }
}

/// A number that starts in `a` ends inside `a`: the separator is no number
/// character.
proof fn lemma_number_end_before_separator(a: Seq<char>, c: char, b: Seq<char>, i: int)
    requires
        0 <= i <= a.len(),
        is_space(c),
    ensures
        number_end(a + seq![c] + b, i) == number_end(a, i),
    decreases a.len() - i,
{
    let s = a + seq![c] + b;
    if i < a.len() {
        assert(s[i] == a[i]);
        lemma_number_end_before_separator(a, c, b, i + 1);
    } else {
        assert(s[i] == c);
    }
}

proof fn lemma_tokenize_prefix(a: Seq<char>, c: char, b: Seq<char>, i: int)
    requires
        0 <= i <= a.len(),
        is_space(c),
    ensures
        tokenize_from(a + seq![c] + b, i) == join_tokens(tokenize_from(a, i), tokenize_from(b, 0)),
    decreases a.len() - i,
{
    let s = a + seq![c] + b;
    if i == a.len() {
        assert(s[i] == c);
        lemma_tokenize_shift(a, c, b, 0);
        if let Ok(q) = tokenize_from(b, 0) {
            assert(Seq::<TokenModel>::empty() + q =~= q);
        }
    } else {
        assert(s[i] == a[i]);
        let ch = a[i];
        if is_space(ch) {
            lemma_tokenize_prefix(a, c, b, i + 1);
        } else if symbol_token(ch) is Some {
            lemma_tokenize_prefix(a, c, b, i + 1);
            let t = symbol_token(ch)->0;
            if let (Ok(p), Ok(q)) = (tokenize_from(a, i + 1), tokenize_from(b, 0)) {
                assert(seq![t] + p + q =~= seq![t] + (p + q));
            }
        } else if is_number_char(ch) {
            lemma_number_end_before_separator(a, c, b, i);
            lemma_number_end(a, i);
            let e = number_end(a, i);
            assert(s.subrange(i, e) =~= a.subrange(i, e));
            if e > i {
                lemma_tokenize_prefix(a, c, b, e);
            }
            let t = TokenModel::Number(a.subrange(i, e));
            if let (Ok(p), Ok(q)) = (tokenize_from(a, e), tokenize_from(b, 0)) {
                assert(seq![t] + p + q =~= seq![t] + (p + q));
            }
        }
    }
}

/// White space between two texts does not change their tokens: the tokens
/// of `a`, a white-space character, then `b` are the tokens of `a` followed
/// by those of `b`, or the first error met in `a`, else in `b`.
pub proof fn lemma_tokens_split_at_space(a: Seq<char>, c: char, b: Seq<char>)
    requires
        is_space(c),
    ensures
        tokenize_spec(a + seq![c] + b) == join_tokens(tokenize_spec(a), tokenize_spec(b)),
{
    lemma_tokenize_prefix(a, c, b, 0);
}

/// The operator and parenthesis characters and the tokens they stand for:
/// `+ - * / ( )` are `Plus`, `Minus`, `Multiply`, `Divide`, `LParen`,
/// `RParen`.
pub open spec fn operator_char(c: char, t: TokenModel) -> bool {
    ||| c == '+' && t == TokenModel::Plus
    ||| c == '-' && t == TokenModel::Minus
    ||| c == '*' && t == TokenModel::Multiply
    ||| c == '/' && t == TokenModel::Divide
    ||| c == '(' && t == TokenModel::LParen
    ||| c == ')' && t == TokenModel::RParen
}

/// How often `c` occurs in `s` from position `i` on.
pub open spec fn char_count(s: Seq<char>, c: char, i: int) -> nat
    decreases s.len() - i,
{
    if i < 0 || i >= s.len() {
        0
    } else {
        (if s[i] == c { 1nat } else { 0nat }) + char_count(s, c, i + 1)
    }
}

/// How often the token `t` occurs in `ts`.
pub open spec fn token_count(ts: Seq<TokenModel>, t: TokenModel) -> nat
    decreases ts.len(),
{
    if ts.len() == 0 {
        0
    } else {
        (if ts[0] == t { 1nat } else { 0nat }) + token_count(ts.drop_first(), t)
    }
}

/// Whether every number token is a non-empty run of digits and dots.
pub open spec fn numbers_are_digits(ts: Seq<TokenModel>) -> bool {
    forall|k: int| 0 <= k < ts.len() ==> (#[trigger] ts[k] matches TokenModel::Number(lit) ==> {
        &&& lit.len() > 0
        &&& forall|j: int| 0 <= j < lit.len() ==> ('0' <= #[trigger] lit[j] <= '9' || lit[j] == '.')
    })
}

proof fn lemma_char_count_skips_number(s: Seq<char>, c: char, i: int, e: int)
    requires
        0 <= i <= e <= s.len(),
        forall|k: int| i <= k < e ==> is_number_char(#[trigger] s[k]),
        !is_number_char(c),
    ensures
        char_count(s, c, i) == char_count(s, c, e),
    decreases e - i,
{
    if i < e {
        assert(is_number_char(s[i]));
        lemma_char_count_skips_number(s, c, i + 1, e);
    }
}

proof fn lemma_token_count_prepend(t0: TokenModel, rest: Seq<TokenModel>, t: TokenModel)
    ensures
        token_count(seq![t0] + rest, t) == (if t0 == t { 1nat } else { 0nat }) + token_count(rest, t),
{
    assert((seq![t0] + rest).drop_first() =~= rest);
}

proof fn lemma_tokenize_counts(s: Seq<char>, i: int, c: char, t: TokenModel)
    requires
        0 <= i <= s.len(),
        operator_char(c, t),
    ensures
        tokenize_from(s, i) matches Ok(ts) ==> token_count(ts, t) == char_count(s, c, i) && numbers_are_digits(ts),
    decreases s.len() - i,
{
    if i < s.len() {
        let ch = s[i];
        if is_space(ch) {
            lemma_tokenize_counts(s, i + 1, c, t);
        } else if symbol_token(ch) is Some {
            lemma_tokenize_counts(s, i + 1, c, t);
            let t0 = symbol_token(ch)->0;
            if let Ok(rest) = tokenize_from(s, i + 1) {
                lemma_token_count_prepend(t0, rest, t);
                let ts = seq![t0] + rest;
                assert forall|k: int| 0 <= k < ts.len() implies (#[trigger] ts[k] matches TokenModel::Number(lit) ==> {
                    &&& lit.len() > 0
                    &&& forall|j: int| 0 <= j < lit.len() ==> ('0' <= #[trigger] lit[j] <= '9' || lit[j] == '.')
                }) by {
                    if k > 0 {
                        assert(ts[k] == rest[k - 1]);
                    }
                }
            }
        } else if is_number_char(ch) {
            lemma_number_end(s, i);
            let e = number_end(s, i);
            let lit = s.subrange(i, e);
            lemma_tokenize_counts(s, e, c, t);
            lemma_char_count_skips_number(s, c, i, e);
            if valid_number(lit) {
                if let Ok(rest) = tokenize_from(s, e) {
                    lemma_token_count_prepend(TokenModel::Number(lit), rest, t);
                    let ts = seq![TokenModel::Number(lit)] + rest;
                    assert forall|k: int| 0 <= k < ts.len() implies (#[trigger] ts[k] matches TokenModel::Number(l) ==> {
                        &&& l.len() > 0
                        &&& forall|j: int| 0 <= j < l.len() ==> ('0' <= #[trigger] l[j] <= '9' || l[j] == '.')
                    }) by {
                        if k > 0 {
                            assert(ts[k] == rest[k - 1]);
                        } else {
                            assert forall|j: int| 0 <= j < lit.len() implies ('0' <= #[trigger] lit[j] <= '9' || lit[j] == '.') by {
                                assert(is_number_char(s[i + j]));
                            }
                        }
                    }
                }
            }
        }
    }
}

/// A character of a plain arithmetic text: a digit, an operator or
/// parenthesis, or white space.
pub open spec fn plain_char(c: char) -> bool {
    ||| '0' <= c <= '9'
    ||| c == '+' || c == '-' || c == '*' || c == '/' || c == '(' || c == ')'
    ||| c == ' ' || c == '\t' || c == '\r' || c == '\n'
}

proof fn lemma_plain_tokenizes_from(s: Seq<char>, i: int)
    requires
        0 <= i <= s.len(),
        forall|k: int| 0 <= k < s.len() ==> plain_char(#[trigger] s[k]),
    ensures
        tokenize_from(s, i) is Ok,
    decreases s.len() - i,
{
    if i < s.len() {
        assert(plain_char(s[i]));
        if is_number_char(s[i]) {
            lemma_number_end(s, i);
            let e = number_end(s, i);
            let lit = s.subrange(i, e);
            assert(is_digit(lit[0]));
            assert forall|a: int, b: int| 0 <= a < b < lit.len() implies !(lit[a] == '.' && lit[b] == '.') by {
                assert(plain_char(s[i + a]));
            }
            assert(valid_number(lit));
            lemma_plain_tokenizes_from(s, e);
        } else {
            lemma_plain_tokenizes_from(s, i + 1);
        }
    }
}

/// A text made only of digits, operators, parentheses and white space
/// always splits into tokens (whether it is a well-formed expression is for
/// the parser to say).
pub proof fn lemma_plain_texts_tokenize(s: Seq<char>)
    requires
        forall|k: int| 0 <= k < s.len() ==> plain_char(#[trigger] s[k]),
    ensures
        tokenize_spec(s) is Ok,
{
    lemma_plain_tokenizes_from(s, 0);
}

/// The tokens of an expression keep every operator: each `+ - * / ( )` in
/// the text gives exactly one token of its kind (a `-` is always `Minus`,
/// never part of a number), and every number token is a non-empty run of
/// digits and dots.
pub proof fn lemma_tokens_keep_operators(s: Seq<char>)
    ensures
        tokenize_spec(s) matches Ok(ts) ==> {
            &&& numbers_are_digits(ts)
            &&& token_count(ts, TokenModel::Plus) == char_count(s, '+', 0)
            &&& token_count(ts, TokenModel::Minus) == char_count(s, '-', 0)
            &&& token_count(ts, TokenModel::Multiply) == char_count(s, '*', 0)
            &&& token_count(ts, TokenModel::Divide) == char_count(s, '/', 0)
            &&& token_count(ts, TokenModel::LParen) == char_count(s, '(', 0)
            &&& token_count(ts, TokenModel::RParen) == char_count(s, ')', 0)
        },
{
    lemma_tokenize_counts(s, 0, '+', TokenModel::Plus);
    lemma_tokenize_counts(s, 0, '-', TokenModel::Minus);
    lemma_tokenize_counts(s, 0, '*', TokenModel::Multiply);
    lemma_tokenize_counts(s, 0, '/', TokenModel::Divide);
    lemma_tokenize_counts(s, 0, '(', TokenModel::LParen);
    lemma_tokenize_counts(s, 0, ')', TokenModel::RParen);
}

pub open spec fn tokens_result_model(r: Result<Vec<Token>, CalcError>) -> Result<Seq<TokenModel>, CalcErrorModel> {
    match r {
        Ok(v) => Ok(tokens_model(v@)),
        Err(e) => Err(e@),
    }
}

// ---------------------------------------------------------------------------
// Tokenizer
// ---------------------------------------------------------------------------

fn symbol_of(c: char) -> (r: Option<Token>)
    ensures
        match r {
            Some(t) => symbol_token(c) == Some(t@),
            None => symbol_token(c) is None,
        },
{
    if c == '+' {
        Some(Token::Plus)
    } else if c == '-' {
        Some(Token::Minus)
    } else if c == '*' {
        Some(Token::Multiply)
    } else if c == '/' {
        Some(Token::Divide)
    } else if c == '(' {
        Some(Token::LParen)
    } else if c == ')' {
        Some(Token::RParen)
    } else {
        None
    }
}

/// Whether the characters `s[start..end]` form a number literal.
fn check_number(s: &Vec<char>, start: usize, end: usize) -> (ok: bool)
    requires
        start <= end <= s@.len(),
    ensures
        ok == valid_number(s@.subrange(start as int, end as int)),
{
    let ghost lit = s@.subrange(start as int, end as int);
    let mut seen_digit = false;
    let mut seen_dot = false;
    let mut two_dots = false;
    let mut j = start;
    while j < end
        invariant
            start <= j <= end <= s@.len(),
            lit == s@.subrange(start as int, end as int),
            seen_digit <==> exists|k: int| 0 <= k < j - start && is_digit(#[trigger] lit[k]),
            seen_dot <==> exists|k: int| 0 <= k < j - start && #[trigger] lit[k] == '.',
            two_dots <==> exists|a: int, b: int|
                0 <= a < b < j - start && #[trigger] lit[a] == '.' && #[trigger] lit[b] == '.',
        decreases end - j,
    {
        let c = s[j];
        assert(lit[j - start] == c);
        if c == '.' {
            if seen_dot {
                let ghost a = choose|k: int| 0 <= k < j - start && #[trigger] lit[k] == '.';
                assert(lit[a] == '.' && lit[j - start] == '.');
                two_dots = true;
            }
            seen_dot = true;
        } else if '0' <= c && c <= '9' {
            seen_digit = true;
        }
        j = j + 1;
    }
    seen_digit && !two_dots
}

/// Splits an expression into tokens, stopping at the first lexical error.
pub fn tokenize(expr: &str) -> (r: Result<Vec<Token>, CalcError>)
    ensures
        tokens_result_model(r) == tokenize_spec(expr@),
{
    let s = chars_of(expr);
    let ghost sm = s@;
    let mut tokens: Vec<Token> = Vec::new();
    let mut i: usize = 0;
    while i < s.len()
        invariant
            sm == s@,
            sm == expr@,
            i <= s@.len(),
            tokenize_spec(sm) == match tokenize_from(sm, i as int) {
                Ok(rest) => Ok(tokens_model(tokens@) + rest),
                Err(e) => Err(e),
            },
        decreases s@.len() - i,
    {
        let c = s[i];
        if c == ' ' || c == '\t' || c == '\r' || c == '\n' {
            i = i + 1;
        } else if let Some(t) = symbol_of(c) {
            proof {
                let rest = tokenize_from(sm, i + 1);
                assert(tokens_model(tokens@.push(t)) == tokens_model(tokens@) + seq![t@]);
                if let Ok(r) = rest {
                    assert(tokens_model(tokens@) + seq![t@] + r == tokens_model(tokens@) + (seq![t@] + r));
                }
            }
            tokens.push(t);
            i = i + 1;
        } else if ('0' <= c && c <= '9') || c == '.' {
            proof {
                lemma_number_end(sm, i as int);
            }
            let mut j = i;
            while j < s.len() && (('0' <= s[j] && s[j] <= '9') || s[j] == '.')
                invariant
                    sm == s@,
                    i <= j <= s@.len(),
                    number_end(sm, i as int) == number_end(sm, j as int),
                decreases s@.len() - j,
            {
                j = j + 1;
            }
            if !check_number(&s, i, j) {
                let mut lit = String::new();
                let mut k = i;
                while k < j
                    invariant
                        sm == s@,
                        i <= k <= j <= s@.len(),
                        lit@ == sm.subrange(i as int, k as int),
                    decreases j - k,
                {
                    push_char(&mut lit, s[k]);
                    assert(sm.subrange(i as int, k + 1) == sm.subrange(i as int, k as int).push(sm[k as int]));
                    k = k + 1;
                }
                return Err(CalcError::InvalidNumber(lit));
            }
            let mut lit = String::new();
            let mut k = i;
            while k < j
                invariant
                    sm == s@,
                    i <= k <= j <= s@.len(),
                    lit@ == sm.subrange(i as int, k as int),
                decreases j - k,
            {
                push_char(&mut lit, s[k]);
                assert(sm.subrange(i as int, k + 1) == sm.subrange(i as int, k as int).push(sm[k as int]));
                k = k + 1;
            }
            let t = Token::Number(lit);
            proof {
                let rest = tokenize_from(sm, j as int);
                assert(tokens_model(tokens@.push(t)) == tokens_model(tokens@) + seq![t@]);
                if let Ok(r) = rest {
                    assert(tokens_model(tokens@) + seq![t@] + r == tokens_model(tokens@) + (seq![t@] + r));
                }
            }
            tokens.push(t);
            i = j;
        } else {
            return Err(CalcError::UnexpectedCharacter(c));
        }
    }
    proof {
        assert(tokens_model(tokens@) + seq![] == tokens_model(tokens@));
    }
    Ok(tokens)
}


// ---------------------------------------------------------------------------
// Postfix programs
// ---------------------------------------------------------------------------

/// One instruction of a postfix program over a stack of numbers.
#[derive(Debug, Clone, PartialEq, Eq)]
pub enum Op {
    /// Push the number written as this literal.
    Push(String),
    /// Pop `b`, pop `a`, push `a + b`.
    Add,
    /// Pop `b`, pop `a`, push `a - b`.
    Sub,
    /// Pop `b`, pop `a`, push `a * b`.
    Mul,
    /// Pop `b`, pop `a`; fail with [`CalcError::DivisionByZero`] when `b` is
    /// zero, else push `a / b`.
    Div,
    /// Pop `a`, push `-a`.
    Neg,
}

/// The mathematical model of an [`Op`].
pub ghost enum OpModel {
    Push(Seq<char>),
    Add,
    Sub,
    Mul,
    Div,
    Neg,
}

impl View for Op {
    type V = OpModel;

    open spec fn view(&self) -> OpModel {
        match self {
            Op::Push(s) => OpModel::Push(s@),
            Op::Add => OpModel::Add,
            Op::Sub => OpModel::Sub,
            Op::Mul => OpModel::Mul,
            Op::Div => OpModel::Div,
            Op::Neg => OpModel::Neg,
        }
    }
}

pub open spec fn ops_model(ops: Seq<Op>) -> Seq<OpModel> {
    ops.map_values(|o: Op| o@)
}

proof fn lemma_ops_model_push(ops: Seq<Op>, o: Op)
    ensures
        ops_model(ops.push(o)) == ops_model(ops).push(o@),
{
    assert(ops_model(ops.push(o)) =~= ops_model(ops).push(o@));
}

// ---------------------------------------------------------------------------
// Parser specification
// ---------------------------------------------------------------------------

/// What a parsing step emits, and where it stops: the position after the
/// parsed phrase, or the syntax error met.  The instructions are emitted in
/// order, also those emitted before an error was met.
pub ghost struct Parsed {
    pub ops: Seq<OpModel>,
    pub next: Result<int, CalcErrorModel>,
}

/// `factor := number | '-' factor | '(' expr ')'`
pub open spec fn parse_factor_spec(t: Seq<TokenModel>, pos: int) -> Parsed
    decreases t.len() - pos, 0int,
{
    if pos < 0 || pos >= t.len() {
        Parsed { ops: seq![], next: Err(CalcErrorModel::UnexpectedEnd) }
    } else {
        match t[pos] {
            TokenModel::Number(n) => Parsed { ops: seq![OpModel::Push(n)], next: Ok(pos + 1) },
            TokenModel::Minus => {
                let r = parse_factor_spec(t, pos + 1);
                match r.next {
                    Ok(p) => Parsed { ops: r.ops.push(OpModel::Neg), next: Ok(p) },
                    Err(_) => r,
                }
            },
            TokenModel::LParen => {
                let r = parse_expr_spec(t, pos + 1);
                match r.next {
                    Ok(p) => if p >= t.len() {
                        Parsed { ops: r.ops, next: Err(CalcErrorModel::UnmatchedParen) }
                    } else if t[p] != TokenModel::RParen {
                        Parsed { ops: r.ops, next: Err(CalcErrorModel::ExpectedRParen) }
                    } else {
                        Parsed { ops: r.ops, next: Ok(p + 1) }
                    },
                    Err(_) => r,
                }
            },
            tok => Parsed { ops: seq![], next: Err(CalcErrorModel::UnexpectedToken(tok)) },
        }
    }
}

/// `term_tail := (('*' | '/') factor)*`, with the left operand already
/// on the stack.
pub open spec fn term_tail_spec(t: Seq<TokenModel>, pos: int) -> Parsed
    decreases t.len() - pos, 1int,
{
    if 0 <= pos < t.len() && (t[pos] == TokenModel::Multiply || t[pos] == TokenModel::Divide) {
        let f = parse_factor_spec(t, pos + 1);
        match f.next {
            Ok(q) => if q <= pos || q > t.len() {
                f
            } else {
                let op = if t[pos] == TokenModel::Multiply { OpModel::Mul } else { OpModel::Div };
                let r = term_tail_spec(t, q);
                Parsed { ops: f.ops.push(op) + r.ops, next: r.next }
            },
            Err(_) => f,
        }
    } else {
        Parsed { ops: seq![], next: Ok(pos) }
    }
}

/// `term := factor term_tail`
pub open spec fn parse_term_spec(t: Seq<TokenModel>, pos: int) -> Parsed
    decreases t.len() - pos, 2int,
{
    let f = parse_factor_spec(t, pos);
    match f.next {
        Ok(p) => if p <= pos || p > t.len() {
            f
        } else {
            let r = term_tail_spec(t, p);
            Parsed { ops: f.ops + r.ops, next: r.next }
        },
        Err(_) => f,
    }
}

/// `expr_tail := (('+' | '-') term)*`, with the left operand already on
/// the stack.
pub open spec fn expr_tail_spec(t: Seq<TokenModel>, pos: int) -> Parsed
    decreases t.len() - pos, 3int,
{
    if 0 <= pos < t.len() && (t[pos] == TokenModel::Plus || t[pos] == TokenModel::Minus) {
        let f = parse_term_spec(t, pos + 1);
        match f.next {
            Ok(q) => if q <= pos || q > t.len() {
                f
            } else {
                let op = if t[pos] == TokenModel::Plus { OpModel::Add } else { OpModel::Sub };
                let r = expr_tail_spec(t, q);
                Parsed { ops: f.ops.push(op) + r.ops, next: r.next }
            },
            Err(_) => f,
        }
    } else {
        Parsed { ops: seq![], next: Ok(pos) }
    }
}

/// `expr := term expr_tail`
pub open spec fn parse_expr_spec(t: Seq<TokenModel>, pos: int) -> Parsed
    decreases t.len() - pos, 4int,
{
    let f = parse_term_spec(t, pos);
    match f.next {
        Ok(p) => if p <= pos || p > t.len() {
            f
        } else {
            let r = expr_tail_spec(t, p);
            Parsed { ops: f.ops + r.ops, next: r.next }
        },
        Err(_) => f,
    }
}

/// Every successful parsing step consumes at least one token and stops
/// inside the input; a loop over operators never moves backwards.
pub proof fn lemma_parse_bounds(t: Seq<TokenModel>, pos: int)
    requires
        0 <= pos <= t.len(),
    ensures
        parse_factor_spec(t, pos).next matches Ok(p) ==> pos < p <= t.len(),
        parse_term_spec(t, pos).next matches Ok(p) ==> pos < p <= t.len(),
        parse_expr_spec(t, pos).next matches Ok(p) ==> pos < p <= t.len(),
        term_tail_spec(t, pos).next matches Ok(p) ==> pos <= p <= t.len(),
        expr_tail_spec(t, pos).next matches Ok(p) ==> pos <= p <= t.len(),
    decreases t.len() - pos,
{
    if pos < t.len() {
        lemma_parse_bounds(t, pos + 1);
        // factor
        // term and expr through their tails
        let f = parse_factor_spec(t, pos);
        if let Ok(p) = f.next {
            if pos < p <= t.len() && p > pos {
                lemma_parse_bounds_tails_from(t, p);
            }
        }
        let g = parse_term_spec(t, pos);
        if let Ok(p) = g.next {
            if pos < p <= t.len() {
                lemma_parse_bounds_tails_from(t, p);
            }
        }
    }
}

proof fn lemma_parse_bounds_tails_from(t: Seq<TokenModel>, pos: int)
    requires
        0 < pos <= t.len(),
    ensures
        term_tail_spec(t, pos).next matches Ok(p) ==> pos <= p <= t.len(),
        expr_tail_spec(t, pos).next matches Ok(p) ==> pos <= p <= t.len(),
    decreases t.len() - pos,
{
    if pos < t.len() {
        lemma_parse_bounds(t, pos + 1);
        let f = parse_factor_spec(t, pos + 1);
        if let Ok(q) = f.next {
            if pos < q <= t.len() {
                lemma_parse_bounds_tails_from(t, q);
            }
        }
        let g = parse_term_spec(t, pos + 1);
        if let Ok(q) = g.next {
            if pos < q <= t.len() {
                lemma_parse_bounds_tails_from(t, q);
            }
        }
    }
}


// ---------------------------------------------------------------------------
// Parser
// ---------------------------------------------------------------------------

pub open spec fn position_model(r: Result<usize, CalcError>) -> Result<int, CalcErrorModel> {
    match r {
        Ok(p) => Ok(p as int),
        Err(e) => Err(e@),
    }
}

fn copy_token(t: &Token) -> (r: Token)
    ensures
        r@ == t@,
{
    match t {
        Token::Number(n) => Token::Number(n.clone()),
        Token::Plus => Token::Plus,
        Token::Minus => Token::Minus,
        Token::Multiply => Token::Multiply,
        Token::Divide => Token::Divide,
        Token::LParen => Token::LParen,
        Token::RParen => Token::RParen,
    }
}

fn parse_factor(t: &Vec<Token>, pos: usize, ops: &mut Vec<Op>) -> (r: Result<usize, CalcError>)
    requires
        pos <= t@.len(),
    ensures
        ops_model(final(ops)@) == ops_model(old(ops)@) + parse_factor_spec(tokens_model(t@), pos as int).ops,
        position_model(r) == parse_factor_spec(tokens_model(t@), pos as int).next,
    decreases t@.len() - pos, 0int,
{
    let ghost tm = tokens_model(t@);
    let ghost start = ops@;
    proof {
        lemma_parse_bounds(tm, pos as int);
    }
    if pos >= t.len() {
        assert(ops_model(start) + seq![] == ops_model(start));
        return Err(CalcError::UnexpectedEnd);
    }
    assert(tm[pos as int] == t@[pos as int]@);
    match &t[pos] {
        Token::Number(n) => {
            let o = Op::Push(n.clone());
            proof {
                lemma_ops_model_push(ops@, o);
            }
            ops.push(o);
            Ok(pos + 1)
        },
        Token::Minus => {
            let r = parse_factor(t, pos + 1, ops);
            match r {
                Ok(p) => {
                    proof {
                        lemma_ops_model_push(ops@, Op::Neg);
                        lemma_parse_bounds(tm, pos + 1);
                    }
                    ops.push(Op::Neg);
                    Ok(p)
                },
                Err(e) => Err(e),
            }
        },
        Token::LParen => {
            let r = parse_expr(t, pos + 1, ops);
            proof {
                lemma_parse_bounds(tm, pos + 1);
            }
            match r {
                Ok(p) => {
                    if p >= t.len() {
                        Err(CalcError::UnmatchedParen)
                    } else {
                        assert(tm[p as int] == t@[p as int]@);
                        match &t[p] {
                            Token::RParen => Ok(p + 1),
                            _ => Err(CalcError::ExpectedRParen),
                        }
                    }
                },
                Err(e) => Err(e),
            }
        },
        other => {
            assert(ops_model(start) + seq![] == ops_model(start));
            Err(CalcError::UnexpectedToken(copy_token(other)))
        },
    }
}

fn parse_term(t: &Vec<Token>, pos: usize, ops: &mut Vec<Op>) -> (r: Result<usize, CalcError>)
    requires
        pos <= t@.len(),
    ensures
        ops_model(final(ops)@) == ops_model(old(ops)@) + parse_term_spec(tokens_model(t@), pos as int).ops,
        position_model(r) == parse_term_spec(tokens_model(t@), pos as int).next,
    decreases t@.len() - pos, 2int,
{
    let ghost tm = tokens_model(t@);
    let ghost start = ops@;
    let ghost whole = parse_term_spec(tm, pos as int);
    proof {
        lemma_parse_bounds(tm, pos as int);
    }
    let mut p = match parse_factor(t, pos, ops) {
        Ok(p) => p,
        Err(e) => return Err(e),
    };
    proof {
        lemma_parse_bounds_tails_from(tm, p as int);
        assert(ops_model(ops@) + term_tail_spec(tm, p as int).ops == ops_model(start) + whole.ops);
    }
    while p < t.len() && (matches!(t[p], Token::Multiply) || matches!(t[p], Token::Divide))
        invariant
            tm == tokens_model(t@),
            start == old(ops)@,
            whole == parse_term_spec(tm, pos as int),
            pos < p <= t@.len(),
            ops_model(ops@) + term_tail_spec(tm, p as int).ops == ops_model(start) + whole.ops,
            term_tail_spec(tm, p as int).next == whole.next,
        decreases t@.len() - p,
    {
        assert(tm[p as int] == t@[p as int]@);
        let is_mul = matches!(t[p], Token::Multiply);
        let ghost before = ops@;
        let ghost tail = term_tail_spec(tm, p as int);
        proof {
            lemma_parse_bounds(tm, p + 1);
        }
        match parse_factor(t, p + 1, ops) {
            Ok(q) => {
                let o = if is_mul { Op::Mul } else { Op::Div };
                proof {
                    lemma_ops_model_push(ops@, o);
                    lemma_parse_bounds_tails_from(tm, q as int);
                    let f = parse_factor_spec(tm, p + 1);
                    let rest = term_tail_spec(tm, q as int);
                    assert(tail.ops == f.ops.push(o@) + rest.ops);
                    assert(ops_model(before) + f.ops.push(o@) + rest.ops == ops_model(before) + (f.ops.push(o@) + rest.ops));
                    assert(ops_model(before) + f.ops.push(o@) == (ops_model(before) + f.ops).push(o@));
                }
                ops.push(o);
                p = q;
            },
            Err(e) => {
                proof {
                    let f = parse_factor_spec(tm, p + 1);
                    assert(tail == f);
                    assert(ops_model(ops@) == ops_model(before) + f.ops);
                    assert(ops_model(ops@) == ops_model(start) + whole.ops);
                }
                return Err(e);
            },
        }
    }
    proof {
        assert(ops_model(ops@) + seq![] == ops_model(ops@));
    }
    Ok(p)
}

fn parse_expr(t: &Vec<Token>, pos: usize, ops: &mut Vec<Op>) -> (r: Result<usize, CalcError>)
    requires
        pos <= t@.len(),
    ensures
        ops_model(final(ops)@) == ops_model(old(ops)@) + parse_expr_spec(tokens_model(t@), pos as int).ops,
        position_model(r) == parse_expr_spec(tokens_model(t@), pos as int).next,
    decreases t@.len() - pos, 4int,
{
    let ghost tm = tokens_model(t@);
    let ghost start = ops@;
    let ghost whole = parse_expr_spec(tm, pos as int);
    proof {
        lemma_parse_bounds(tm, pos as int);
    }
    let mut p = match parse_term(t, pos, ops) {
        Ok(p) => p,
        Err(e) => return Err(e),
    };
    proof {
        lemma_parse_bounds_tails_from(tm, p as int);
        assert(ops_model(ops@) + expr_tail_spec(tm, p as int).ops == ops_model(start) + whole.ops);
    }
    while p < t.len() && (matches!(t[p], Token::Plus) || matches!(t[p], Token::Minus))
        invariant
            tm == tokens_model(t@),
            start == old(ops)@,
            whole == parse_expr_spec(tm, pos as int),
            pos < p <= t@.len(),
            ops_model(ops@) + expr_tail_spec(tm, p as int).ops == ops_model(start) + whole.ops,
            expr_tail_spec(tm, p as int).next == whole.next,
        decreases t@.len() - p,
    {
        assert(tm[p as int] == t@[p as int]@);
        let is_add = matches!(t[p], Token::Plus);
        let ghost before = ops@;
        let ghost tail = expr_tail_spec(tm, p as int);
        proof {
            lemma_parse_bounds(tm, p + 1);
        }
        match parse_term(t, p + 1, ops) {
            Ok(q) => {
                let o = if is_add { Op::Add } else { Op::Sub };
                proof {
                    lemma_ops_model_push(ops@, o);
                    lemma_parse_bounds_tails_from(tm, q as int);
                    let f = parse_term_spec(tm, p + 1);
                    let rest = expr_tail_spec(tm, q as int);
                    assert(tail.ops == f.ops.push(o@) + rest.ops);
                    assert(ops_model(before) + f.ops.push(o@) + rest.ops == ops_model(before) + (f.ops.push(o@) + rest.ops));
                    assert(ops_model(before) + f.ops.push(o@) == (ops_model(before) + f.ops).push(o@));
                }
                ops.push(o);
                p = q;
            },
            Err(e) => {
                proof {
                    let f = parse_term_spec(tm, p + 1);
                    assert(tail == f);
                    assert(ops_model(ops@) == ops_model(before) + f.ops);
                    assert(ops_model(ops@) == ops_model(start) + whole.ops);
                }
                return Err(e);
            },
        }
    }
    proof {
        assert(ops_model(ops@) + seq![] == ops_model(ops@));
    }
    Ok(p)
}


// ---------------------------------------------------------------------------
// Compilation of a whole expression
// ---------------------------------------------------------------------------

/// A compiled expression: the postfix instructions, in evaluation order, and
/// the syntax error (if any) met after them.
///
/// Running the instructions in order and then reporting `error` gives what
/// evaluating the expression gives: a division by zero among the instructions
/// comes first, as it would in a left-to-right evaluation.
#[derive(Debug, Clone)]
pub struct Program {
    pub ops: Vec<Op>,
    pub error: Option<CalcError>,
}

pub ghost struct ProgramModel {
    pub ops: Seq<OpModel>,
    pub error: Option<CalcErrorModel>,
}

impl View for Program {
    type V = ProgramModel;

    open spec fn view(&self) -> ProgramModel {
        ProgramModel {
            ops: ops_model(self.ops@),
            error: match self.error {
                Some(e) => Some(e@),
                None => None,
            },
        }
    }
}

/// The program of an expression: lexical errors come first, then an empty
/// input, then the syntax of `expr`, then tokens left over after it.
pub open spec fn compile_spec(s: Seq<char>) -> ProgramModel {
    match tokenize_spec(s) {
        Err(e) => ProgramModel { ops: seq![], error: Some(e) },
        Ok(t) => if t.len() == 0 {
            ProgramModel { ops: seq![], error: Some(CalcErrorModel::EmptyExpression) }
        } else {
            let r = parse_expr_spec(t, 0);
            match r.next {
                Err(e) => ProgramModel { ops: r.ops, error: Some(e) },
                Ok(p) => if p < t.len() {
                    ProgramModel { ops: r.ops, error: Some(CalcErrorModel::ExtraTokens) }
                } else {
                    ProgramModel { ops: r.ops, error: None }
                },
            }
        },
    }
}

/// Compiles an arithmetic expression over `+ - * /`, unary minus and
/// parentheses into a postfix program.
pub fn compile(expr: &str) -> (p: Program)
    ensures
        p@ == compile_spec(expr@),
{
    let tokens = match tokenize(expr) {
        Ok(t) => t,
        Err(e) => {
            proof {
                assert(ops_model(Seq::<Op>::empty()) =~= Seq::<OpModel>::empty());
            }
            return Program { ops: Vec::new(), error: Some(e) };
        },
    };
    let ghost tm = tokens_model(tokens@);
    if tokens.len() == 0 {
        proof {
            assert(ops_model(Seq::<Op>::empty()) =~= Seq::<OpModel>::empty());
        }
        return Program { ops: Vec::new(), error: Some(CalcError::EmptyExpression) };
    }
    let mut ops: Vec<Op> = Vec::new();
    proof {
        assert(ops_model(Seq::<Op>::empty()) =~= Seq::<OpModel>::empty());
        assert(Seq::<OpModel>::empty() + parse_expr_spec(tm, 0).ops == parse_expr_spec(tm, 0).ops);
    }
    let r = parse_expr(&tokens, 0, &mut ops);
    match r {
        Err(e) => Program { ops, error: Some(e) },
        Ok(p) => if p < tokens.len() {
            Program { ops, error: Some(CalcError::ExtraTokens) }
        } else {
            Program { ops, error: None }
        },
    }
}

// ---------------------------------------------------------------------------
// Stack discipline of compiled programs
// ---------------------------------------------------------------------------

/// The stack depth after running `ops` from depth `d`, or `None` when an
/// instruction would find too few operands.
pub open spec fn depth_after(ops: Seq<OpModel>, d: int) -> Option<int>
    decreases ops.len(),
{
    if ops.len() == 0 {
        Some(d)
    } else {
        match ops[0] {
            OpModel::Push(_) => depth_after(ops.drop_first(), d + 1),
            OpModel::Neg => if d < 1 {
                None
            } else {
                depth_after(ops.drop_first(), d)
            },
            _ => if d < 2 {
                None
            } else {
                depth_after(ops.drop_first(), d - 1)
            },
        }
    }
}

proof fn lemma_depth_after_concat(a: Seq<OpModel>, b: Seq<OpModel>, d: int)
    ensures
        depth_after(a + b, d) == match depth_after(a, d) {
            Some(d2) => depth_after(b, d2),
            None => None,
        },
    decreases a.len(),
{
    if a.len() == 0 {
        assert(a + b =~= b);
    } else {
        assert((a + b).drop_first() =~= a.drop_first() + b);
        assert((a + b)[0] == a[0]);
        match a[0] {
            OpModel::Push(_) => lemma_depth_after_concat(a.drop_first(), b, d + 1),
            OpModel::Neg => if d >= 1 {
                lemma_depth_after_concat(a.drop_first(), b, d)
            },
            _ => if d >= 2 {
                lemma_depth_after_concat(a.drop_first(), b, d - 1)
            },
        }
    }
}

proof fn lemma_depth_after_single(o: OpModel, d: int)
    ensures
        depth_after(seq![o], d) == match o {
            OpModel::Push(_) => Some(d + 1),
            OpModel::Neg => if d < 1 { None } else { Some(d) },
            _ => if d < 2 { None } else { Some(d - 1) },
        },
{
    reveal_with_fuel(depth_after, 2);
    assert(seq![o].drop_first() =~= Seq::<OpModel>::empty());
}

/// A parsed operand leaves one more value on the stack; a parse that stops
/// at an error never pops below where it started.
proof fn lemma_parse_depth(t: Seq<TokenModel>, pos: int, d: int)
    requires
        0 <= pos <= t.len(),
        d >= 0,
    ensures
        ({
            let r = parse_factor_spec(t, pos);
            match r.next {
                Ok(_) => depth_after(r.ops, d) == Some(d + 1),
                Err(_) => depth_after(r.ops, d) matches Some(d2) && d2 >= d,
            }
        }),
        ({
            let r = parse_term_spec(t, pos);
            match r.next {
                Ok(_) => depth_after(r.ops, d) == Some(d + 1),
                Err(_) => depth_after(r.ops, d) matches Some(d2) && d2 >= d,
            }
        }),
        ({
            let r = parse_expr_spec(t, pos);
            match r.next {
                Ok(_) => depth_after(r.ops, d) == Some(d + 1),
                Err(_) => depth_after(r.ops, d) matches Some(d2) && d2 >= d,
            }
        }),
        ({
            let r = term_tail_spec(t, pos);
            match r.next {
                Ok(_) => depth_after(r.ops, d + 1) == Some(d + 1),
                Err(_) => depth_after(r.ops, d + 1) matches Some(d2) && d2 >= d,
            }
        }),
        ({
            let r = expr_tail_spec(t, pos);
            match r.next {
                Ok(_) => depth_after(r.ops, d + 1) == Some(d + 1),
                Err(_) => depth_after(r.ops, d + 1) matches Some(d2) && d2 >= d,
            }
        }),
    decreases t.len() - pos, 0int,
{
    lemma_parse_bounds(t, pos);
    if pos < t.len() {
        lemma_parse_depth(t, pos + 1, d);
        lemma_parse_depth(t, pos + 1, d + 1);
        lemma_parse_bounds(t, pos + 1);
        // factor
        let fa = parse_factor_spec(t, pos);
        match t[pos] {
            TokenModel::Number(n) => {
                lemma_depth_after_single(OpModel::Push(n), d);
            },
            TokenModel::Minus => {
                let r = parse_factor_spec(t, pos + 1);
                if r.next is Ok {
                    assert(r.ops.push(OpModel::Neg) =~= r.ops + seq![OpModel::Neg]);
                    lemma_depth_after_concat(r.ops, seq![OpModel::Neg], d);
                    lemma_depth_after_single(OpModel::Neg, d + 1);
                }
            },
            _ => {},
        }
        // term_tail and expr_tail from pos
        if t[pos] == TokenModel::Multiply || t[pos] == TokenModel::Divide {
            let f = parse_factor_spec(t, pos + 1);
            if let Ok(q) = f.next {
                let op = if t[pos] == TokenModel::Multiply { OpModel::Mul } else { OpModel::Div };
                lemma_parse_depth_tails(t, q, d);
                let rest = term_tail_spec(t, q);
                lemma_depth_after_concat(f.ops.push(op), rest.ops, d + 1);
                lemma_depth_after_concat(f.ops, seq![op], d + 1);
                assert(f.ops.push(op) =~= f.ops + seq![op]);
                lemma_depth_after_single(op, d + 2);
            }
        }
        if t[pos] == TokenModel::Plus || t[pos] == TokenModel::Minus {
            let f = parse_term_spec(t, pos + 1);
            if let Ok(q) = f.next {
                let op = if t[pos] == TokenModel::Plus { OpModel::Add } else { OpModel::Sub };
                lemma_parse_depth_tails(t, q, d);
                let rest = expr_tail_spec(t, q);
                lemma_depth_after_concat(f.ops.push(op), rest.ops, d + 1);
                lemma_depth_after_concat(f.ops, seq![op], d + 1);
                assert(f.ops.push(op) =~= f.ops + seq![op]);
                lemma_depth_after_single(op, d + 2);
            }
        }
        // term from pos
        if let Ok(p) = fa.next {
            lemma_parse_depth_tails(t, p, d);
            lemma_depth_after_concat(fa.ops, term_tail_spec(t, p).ops, d);
        }
        let te = parse_term_spec(t, pos);
        if let Ok(p) = te.next {
            lemma_parse_depth_tails(t, p, d);
            lemma_depth_after_concat(te.ops, expr_tail_spec(t, p).ops, d);
        }
    }
}

proof fn lemma_parse_depth_tails(t: Seq<TokenModel>, pos: int, d: int)
    requires
        0 < pos <= t.len(),
        d >= 0,
    ensures
        ({
            let r = term_tail_spec(t, pos);
            match r.next {
                Ok(_) => depth_after(r.ops, d + 1) == Some(d + 1),
                Err(_) => depth_after(r.ops, d + 1) matches Some(d2) && d2 >= d,
            }
        }),
        ({
            let r = expr_tail_spec(t, pos);
            match r.next {
                Ok(_) => depth_after(r.ops, d + 1) == Some(d + 1),
                Err(_) => depth_after(r.ops, d + 1) matches Some(d2) && d2 >= d,
            }
        }),
    decreases t.len() - pos, 1int,
{
    if pos < t.len() {
        lemma_parse_depth(t, pos, d);
    }
}

/// Running a compiled program never finds too few operands on the stack, and
/// a program that compiled without error leaves exactly one value: the value
/// of the expression.
pub proof fn lemma_compiled_program_stack_discipline(s: Seq<char>)
    ensures
        depth_after(compile_spec(s).ops, 0) is Some,
        compile_spec(s).error is None ==> depth_after(compile_spec(s).ops, 0) == Some(1int),
{
    if let Ok(t) = tokenize_spec(s) {
        if t.len() > 0 {
            lemma_parse_depth(t, 0, 0);
        }
    }
}


// ---------------------------------------------------------------------------
// Evaluation
// ---------------------------------------------------------------------------

/// An interpretation of the calculator's numbers and operations: the value
/// of a literal, the four operations, negation, and the test for a zero
/// divisor.
#[verifier::reject_recursive_types(V)]
pub ghost struct Arith<V> {
    pub number: spec_fn(Seq<char>) -> V,
    pub add: spec_fn(V, V) -> V,
    pub sub: spec_fn(V, V) -> V,
    pub mul: spec_fn(V, V) -> V,
    pub div: spec_fn(V, V) -> V,
    pub neg: spec_fn(V) -> V,
    pub is_zero: spec_fn(V) -> bool,
}

/// How running instructions ends: with a stack, with a division by zero, or
/// on an instruction that finds too few operands.
pub ghost enum RunOutcome<V> {
    Done(Seq<V>),
    Failed(CalcErrorModel),
    Underflow,
}

/// Runs postfix instructions on a stack, in order; a division by zero stops
/// the run.
pub open spec fn run_ops<V>(a: Arith<V>, ops: Seq<OpModel>, stack: Seq<V>) -> RunOutcome<V>
    decreases ops.len(),
{
    if ops.len() == 0 {
        RunOutcome::Done(stack)
    } else {
        let rest = ops.drop_first();
        let n = stack.len();
        match ops[0] {
            OpModel::Push(lit) => run_ops(a, rest, stack.push((a.number)(lit))),
            OpModel::Neg => if n < 1 {
                RunOutcome::Underflow
            } else {
                run_ops(a, rest, stack.drop_last().push((a.neg)(stack[n - 1])))
            },
            op => if n < 2 {
                RunOutcome::Underflow
            } else {
                let x = stack[n - 2];
                let y = stack[n - 1];
                let base = stack.subrange(0, n - 2);
                match op {
                    OpModel::Add => run_ops(a, rest, base.push((a.add)(x, y))),
                    OpModel::Sub => run_ops(a, rest, base.push((a.sub)(x, y))),
                    OpModel::Mul => run_ops(a, rest, base.push((a.mul)(x, y))),
                    _ => if (a.is_zero)(y) {
                        RunOutcome::Failed(CalcErrorModel::DivisionByZero)
                    } else {
                        run_ops(a, rest, base.push((a.div)(x, y)))
                    },
                }
            },
        }
    }
}

/// What running a program gives: the division by zero met among its
/// instructions, else its syntax error, else the value left on the stack;
/// `None` when an instruction finds too few operands.
pub open spec fn run_program<V>(a: Arith<V>, p: ProgramModel) -> Option<Result<V, CalcErrorModel>> {
    match run_ops(a, p.ops, seq![]) {
        RunOutcome::Done(stack) => match p.error {
            Some(e) => Some(Err(e)),
            None => Some(Ok(stack.last())),
        },
        RunOutcome::Failed(e) => Some(Err(e)),
        RunOutcome::Underflow => None,
    }
}

/// Evaluates a factor while reading it, as a recursive-descent evaluator
/// does: the value and the position after it, or the first error met.
pub open spec fn eval_factor<V>(a: Arith<V>, t: Seq<TokenModel>, pos: int) -> Result<(V, int), CalcErrorModel>
    decreases t.len() - pos, 0int,
{
    if pos < 0 || pos >= t.len() {
        Err(CalcErrorModel::UnexpectedEnd)
    } else {
        match t[pos] {
            TokenModel::Number(n) => Ok(((a.number)(n), pos + 1)),
            TokenModel::Minus => match eval_factor(a, t, pos + 1) {
                Ok((v, p)) => Ok(((a.neg)(v), p)),
                Err(e) => Err(e),
            },
            TokenModel::LParen => match eval_expr(a, t, pos + 1) {
                Ok((v, p)) => if p >= t.len() {
                    Err(CalcErrorModel::UnmatchedParen)
                } else if t[p] != TokenModel::RParen {
                    Err(CalcErrorModel::ExpectedRParen)
                } else {
                    Ok((v, p + 1))
                },
                Err(e) => Err(e),
            },
            tok => Err(CalcErrorModel::UnexpectedToken(tok)),
        }
    }
}

/// Applies `* factor` and `/ factor` to the left operand `v` while they
/// follow; a zero divisor fails as soon as it is read.
pub open spec fn eval_term_tail<V>(a: Arith<V>, t: Seq<TokenModel>, v: V, pos: int) -> Result<(V, int), CalcErrorModel>
    decreases t.len() - pos, 1int,
{
    if 0 <= pos < t.len() && (t[pos] == TokenModel::Multiply || t[pos] == TokenModel::Divide) {
        match eval_factor(a, t, pos + 1) {
            Ok((f, q)) => if q <= pos || q > t.len() {
                Err(CalcErrorModel::UnexpectedEnd)
            } else if t[pos] == TokenModel::Multiply {
                eval_term_tail(a, t, (a.mul)(v, f), q)
            } else if (a.is_zero)(f) {
                Err(CalcErrorModel::DivisionByZero)
            } else {
                eval_term_tail(a, t, (a.div)(v, f), q)
            },
            Err(e) => Err(e),
        }
    } else {
        Ok((v, pos))
    }
}

pub open spec fn eval_term<V>(a: Arith<V>, t: Seq<TokenModel>, pos: int) -> Result<(V, int), CalcErrorModel>
    decreases t.len() - pos, 2int,
{
    match eval_factor(a, t, pos) {
        Ok((v, p)) => if p <= pos || p > t.len() {
            Err(CalcErrorModel::UnexpectedEnd)
        } else {
            eval_term_tail(a, t, v, p)
        },
        Err(e) => Err(e),
    }
}

/// Applies `+ term` and `- term` to the left operand `v` while they follow.
pub open spec fn eval_expr_tail<V>(a: Arith<V>, t: Seq<TokenModel>, v: V, pos: int) -> Result<(V, int), CalcErrorModel>
    decreases t.len() - pos, 3int,
{
    if 0 <= pos < t.len() && (t[pos] == TokenModel::Plus || t[pos] == TokenModel::Minus) {
        match eval_term(a, t, pos + 1) {
            Ok((f, q)) => if q <= pos || q > t.len() {
                Err(CalcErrorModel::UnexpectedEnd)
            } else if t[pos] == TokenModel::Plus {
                eval_expr_tail(a, t, (a.add)(v, f), q)
            } else {
                eval_expr_tail(a, t, (a.sub)(v, f), q)
            },
            Err(e) => Err(e),
        }
    } else {
        Ok((v, pos))
    }
}

pub open spec fn eval_expr<V>(a: Arith<V>, t: Seq<TokenModel>, pos: int) -> Result<(V, int), CalcErrorModel>
    decreases t.len() - pos, 4int,
{
    match eval_term(a, t, pos) {
        Ok((v, p)) => if p <= pos || p > t.len() {
            Err(CalcErrorModel::UnexpectedEnd)
        } else {
            eval_expr_tail(a, t, v, p)
        },
        Err(e) => Err(e),
    }
}

/// Evaluates an expression while reading it: lexical errors first, then an
/// empty input, then the expression, then tokens left over after it.
pub open spec fn evaluate_spec<V>(a: Arith<V>, s: Seq<char>) -> Result<V, CalcErrorModel> {
    match tokenize_spec(s) {
        Err(e) => Err(e),
        Ok(t) => if t.len() == 0 {
            Err(CalcErrorModel::EmptyExpression)
        } else {
            match eval_expr(a, t, 0) {
                Err(e) => Err(e),
                Ok((v, p)) => if p < t.len() { Err(CalcErrorModel::ExtraTokens) } else { Ok(v) },
            }
        },
    }
}

/// Running `x` then `y` is running `x + y`.
pub open spec fn then_run<V>(a: Arith<V>, first: RunOutcome<V>, y: Seq<OpModel>) -> RunOutcome<V> {
    match first {
        RunOutcome::Done(stack) => run_ops(a, y, stack),
        other => other,
    }
}

proof fn lemma_run_concat<V>(a: Arith<V>, x: Seq<OpModel>, y: Seq<OpModel>, stack: Seq<V>)
    ensures
        run_ops(a, x + y, stack) == then_run(a, run_ops(a, x, stack), y),
    decreases x.len(),
{
    if x.len() == 0 {
        assert(x + y =~= y);
    } else {
        assert((x + y).drop_first() =~= x.drop_first() + y);
        assert((x + y)[0] == x[0]);
        let n = stack.len();
        match x[0] {
            OpModel::Push(lit) => lemma_run_concat(a, x.drop_first(), y, stack.push((a.number)(lit))),
            OpModel::Neg => if n >= 1 {
                lemma_run_concat(a, x.drop_first(), y, stack.drop_last().push((a.neg)(stack[n - 1])));
            },
            OpModel::Add => if n >= 2 {
                lemma_run_concat(a, x.drop_first(), y, stack.subrange(0, n - 2).push((a.add)(stack[n - 2], stack[n - 1])));
            },
            OpModel::Sub => if n >= 2 {
                lemma_run_concat(a, x.drop_first(), y, stack.subrange(0, n - 2).push((a.sub)(stack[n - 2], stack[n - 1])));
            },
            OpModel::Mul => if n >= 2 {
                lemma_run_concat(a, x.drop_first(), y, stack.subrange(0, n - 2).push((a.mul)(stack[n - 2], stack[n - 1])));
            },
            OpModel::Div => if n >= 2 && !(a.is_zero)(stack[n - 1]) {
                lemma_run_concat(a, x.drop_first(), y, stack.subrange(0, n - 2).push((a.div)(stack[n - 2], stack[n - 1])));
            },
        }
    }
}

/// One binary instruction on a stack holding `base`, then `x`, then `y`.
proof fn lemma_run_binary<V>(a: Arith<V>, op: OpModel, base: Seq<V>, x: V, y: V)
    requires
        op is Add || op is Sub || op is Mul || op is Div,
    ensures
        run_ops(a, seq![op], base.push(x).push(y)) == match op {
            OpModel::Add => RunOutcome::Done(base.push((a.add)(x, y))),
            OpModel::Sub => RunOutcome::Done(base.push((a.sub)(x, y))),
            OpModel::Mul => RunOutcome::Done(base.push((a.mul)(x, y))),
            _ => if (a.is_zero)(y) {
                RunOutcome::Failed(CalcErrorModel::DivisionByZero)
            } else {
                RunOutcome::Done(base.push((a.div)(x, y)))
            },
        },
{
    let s = base.push(x).push(y);
    assert(s.subrange(0, s.len() - 2) =~= base);
    assert(s[s.len() - 2] == x);
    assert(s[s.len() - 1] == y);
    reveal_with_fuel(run_ops, 2);
    assert(seq![op].drop_first() =~= Seq::<OpModel>::empty());
}

/// A parsed phrase and its evaluation agree: on success the run of the
/// phrase's instructions, started on `start`, leaves `base` with the value
/// pushed, and parsing stops where evaluation does; on failure the run meets
/// the same division by zero, or parsing meets the same syntax error.
pub open spec fn agrees<V>(
    a: Arith<V>,
    r: Parsed,
    start: Seq<V>,
    base: Seq<V>,
    ev: Result<(V, int), CalcErrorModel>,
) -> bool {
    match ev {
        Ok((w, q)) => r.next == Ok::<int, CalcErrorModel>(q) && run_ops(a, r.ops, start) == RunOutcome::Done(base.push(w)),
        Err(e) => match run_ops(a, r.ops, start) {
            RunOutcome::Done(_) => r.next == Err::<int, CalcErrorModel>(e),
            RunOutcome::Failed(e2) => e2 == e,
            RunOutcome::Underflow => false,
        },
    }
}

proof fn lemma_eval_factor<V>(a: Arith<V>, t: Seq<TokenModel>, pos: int, st: Seq<V>)
    requires
        0 <= pos <= t.len(),
    ensures
        agrees(a, parse_factor_spec(t, pos), st, st, eval_factor(a, t, pos)),
    decreases t.len() - pos, 0int,
{
    lemma_parse_bounds(t, pos);
    if pos < t.len() {
        match t[pos] {
            TokenModel::Number(n) => {
                reveal_with_fuel(run_ops, 2);
                assert(seq![OpModel::Push(n)].drop_first() =~= Seq::<OpModel>::empty());
            },
            TokenModel::Minus => {
                lemma_eval_factor(a, t, pos + 1, st);
                let r = parse_factor_spec(t, pos + 1);
                lemma_run_concat(a, r.ops, seq![OpModel::Neg], st);
                assert(r.ops.push(OpModel::Neg) =~= r.ops + seq![OpModel::Neg]);
                if let Ok((v, p)) = eval_factor(a, t, pos + 1) {
                    let s = st.push(v);
                    reveal_with_fuel(run_ops, 2);
                    assert(seq![OpModel::Neg].drop_first() =~= Seq::<OpModel>::empty());
                    assert(s.drop_last() =~= st);
                    assert(s[s.len() - 1] == v);
                }
            },
            TokenModel::LParen => {
                lemma_eval_expr(a, t, pos + 1, st);
            },
            _ => {},
        }
    }
}

proof fn lemma_eval_term_tail<V>(a: Arith<V>, t: Seq<TokenModel>, pos: int, st: Seq<V>, v: V)
    requires
        0 <= pos <= t.len(),
    ensures
        agrees(a, term_tail_spec(t, pos), st.push(v), st, eval_term_tail(a, t, v, pos)),
    decreases t.len() - pos, 1int,
{
    if 0 <= pos < t.len() && (t[pos] == TokenModel::Multiply || t[pos] == TokenModel::Divide) {
        lemma_parse_bounds(t, pos + 1);
        lemma_eval_factor(a, t, pos + 1, st.push(v));
        let f = parse_factor_spec(t, pos + 1);
        let op = if t[pos] == TokenModel::Multiply { OpModel::Mul } else { OpModel::Div };
        if let Ok(q) = f.next {
            let rest = term_tail_spec(t, q);
            lemma_run_concat(a, f.ops.push(op), rest.ops, st.push(v));
            lemma_run_concat(a, f.ops, seq![op], st.push(v));
            assert(f.ops.push(op) =~= f.ops + seq![op]);
            match eval_factor(a, t, pos + 1) {
                Ok((fv, q2)) => {
                    assert(q2 == q);
                    lemma_run_binary(a, op, st, v, fv);
                    if op is Mul {
                        lemma_eval_term_tail(a, t, q, st, (a.mul)(v, fv));
                    } else if !(a.is_zero)(fv) {
                        lemma_eval_term_tail(a, t, q, st, (a.div)(v, fv));
                    }
                },
                Err(e) => {},
            }
        }
    } else {
        assert(term_tail_spec(t, pos).ops =~= Seq::<OpModel>::empty());
    }
}

proof fn lemma_eval_term<V>(a: Arith<V>, t: Seq<TokenModel>, pos: int, st: Seq<V>)
    requires
        0 <= pos <= t.len(),
    ensures
        agrees(a, parse_term_spec(t, pos), st, st, eval_term(a, t, pos)),
    decreases t.len() - pos, 2int,
{
    lemma_parse_bounds(t, pos);
    lemma_eval_factor(a, t, pos, st);
    let f = parse_factor_spec(t, pos);
    if let Ok(p) = f.next {
        let rest = term_tail_spec(t, p);
        lemma_run_concat(a, f.ops, rest.ops, st);
        if let Ok((v, p2)) = eval_factor(a, t, pos) {
            assert(p2 == p);
            lemma_eval_term_tail(a, t, p, st, v);
        }
    }
}

proof fn lemma_eval_expr_tail<V>(a: Arith<V>, t: Seq<TokenModel>, pos: int, st: Seq<V>, v: V)
    requires
        0 <= pos <= t.len(),
    ensures
        agrees(a, expr_tail_spec(t, pos), st.push(v), st, eval_expr_tail(a, t, v, pos)),
    decreases t.len() - pos, 3int,
{
    if 0 <= pos < t.len() && (t[pos] == TokenModel::Plus || t[pos] == TokenModel::Minus) {
        lemma_parse_bounds(t, pos + 1);
        lemma_eval_term(a, t, pos + 1, st.push(v));
        let f = parse_term_spec(t, pos + 1);
        let op = if t[pos] == TokenModel::Plus { OpModel::Add } else { OpModel::Sub };
        if let Ok(q) = f.next {
            let rest = expr_tail_spec(t, q);
            lemma_run_concat(a, f.ops.push(op), rest.ops, st.push(v));
            lemma_run_concat(a, f.ops, seq![op], st.push(v));
            assert(f.ops.push(op) =~= f.ops + seq![op]);
            match eval_term(a, t, pos + 1) {
                Ok((fv, q2)) => {
                    assert(q2 == q);
                    lemma_run_binary(a, op, st, v, fv);
                    if op is Add {
                        lemma_eval_expr_tail(a, t, q, st, (a.add)(v, fv));
                    } else {
                        lemma_eval_expr_tail(a, t, q, st, (a.sub)(v, fv));
                    }
                },
                Err(e) => {},
            }
        }
    } else {
        assert(expr_tail_spec(t, pos).ops =~= Seq::<OpModel>::empty());
    }
}

proof fn lemma_eval_expr<V>(a: Arith<V>, t: Seq<TokenModel>, pos: int, st: Seq<V>)
    requires
        0 <= pos <= t.len(),
    ensures
        agrees(a, parse_expr_spec(t, pos), st, st, eval_expr(a, t, pos)),
    decreases t.len() - pos, 4int,
{
    lemma_parse_bounds(t, pos);
    lemma_eval_term(a, t, pos, st);
    let f = parse_term_spec(t, pos);
    if let Ok(p) = f.next {
        let rest = expr_tail_spec(t, p);
        lemma_run_concat(a, f.ops, rest.ops, st);
        if let Ok((v, p2)) = eval_term(a, t, pos) {
            assert(p2 == p);
            lemma_eval_expr_tail(a, t, p, st, v);
        }
    }
}

/// Compiling an expression and running the program gives, for every
/// interpretation of numbers and operations, what evaluating the expression
/// while reading it gives: the same value, or the same first error (a
/// division by zero before a later syntax error included).
pub proof fn lemma_compiled_program_evaluates<V>(a: Arith<V>, s: Seq<char>)
    ensures
        run_program(a, compile_spec(s)) == Some(evaluate_spec(a, s)),
{
    if let Ok(t) = tokenize_spec(s) {
        if t.len() > 0 {
            lemma_eval_expr(a, t, 0, seq![]);
            let st0: Seq<V> = seq![];
            if let Ok((v, p)) = eval_expr(a, t, 0) {
                assert(st0.push(v).last() == v);
            }
        }
    }
}

// ---------------------------------------------------------------------------
// Error messages
// ---------------------------------------------------------------------------

impl TokenModel {
    /// How a token is printed in a message.
    pub open spec fn describe(self) -> Seq<char> {
        match self {
            TokenModel::Number(n) => "Number("@ + n + ")"@,
            TokenModel::Plus => "Plus"@,
            TokenModel::Minus => "Minus"@,
            TokenModel::Multiply => "Multiply"@,
            TokenModel::Divide => "Divide"@,
            TokenModel::LParen => "LParen"@,
            TokenModel::RParen => "RParen"@,
        }
    }
}

impl CalcErrorModel {
    /// The text of the error.
    pub open spec fn message(self) -> Seq<char> {
        match self {
            CalcErrorModel::InvalidNumber(s) => "Invalid number: "@ + s,
            CalcErrorModel::UnexpectedCharacter(c) => "Unexpected character: '"@ + seq![c] + "'"@,
            CalcErrorModel::EmptyExpression => "Empty expression"@,
            CalcErrorModel::UnexpectedEnd => "Unexpected end of expression"@,
            CalcErrorModel::UnmatchedParen => "Unmatched '('"@,
            CalcErrorModel::ExpectedRParen => "Expected ')'"@,
            CalcErrorModel::UnexpectedToken(t) => "Unexpected token: "@ + t.describe(),
            CalcErrorModel::ExtraTokens => "Extra tokens at end of expression"@,
            CalcErrorModel::DivisionByZero => "Division by zero"@,
        }
    }
}

impl Token {
    fn describe(&self) -> (r: String)
        ensures
            r@ == self@.describe(),
    {
        match self {
            Token::Number(n) => {
                let mut s = concat("Number(", n.as_str());
                push_char(&mut s, ')');
                proof {
                    reveal_strlit(")");
                    assert(")"@ == seq![')']);
                }
                s
            },
            Token::Plus => owned("Plus"),
            Token::Minus => owned("Minus"),
            Token::Multiply => owned("Multiply"),
            Token::Divide => owned("Divide"),
            Token::LParen => owned("LParen"),
            Token::RParen => owned("RParen"),
        }
    }
}

impl CalcError {
    /// The text of the error.
    pub fn message(&self) -> (r: String)
        ensures
            r@ == self@.message(),
    {
        match self {
            CalcError::InvalidNumber(s) => concat("Invalid number: ", s.as_str()),
            CalcError::UnexpectedCharacter(c) => {
                let mut s = owned("Unexpected character: '");
                push_char(&mut s, *c);
                push_char(&mut s, '\'');
                proof {
                    reveal_strlit("'");
                    assert("'"@ == seq!['\'']);
                    assert(s@ == "Unexpected character: '"@ + seq![*c] + "'"@);
                }
                s
            },
            CalcError::EmptyExpression => owned("Empty expression"),
            CalcError::UnexpectedEnd => owned("Unexpected end of expression"),
            CalcError::UnmatchedParen => owned("Unmatched '('"),
            CalcError::ExpectedRParen => owned("Expected ')'"),
            CalcError::UnexpectedToken(t) => {
                let d = t.describe();
                concat("Unexpected token: ", d.as_str())
            },
            CalcError::ExtraTokens => owned("Extra tokens at end of expression"),
            CalcError::DivisionByZero => owned("Division by zero"),
        }
    }
}

// ---------------------------------------------------------------------------
// The tool
// ---------------------------------------------------------------------------

#[derive(Debug, Clone, Copy)]
pub struct CalculatorTool;

/// What a call of the calculator does next: answer at once, or evaluate a
/// compiled program and report its outcome with [`CalculatorTool::finish`].
#[derive(Debug)]
pub enum CalculatorStep {
    Done(ToolCallResult),
    Evaluate(Program),
}

pub open spec fn calculator_schema() -> JsonModel {
    object_schema(
        seq![("expr"@, string_property("The math expression to evaluate, e.g. '2 + 3 * (10 - 4) / 2'"@))],
        seq!["expr"@],
    )
}

/// The definition of `calculator`: its name, description and input schema.
pub open spec fn calculator_definition() -> (Seq<char>, Option<Seq<char>>, JsonModel) {
    ("calculator"@, Some("Evaluate a mathematical expression. Supports +, -, *, /, and parentheses."@), calculator_schema())
}

impl CalculatorTool {
    pub fn new() -> (r: Self)
        ensures
            r == CalculatorTool,
    {
        CalculatorTool
    }

    /// The expression argument: the string member `expr` of the arguments.
    pub open spec fn expr_argument(arguments: Option<JsonModel>) -> Option<Seq<char>> {
        match arguments {
            Some(a) => a.get_str("expr"@),
            None => None,
        }
    }

    /// Reads the expression and compiles it; without a string `expr` the
    /// call answers with an error result at once.
    pub fn prepare(&self, arguments: Option<&JsonValue>) -> (r: CalculatorStep)
        ensures
            match Self::expr_argument(match arguments { Some(a) => Some(a@), None => None }) {
                None => r matches CalculatorStep::Done(res)
                    && res.is_text("Error: Missing required argument 'expr'"@, true),
                Some(e) => r matches CalculatorStep::Evaluate(p) && p@ == compile_spec(e),
            },
    {
        let expr = match arguments {
            Some(a) => a.get_str("expr"),
            None => None,
        };
        match expr {
            Some(e) => CalculatorStep::Evaluate(compile(e)),
            None => CalculatorStep::Done(
                ToolCallResult::text(owned("Error: Missing required argument 'expr'"), true),
            ),
        }
    }

    /// The result of an evaluation: the printed value, or `Error: ` and the
    /// message of the error.
    pub fn finish(outcome: Result<String, CalcError>) -> (r: ToolCallResult)
        ensures
            match outcome {
                Ok(text) => r.is_text(text@, false),
                Err(e) => r.is_text("Error: "@ + e@.message(), true),
            },
    {
        match outcome {
            Ok(text) => ToolCallResult::text(text, false),
            Err(e) => {
                let m = e.message();
                ToolCallResult::text(concat("Error: ", m.as_str()), true)
            },
        }
    }
}

impl Default for CalculatorTool {
    fn default() -> (r: Self)
        ensures
            r == CalculatorTool,
    {
        Self::new()
    }
}

impl Tool for CalculatorTool {
    open spec fn tool_name(&self) -> Seq<char> {
        "calculator"@
    }

    open spec fn tool_definition(&self) -> (Seq<char>, Option<Seq<char>>, JsonModel) {
        calculator_definition()
    }

    fn name(&self) -> (r: String) {
        owned("calculator")
    }

    fn definition(&self) -> (d: ToolDefinition) {
        let props = vec![(owned("expr"), string_property_value("The math expression to evaluate, e.g. '2 + 3 * (10 - 4) / 2'"))];
        let required = vec![owned("expr")];
        let schema = object_schema_value(props, required);
        proof {
            assert(members_model(props@) =~= seq![("expr"@, string_property("The math expression to evaluate, e.g. '2 + 3 * (10 - 4) / 2'"@))]);
            assert(Seq::new(required@.len(), |i: int| required@[i]@) =~= seq!["expr"@]);
        }
        ToolDefinition {
            name: owned("calculator"),
            description: Some(owned("Evaluate a mathematical expression. Supports +, -, *, /, and parentheses.")),
            input_schema: schema,
        }
    }
}

} // verus!
