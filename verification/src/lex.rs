//! The lexer: turns raw source text into a sequence of spanned lexemes.
//!
//! Tokens are read by maximal munch: a run of ASCII letters becomes a
//! keyword, a boolean literal or an identifier; a run of ASCII digits
//! becomes an integer literal; any other single character becomes a
//! punctuation lexeme or an error.

use vstd::prelude::*;

use crate::errors::{ErrType, ErrTypeView, LexErrors, LexErrorsView, ShadowError, ShadowErrorView};
use crate::text::str_eq;
use crate::Span;

verus! {

/// Sub-enum of lexemes: the keywords of the source language.
#[derive(Debug, Clone, Copy, PartialEq, Eq, Structural)]
pub enum Keywords {
    Fn,
    Return,
    Let,
    If,
    Else,
    Loop,
    Break,
    Continue,
}

/// The keyword that a chunk of letters names, if any.
pub open spec fn spec_keyword(s: Seq<char>) -> Option<Keywords> {
    if s == "fn"@ {
        Some(Keywords::Fn)
    } else if s == "return"@ {
        Some(Keywords::Return)
    } else if s == "let"@ {
        Some(Keywords::Let)
    } else if s == "if"@ {
        Some(Keywords::If)
    } else if s == "else"@ {
        Some(Keywords::Else)
    } else if s == "loop"@ {
        Some(Keywords::Loop)
    } else if s == "break"@ {
        Some(Keywords::Break)
    } else if s == "continue"@ {
        Some(Keywords::Continue)
    } else {
        None
    }
}

impl Keywords {
    fn new(from: &str) -> (r: Option<Keywords>)
        ensures
            r == spec_keyword(from@),
    {
        if str_eq(from, "fn") {
            Some(Keywords::Fn)
        } else if str_eq(from, "return") {
            Some(Keywords::Return)
        } else if str_eq(from, "let") {
            Some(Keywords::Let)
        } else if str_eq(from, "if") {
            Some(Keywords::If)
        } else if str_eq(from, "else") {
            Some(Keywords::Else)
        } else if str_eq(from, "loop") {
            Some(Keywords::Loop)
        } else if str_eq(from, "break") {
            Some(Keywords::Break)
        } else if str_eq(from, "continue") {
            Some(Keywords::Continue)
        } else {
            None
        }
    }
}

/// Literal values: integers and booleans.
#[derive(Debug, Clone, Copy, PartialEq, Eq, Structural)]
pub enum Literals {
    Integer(i64),
    Boolean(bool),
}

/// The master list of possible lexemes.
#[derive(Debug)]
pub enum LexemeTypes {
    /// A keyword of the language.
    Keyword(Keywords),
    /// An integer or boolean literal.
    Literal(Literals),
    /// An identifier: a run of letters that names nothing else.
    Idn(String),
    /// (
    OpenParen,
    /// )
    CloseParen,
    /// {
    OpenBrace,
    /// }
    CloseBrace,
    /// ;
    Semicolon,
    /// ,
    Comma,
    /// =
    Equals,
    /// +
    Cross,
    /// -
    Dash,
    /// /
    FSlash,
    /// *
    Asterisk,
    /// <
    AngleLeft,
    /// >
    AngleRight,
    /// !
    Bang,
}

/// The mathematical model of a lexeme type: an identifier is its character
/// sequence.
pub enum LexemeTypeView {
    Keyword(Keywords),
    Literal(Literals),
    Idn(Seq<char>),
    OpenParen,
    CloseParen,
    OpenBrace,
    CloseBrace,
    Semicolon,
    Comma,
    Equals,
    Cross,
    Dash,
    FSlash,
    Asterisk,
    AngleLeft,
    AngleRight,
    Bang,
}

impl View for LexemeTypes {
    type V = LexemeTypeView;

    open spec fn view(&self) -> LexemeTypeView {
        match self {
            LexemeTypes::Keyword(kw) => LexemeTypeView::Keyword(*kw),
            LexemeTypes::Literal(lt) => LexemeTypeView::Literal(*lt),
            LexemeTypes::Idn(s) => LexemeTypeView::Idn(s@),
            LexemeTypes::OpenParen => LexemeTypeView::OpenParen,
            LexemeTypes::CloseParen => LexemeTypeView::CloseParen,
            LexemeTypes::OpenBrace => LexemeTypeView::OpenBrace,
            LexemeTypes::CloseBrace => LexemeTypeView::CloseBrace,
            LexemeTypes::Semicolon => LexemeTypeView::Semicolon,
            LexemeTypes::Comma => LexemeTypeView::Comma,
            LexemeTypes::Equals => LexemeTypeView::Equals,
            LexemeTypes::Cross => LexemeTypeView::Cross,
            LexemeTypes::Dash => LexemeTypeView::Dash,
            LexemeTypes::FSlash => LexemeTypeView::FSlash,
            LexemeTypes::Asterisk => LexemeTypeView::Asterisk,
            LexemeTypes::AngleLeft => LexemeTypeView::AngleLeft,
            LexemeTypes::AngleRight => LexemeTypeView::AngleRight,
            LexemeTypes::Bang => LexemeTypeView::Bang,
        }
    }
}

impl Clone for LexemeTypes {
    fn clone(&self) -> (r: Self)
        ensures
            r@ == self@,
    {
        match self {
            LexemeTypes::Keyword(kw) => LexemeTypes::Keyword(*kw),
            LexemeTypes::Literal(lt) => LexemeTypes::Literal(*lt),
            LexemeTypes::Idn(s) => LexemeTypes::Idn(s.clone()),
            LexemeTypes::OpenParen => LexemeTypes::OpenParen,
            LexemeTypes::CloseParen => LexemeTypes::CloseParen,
            LexemeTypes::OpenBrace => LexemeTypes::OpenBrace,
            LexemeTypes::CloseBrace => LexemeTypes::CloseBrace,
            LexemeTypes::Semicolon => LexemeTypes::Semicolon,
            LexemeTypes::Comma => LexemeTypes::Comma,
            LexemeTypes::Equals => LexemeTypes::Equals,
            LexemeTypes::Cross => LexemeTypes::Cross,
            LexemeTypes::Dash => LexemeTypes::Dash,
            LexemeTypes::FSlash => LexemeTypes::FSlash,
            LexemeTypes::Asterisk => LexemeTypes::Asterisk,
            LexemeTypes::AngleLeft => LexemeTypes::AngleLeft,
            LexemeTypes::AngleRight => LexemeTypes::AngleRight,
            LexemeTypes::Bang => LexemeTypes::Bang,
        }
    }
}

/// What `==` means on lexeme types: same variant, and for identifiers the
/// same characters.
pub open spec fn lexeme_ty_eq(a: &LexemeTypes, b: &LexemeTypes) -> bool {
    a@ == b@
}

impl PartialEq for LexemeTypes {
    fn eq(&self, other: &Self) -> (r: bool) {
        match (self, other) {
            (LexemeTypes::Keyword(a), LexemeTypes::Keyword(b)) => *a == *b,
            (LexemeTypes::Literal(a), LexemeTypes::Literal(b)) => *a == *b,
            (LexemeTypes::Idn(a), LexemeTypes::Idn(b)) => *a == *b,
            (LexemeTypes::OpenParen, LexemeTypes::OpenParen) => true,
            (LexemeTypes::CloseParen, LexemeTypes::CloseParen) => true,
            (LexemeTypes::OpenBrace, LexemeTypes::OpenBrace) => true,
            (LexemeTypes::CloseBrace, LexemeTypes::CloseBrace) => true,
            (LexemeTypes::Semicolon, LexemeTypes::Semicolon) => true,
            (LexemeTypes::Comma, LexemeTypes::Comma) => true,
            (LexemeTypes::Equals, LexemeTypes::Equals) => true,
            (LexemeTypes::Cross, LexemeTypes::Cross) => true,
            (LexemeTypes::Dash, LexemeTypes::Dash) => true,
            (LexemeTypes::FSlash, LexemeTypes::FSlash) => true,
            (LexemeTypes::Asterisk, LexemeTypes::Asterisk) => true,
            (LexemeTypes::AngleLeft, LexemeTypes::AngleLeft) => true,
            (LexemeTypes::AngleRight, LexemeTypes::AngleRight) => true,
            (LexemeTypes::Bang, LexemeTypes::Bang) => true,
            _ => false,
        }
    }
}

impl Eq for LexemeTypes {

}

impl vstd::std_specs::cmp::PartialEqSpecImpl for LexemeTypes {
    open spec fn obeys_eq_spec() -> bool {
        true
    }

    open spec fn eq_spec(&self, other: &Self) -> bool {
        lexeme_ty_eq(self, other)
    }
}

/// A lexeme: a token type together with its source range.
#[derive(Debug)]
pub struct Lexeme {
    pub ty: LexemeTypes,
    pub span: Span,
}

/// The mathematical model of a lexeme.
pub struct LexemeView {
    pub ty: LexemeTypeView,
    pub span: Span,
}

impl View for Lexeme {
    type V = LexemeView;

    open spec fn view(&self) -> LexemeView {
        LexemeView { ty: self.ty@, span: self.span }
    }
}

impl Clone for Lexeme {
    fn clone(&self) -> (r: Self)
        ensures
            r@ == self@,
    {
        Lexeme { ty: self.ty.clone(), span: self.span }
    }
}

// ---------------------------------------------------------------------------
// Character classes
// ---------------------------------------------------------------------------

pub open spec fn is_alpha_char(c: char) -> bool {
    (97 <= c as u32 && c as u32 <= 122) || (65 <= c as u32 && c as u32 <= 90)
}

pub open spec fn is_digit_char(c: char) -> bool {
    48 <= c as u32 && c as u32 <= 57
}

pub open spec fn is_space_char(c: char) -> bool {
    c == ' ' || c == '\t' || c == '\n' || c == '\r'
}

fn is_alpha(c: char) -> (r: bool)
    ensures
        r == is_alpha_char(c),
{
    let u = c as u32;
    (97 <= u && u <= 122) || (65 <= u && u <= 90)
}

fn is_digit(c: char) -> (r: bool)
    ensures
        r == is_digit_char(c),
{
    let u = c as u32;
    48 <= u && u <= 57
}

/// Whether a character continues the current run: a letter run when `alpha`
/// holds, a digit run otherwise.
fn run_continues(alpha: bool, c: char) -> (r: bool)
    ensures
        r == if alpha {
            is_alpha_char(c)
        } else {
            is_digit_char(c)
        },
{
    if alpha {
        is_alpha(c)
    } else {
        is_digit(c)
    }
}

fn is_space(c: char) -> (r: bool)
    ensures
        r == is_space_char(c),
{
    c == ' ' || c == '\t' || c == '\n' || c == '\r'
}

/// Whether the chunk holds at least one ASCII letter. This is what the
/// identifier pattern `[a-zA-Z][a-zA-Z0-9_]*` tests when it is searched for
/// anywhere in the chunk.
pub open spec fn contains_ascii_alpha(s: Seq<char>) -> bool {
    exists|k: int| 0 <= k < s.len() && is_alpha_char(#[trigger] s[k])
}

/// Relies on regex::Regex::is_match (on a pattern built with regex::Regex::new):
/// the unanchored pattern `[a-zA-Z][a-zA-Z0-9_]*` finds a match exactly when
/// the haystack holds at least one ASCII letter.
#[verifier::external_body]
fn idn_matches(s: &str) -> (r: bool)
    ensures
        r == contains_ascii_alpha(s@),
{
    regex::Regex::new("[a-zA-Z][a-zA-Z0-9_]*").unwrap().is_match(s)
}

// ---------------------------------------------------------------------------
// Integer literals
// ---------------------------------------------------------------------------

pub open spec fn all_digits(s: Seq<char>) -> bool {
    forall|k: int| 0 <= k < s.len() ==> is_digit_char(#[trigger] s[k])
}

/// The value of a digit string, most significant digit first.
pub open spec fn digits_val(s: Seq<char>) -> int
    decreases s.len(),
{
    if s.len() == 0 {
        0
    } else {
        digits_val(s.drop_last()) * 10 + (s.last() as u32 - 48)
    }
}

proof fn lemma_digits_val_nonneg(s: Seq<char>)
    requires
        all_digits(s),
    ensures
        digits_val(s) >= 0,
    decreases s.len(),
{
    if s.len() > 0 {
        assert(all_digits(s.drop_last()));
        lemma_digits_val_nonneg(s.drop_last());
    }
}

/// A longer digit string has at least the value of its prefix.
proof fn lemma_digits_prefix_le(s: Seq<char>, k: int)
    requires
        all_digits(s),
        0 <= k <= s.len(),
    ensures
        digits_val(s.take(k)) <= digits_val(s),
    decreases s.len() - k,
{
    if k < s.len() {
        lemma_digits_prefix_le(s, k + 1);
        let t = s.take(k + 1);
        assert(t.drop_last() =~= s.take(k));
        assert(all_digits(s.take(k)));
        lemma_digits_val_nonneg(s.take(k));
        assert(digits_val(t) == digits_val(s.take(k)) * 10 + (t.last() as u32 - 48));
        assert(digits_val(s.take(k)) * 10 >= digits_val(s.take(k)));
    } else {
        assert(s.take(k) =~= s);
    }
}

/// The value of an all-digit chunk, if it is one and fits in an `i64`.
pub open spec fn spec_parse_int(s: Seq<char>) -> Option<i64> {
    if s.len() > 0 && all_digits(s) && digits_val(s) <= i64::MAX {
        Some(digits_val(s) as i64)
    } else {
        None
    }
}

/// Reads an all-digit chunk as an integer; `None` when a character is not a
/// digit or the value does not fit in an `i64`.
fn parse_int_chunk(s: &str) -> (r: Option<i64>)
    ensures
        r == spec_parse_int(s@),
{
    let n = s.unicode_len();
    if n == 0 {
        return None;
    }
    let mut acc: u64 = 0;
    let mut i: usize = 0;
    while i < n
        invariant
            n == s@.len(),
            0 < n,
            i <= n,
            all_digits(s@.take(i as int)),
            acc == digits_val(s@.take(i as int)),
            acc <= i64::MAX,
        decreases n - i,
    {
        let c = s.get_char(i);
        if !is_digit(c) {
            assert(!all_digits(s@));
            return None;
        }
        let d: u64 = (c as u32 - 48) as u64;
        proof {
            assert(s@.take(i + 1).drop_last() =~= s@.take(i as int));
            assert(s@.take(i + 1).last() == s@[i as int]);
        }
        if acc > (i64::MAX as u64 - d) / 10 {
            // The value read so far already pushes the total past the
            // largest representable integer.
            proof {
                assert(digits_val(s@.take(i + 1)) > i64::MAX);
                if all_digits(s@) {
                    lemma_digits_prefix_le(s@, i + 1);
                }
            }
            return None;
        }
        acc = acc * 10 + d;
        i = i + 1;
    }
    proof {
        assert(s@.take(n as int) =~= s@);
    }
    Some(acc as i64)
}

// ---------------------------------------------------------------------------
// Classification of one chunk
// ---------------------------------------------------------------------------

/// The lexeme that one raw chunk of characters stands for, if any: single
/// punctuation characters first, then keywords, boolean literals, integer
/// literals, and finally identifiers.
pub open spec fn spec_classify(s: Seq<char>) -> Option<LexemeTypeView> {
    if s == "("@ {
        Some(LexemeTypeView::OpenParen)
    } else if s == ")"@ {
        Some(LexemeTypeView::CloseParen)
    } else if s == "{"@ {
        Some(LexemeTypeView::OpenBrace)
    } else if s == "}"@ {
        Some(LexemeTypeView::CloseBrace)
    } else if s == ";"@ {
        Some(LexemeTypeView::Semicolon)
    } else if s == ","@ {
        Some(LexemeTypeView::Comma)
    } else if s == "="@ {
        Some(LexemeTypeView::Equals)
    } else if s == "+"@ {
        Some(LexemeTypeView::Cross)
    } else if s == "-"@ {
        Some(LexemeTypeView::Dash)
    } else if s == "/"@ {
        Some(LexemeTypeView::FSlash)
    } else if s == "*"@ {
        Some(LexemeTypeView::Asterisk)
    } else if s == "<"@ {
        Some(LexemeTypeView::AngleLeft)
    } else if s == ">"@ {
        Some(LexemeTypeView::AngleRight)
    } else if s == "!"@ {
        Some(LexemeTypeView::Bang)
    } else if spec_keyword(s) is Some {
        Some(LexemeTypeView::Keyword(spec_keyword(s)->Some_0))
    } else if s == "true"@ {
        Some(LexemeTypeView::Literal(Literals::Boolean(true)))
    } else if s == "false"@ {
        Some(LexemeTypeView::Literal(Literals::Boolean(false)))
    } else if spec_parse_int(s) is Some {
        Some(LexemeTypeView::Literal(Literals::Integer(spec_parse_int(s)->Some_0)))
    } else if contains_ascii_alpha(s) {
        Some(LexemeTypeView::Idn(s))
    } else {
        None
    }
}

impl LexemeTypes {
    /// Classifies one raw chunk.
    fn new(from: &str) -> (r: Option<LexemeTypes>)
        ensures
            match r {
                Some(ty) => spec_classify(from@) == Some(ty@),
                None => spec_classify(from@) is None,
            },
    {
        if str_eq(from, "(") {
            Some(LexemeTypes::OpenParen)
        } else if str_eq(from, ")") {
            Some(LexemeTypes::CloseParen)
        } else if str_eq(from, "{") {
            Some(LexemeTypes::OpenBrace)
        } else if str_eq(from, "}") {
            Some(LexemeTypes::CloseBrace)
        } else if str_eq(from, ";") {
            Some(LexemeTypes::Semicolon)
        } else if str_eq(from, ",") {
            Some(LexemeTypes::Comma)
        } else if str_eq(from, "=") {
            Some(LexemeTypes::Equals)
        } else if str_eq(from, "+") {
            Some(LexemeTypes::Cross)
        } else if str_eq(from, "-") {
            Some(LexemeTypes::Dash)
        } else if str_eq(from, "/") {
            Some(LexemeTypes::FSlash)
        } else if str_eq(from, "*") {
            Some(LexemeTypes::Asterisk)
        } else if str_eq(from, "<") {
            Some(LexemeTypes::AngleLeft)
        } else if str_eq(from, ">") {
            Some(LexemeTypes::AngleRight)
        } else if str_eq(from, "!") {
            Some(LexemeTypes::Bang)
        } else if let Some(kw) = Keywords::new(from) {
            Some(LexemeTypes::Keyword(kw))
        } else if str_eq(from, "true") {
            Some(LexemeTypes::Literal(Literals::Boolean(true)))
        } else if str_eq(from, "false") {
            Some(LexemeTypes::Literal(Literals::Boolean(false)))
        } else if let Some(num) = parse_int_chunk(from) {
            Some(LexemeTypes::Literal(Literals::Integer(num)))
        } else if idn_matches(from) {
            Some(LexemeTypes::Idn(String::from_str(from)))
        } else {
            None
        }
    }
}

// ---------------------------------------------------------------------------
// The lexer
// ---------------------------------------------------------------------------

/// The first position at or after `i` that does not hold an ASCII letter.
pub open spec fn alpha_end(s: Seq<char>, i: int) -> int
    decreases s.len() - i,
{
    if 0 <= i < s.len() && is_alpha_char(s[i]) {
        alpha_end(s, i + 1)
    } else {
        i
    }
}

/// The first position at or after `i` that does not hold an ASCII digit.
pub open spec fn digit_end(s: Seq<char>, i: int) -> int
    decreases s.len() - i,
{
    if 0 <= i < s.len() && is_digit_char(s[i]) {
        digit_end(s, i + 1)
    } else {
        i
    }
}

pub proof fn lemma_alpha_end(s: Seq<char>, i: int)
    requires
        0 <= i <= s.len(),
    ensures
        i <= alpha_end(s, i) <= s.len(),
        i < s.len() && is_alpha_char(s[i]) ==> alpha_end(s, i) > i,
    decreases s.len() - i,
{
    if i < s.len() && is_alpha_char(s[i]) {
        lemma_alpha_end(s, i + 1);
    }
}

pub proof fn lemma_digit_end(s: Seq<char>, i: int)
    requires
        0 <= i <= s.len(),
    ensures
        i <= digit_end(s, i) <= s.len(),
        i < s.len() && is_digit_char(s[i]) ==> digit_end(s, i) > i,
    decreases s.len() - i,
{
    if i < s.len() && is_digit_char(s[i]) {
        lemma_digit_end(s, i + 1);
    }
}

/// A position whose prefix from `i` is all letters, and that is at the end
/// or at a non-letter, is exactly `alpha_end`.
proof fn lemma_alpha_end_is(s: Seq<char>, i: int, j: int)
    requires
        0 <= i <= j <= s.len(),
        forall|k: int| i <= k < j ==> is_alpha_char(#[trigger] s[k]),
        j == s.len() || !is_alpha_char(s[j]),
    ensures
        alpha_end(s, i) == j,
    decreases j - i,
{
    if i < j {
        lemma_alpha_end_is(s, i + 1, j);
    }
}

proof fn lemma_digit_end_is(s: Seq<char>, i: int, j: int)
    requires
        0 <= i <= j <= s.len(),
        forall|k: int| i <= k < j ==> is_digit_char(#[trigger] s[k]),
        j == s.len() || !is_digit_char(s[j]),
    ensures
        digit_end(s, i) == j,
    decreases j - i,
{
    if i < j {
        lemma_digit_end_is(s, i + 1, j);
    }
}

/// The lexemes of the text from position `i` on, with `line` and `col` the
/// position of `i` in the source, or the first error.
pub open spec fn spec_lex(s: Seq<char>, i: int, line: u64, col: u64) -> Result<
    Seq<LexemeView>,
    ShadowErrorView,
>
    decreases s.len() - i,
{
    if !(0 <= i < s.len()) {
        Ok(Seq::empty())
    } else {
        let c = s[i];
        if is_alpha_char(c) {
            proof {
                lemma_alpha_end(s, i);
            }
            let j = alpha_end(s, i);
            spec_lex_chunk(s, i, j, line, col)
        } else if is_digit_char(c) {
            proof {
                lemma_digit_end(s, i);
            }
            let j = digit_end(s, i);
            spec_lex_chunk(s, i, j, line, col)
        } else if is_space_char(c) {
            if c == '\n' {
                spec_lex(s, i + 1, (line + 1) as u64, 0)
            } else {
                spec_lex(s, i + 1, line, (col + 1) as u64)
            }
        } else {
            spec_lex_chunk(s, i, i + 1, line, col)
        }
    }
}

/// One chunk `s[i..j]` classified and put in front of the lexemes of the
/// rest, or the error that classification or the rest gives.
pub open spec fn spec_lex_chunk(s: Seq<char>, i: int, j: int, line: u64, col: u64) -> Result<
    Seq<LexemeView>,
    ShadowErrorView,
>
    decreases s.len() - i, 0int,
    when 0 <= i < j <= s.len()
{
    let chunk = s.subrange(i, j);
    let span = Span {
        line,
        column: col,
        end_line: line,
        end_col: (col + (j - i)) as u64,
    };
    match spec_classify(chunk) {
        Some(ty) => match spec_lex(s, j, line, (col + (j - i)) as u64) {
            Ok(rest) => Ok(seq![LexemeView { ty, span }] + rest),
            Err(e) => Err(e),
        },
        None => Err(
            ShadowErrorView {
                ty: ErrTypeView::Lex(LexErrorsView::UnrecognisedToken(chunk)),
                span,
            },
        ),
    }
}

/// The views of a sequence of lexemes.
pub open spec fn view_lexemes(v: Seq<Lexeme>) -> Seq<LexemeView> {
    v.map_values(|l: Lexeme| l@)
}

/// Joins lexemes already read with the outcome on the rest of the text.
pub open spec fn lex_compose(
    prefix: Seq<LexemeView>,
    r: Result<Seq<LexemeView>, ShadowErrorView>,
) -> Result<Seq<LexemeView>, ShadowErrorView> {
    match r {
        Ok(rest) => Ok(prefix + rest),
        Err(e) => Err(e),
    }
}

/// Turns raw source text into lexemes, or reports the first unrecognised
/// token.
pub fn lex(raw: &str) -> (r: Result<Vec<Lexeme>, ShadowError>)
    ensures
        match r {
            Ok(v) => spec_lex(raw@, 0, 0, 0) == Ok::<_, ShadowErrorView>(view_lexemes(v@)),
            Err(e) => spec_lex(raw@, 0, 0, 0) == Err::<Seq<LexemeView>, _>(e@),
        },
{
    let n = raw.unicode_len();
    let mut out: Vec<Lexeme> = Vec::new();
    let mut i: usize = 0;
    let mut line: u64 = 0;
    let mut col: u64 = 0;
    proof {
        assert(view_lexemes(out@) =~= Seq::empty());
    }
    while i < n
        invariant
            n == raw@.len(),
            i <= n,
            col <= i,
            line <= i,
            spec_lex(raw@, 0, 0, 0) == lex_compose(
                view_lexemes(out@),
                spec_lex(raw@, i as int, line, col),
            ),
        decreases n - i,
    {
        let ghost s = raw@;
        let c = raw.get_char(i);
        if is_alpha(c) || is_digit(c) {
            let alpha = is_alpha(c);
            let mut j = i + 1;
            while j < n && run_continues(alpha, raw.get_char(j))
                invariant
                    n == s.len(),
                    s == raw@,
                    i < j <= n,
                    alpha == is_alpha_char(s[i as int]),
                    !alpha ==> is_digit_char(s[i as int]),
                    forall|k: int|
                        i <= k < j ==> if alpha {
                            is_alpha_char(#[trigger] s[k])
                        } else {
                            is_digit_char(#[trigger] s[k])
                        },
                decreases n - j,
            {
                j = j + 1;
            }
            proof {
                if alpha {
                    lemma_alpha_end_is(s, i as int, j as int);
                } else {
                    lemma_digit_end_is(s, i as int, j as int);
                }
            }
            let chunk = raw.substring_char(i, j);
            let width: u64 = (j - i) as u64;
            let span = Span { line, column: col, end_line: line, end_col: col + width };
            match LexemeTypes::new(chunk) {
                Some(ty) => {
                    let lexeme = Lexeme { ty, span };
                    proof {
                        let rest = spec_lex(s, j as int, line, (col + width) as u64);
                        assert(spec_lex(s, i as int, line, col) == spec_lex_chunk(
                            s,
                            i as int,
                            j as int,
                            line,
                            col,
                        ));
                        assert(spec_lex_chunk(s, i as int, j as int, line, col) == (match rest {
                            Ok(restv) => Ok::<Seq<LexemeView>, ShadowErrorView>(
                                seq![lexeme@] + restv,
                            ),
                            Err(e) => Err(e),
                        }));
                        assert(view_lexemes(out@.push(lexeme)) =~= view_lexemes(out@).push(
                            lexeme@,
                        ));
                        if let Ok(restv) = rest {
                            assert(view_lexemes(out@).push(lexeme@) + restv =~= view_lexemes(out@)
                                + (seq![lexeme@] + restv));
                        }
                    }
                    out.push(lexeme);
                    col = col + width;
                    i = j;
                },
                None => {
                    proof {
                        assert(0 <= (i as int) && (i as int) < (j as int) && (j as int)
                            <= s.len());
                        assert(spec_classify(chunk@) is None);
                        assert(spec_lex_chunk(s, i as int, j as int, line, col)
                            == Err::<Seq<LexemeView>, ShadowErrorView>(
                            ShadowErrorView {
                                ty: ErrTypeView::Lex(
                                    LexErrorsView::UnrecognisedToken(
                                        s.subrange(i as int, j as int),
                                    ),
                                ),
                                span,
                            },
                        ));
                        assert(spec_lex(s, i as int, line, col) == spec_lex_chunk(
                            s,
                            i as int,
                            j as int,
                            line,
                            col,
                        ));
                    }
                    return Err(
                        ShadowError::from_pos(
                            ErrType::Lex(LexErrors::UnrecognisedToken(String::from_str(chunk))),
                            span,
                        ),
                    );
                },
            }
        } else if is_space(c) {
            if c == '\n' {
                line = line + 1;
                col = 0;
            } else {
                col = col + 1;
            }
            i = i + 1;
        } else {
            let chunk = raw.substring_char(i, i + 1);
            let span = Span { line, column: col, end_line: line, end_col: col + 1 };
            match LexemeTypes::new(chunk) {
                Some(ty) => {
                    let lexeme = Lexeme { ty, span };
                    proof {
                        let rest = spec_lex(s, i + 1, line, (col + 1) as u64);
                        assert(spec_lex(s, i as int, line, col) == spec_lex_chunk(
                            s,
                            i as int,
                            i + 1,
                            line,
                            col,
                        ));
                        assert(spec_lex_chunk(s, i as int, i + 1, line, col) == (match rest {
                            Ok(restv) => Ok::<Seq<LexemeView>, ShadowErrorView>(
                                seq![lexeme@] + restv,
                            ),
                            Err(e) => Err(e),
                        }));
                        assert(view_lexemes(out@.push(lexeme)) =~= view_lexemes(out@).push(
                            lexeme@,
                        ));
                        if let Ok(restv) = rest {
                            assert(view_lexemes(out@).push(lexeme@) + restv =~= view_lexemes(out@)
                                + (seq![lexeme@] + restv));
                        }
                    }
                    out.push(lexeme);
                    col = col + 1;
                    i = i + 1;
                },
                None => {
                    proof {
                        assert(spec_classify(chunk@) is None);
                        assert(spec_lex_chunk(s, i as int, i + 1, line, col)
                            == Err::<Seq<LexemeView>, ShadowErrorView>(
                            ShadowErrorView {
                                ty: ErrTypeView::Lex(
                                    LexErrorsView::UnrecognisedToken(s.subrange(i as int, i + 1)),
                                ),
                                span,
                            },
                        ));
                        assert(spec_lex(s, i as int, line, col) == spec_lex_chunk(
                            s,
                            i as int,
                            i + 1,
                            line,
                            col,
                        ));
                    }
                    return Err(
                        ShadowError::from_pos(
                            ErrType::Lex(LexErrors::UnrecognisedToken(String::from_str(chunk))),
                            span,
                        ),
                    );
                },
            }
        }
    }
    proof {
        assert(spec_lex(raw@, i as int, line, col) == Ok::<Seq<LexemeView>, ShadowErrorView>(
            Seq::empty(),
        ));
        assert(view_lexemes(out@) + Seq::<LexemeView>::empty() =~= view_lexemes(out@));
    }
    Ok(out)
}

} // verus!
