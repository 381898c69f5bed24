//! The error taxonomy: one flat tagged union per stage, each error carried
//! with the source range it points at, and the rendering of a report.

use vstd::prelude::*;

use crate::lex::{Keywords, LexemeTypeView, LexemeTypes, Literals};
use crate::text::{push_char, render_i64, render_u64, repeat_char};
use crate::{Span, Type};

verus! {

/// Errors of the lexer.
#[derive(Debug)]
pub enum LexErrors {
    UnrecognisedToken(String),
    UnrecognisedType(String),
}

/// The mathematical model of a lexer error.
pub enum LexErrorsView {
    UnrecognisedToken(Seq<char>),
    UnrecognisedType(Seq<char>),
}

impl View for LexErrors {
    type V = LexErrorsView;

    open spec fn view(&self) -> LexErrorsView {
        match self {
            LexErrors::UnrecognisedToken(s) => LexErrorsView::UnrecognisedToken(s@),
            LexErrors::UnrecognisedType(s) => LexErrorsView::UnrecognisedType(s@),
        }
    }
}

/// Errors of the parser.
#[derive(Debug)]
pub enum ParseErrors {
    /// The token stream ended where a token was still needed.
    TokenStreamExhausted,
    /// A token of the wrong kind: holds the token found and the one expected.
    UnexpectedToken(LexemeTypes, LexemeTypes),
    /// A token that no expression can begin with.
    InvalidExpressionStart(LexemeTypes),
    /// A token used in infix position that is no operator.
    UnknownInfixOperator(LexemeTypes),
}

/// The mathematical model of a parse error.
pub enum ParseErrorsView {
    TokenStreamExhausted,
    UnexpectedToken(LexemeTypeView, LexemeTypeView),
    InvalidExpressionStart(LexemeTypeView),
    UnknownInfixOperator(LexemeTypeView),
}

impl View for ParseErrors {
    type V = ParseErrorsView;

    open spec fn view(&self) -> ParseErrorsView {
        match self {
            ParseErrors::TokenStreamExhausted => ParseErrorsView::TokenStreamExhausted,
            ParseErrors::UnexpectedToken(found, expected) => ParseErrorsView::UnexpectedToken(
                found@,
                expected@,
            ),
            ParseErrors::InvalidExpressionStart(t) => ParseErrorsView::InvalidExpressionStart(t@),
            ParseErrors::UnknownInfixOperator(t) => ParseErrorsView::UnknownInfixOperator(t@),
        }
    }
}

/// Errors of the semantic analyser.
#[derive(Debug)]
pub enum SemErrors {
    /// The declared return type, and the type of the returned value.
    MismatchedFnRetTy(Type, Type),
    /// The two operand types of a binary operation or comparison.
    MismatchedTypes(Type, Type),
    ReturnOutsideFn,
    /// Internal invariant violation: the scope stack was empty.
    CompilerNotInAScope,
    VariableNotFound(String),
    FunctionNotFound(String),
    /// A condition that is not a boolean: holds its actual type.
    CondNotBool(Type),
    /// The number of parameters, and the number of arguments given.
    MismatchedNumArgs(usize, usize),
    /// The declared parameter type, and the type of the argument given.
    ArgTyMismatch(Type, Type),
    /// The variable's name, its declared type, and the type assigned.
    CannotReassignVariableType(String, Type, Type),
}

/// The mathematical model of a semantic error.
pub enum SemErrorsView {
    MismatchedFnRetTy(Type, Type),
    MismatchedTypes(Type, Type),
    ReturnOutsideFn,
    CompilerNotInAScope,
    VariableNotFound(Seq<char>),
    FunctionNotFound(Seq<char>),
    CondNotBool(Type),
    MismatchedNumArgs(int, int),
    ArgTyMismatch(Type, Type),
    CannotReassignVariableType(Seq<char>, Type, Type),
}

impl View for SemErrors {
    type V = SemErrorsView;

    open spec fn view(&self) -> SemErrorsView {
        match self {
            SemErrors::MismatchedFnRetTy(a, b) => SemErrorsView::MismatchedFnRetTy(*a, *b),
            SemErrors::MismatchedTypes(a, b) => SemErrorsView::MismatchedTypes(*a, *b),
            SemErrors::ReturnOutsideFn => SemErrorsView::ReturnOutsideFn,
            SemErrors::CompilerNotInAScope => SemErrorsView::CompilerNotInAScope,
            SemErrors::VariableNotFound(s) => SemErrorsView::VariableNotFound(s@),
            SemErrors::FunctionNotFound(s) => SemErrorsView::FunctionNotFound(s@),
            SemErrors::CondNotBool(t) => SemErrorsView::CondNotBool(*t),
            SemErrors::MismatchedNumArgs(p, a) => SemErrorsView::MismatchedNumArgs(
                *p as int,
                *a as int,
            ),
            SemErrors::ArgTyMismatch(p, a) => SemErrorsView::ArgTyMismatch(*p, *a),
            SemErrors::CannotReassignVariableType(s, d, n) =>
                SemErrorsView::CannotReassignVariableType(s@, *d, *n),
        }
    }
}

/// Which stage an error came from, with the stage's own error inside.
#[derive(Debug)]
pub enum ErrType {
    Lex(LexErrors),
    Parse(ParseErrors),
    Semantic(SemErrors),
}

/// The mathematical model of an error tag.
pub enum ErrTypeView {
    Lex(LexErrorsView),
    Parse(ParseErrorsView),
    Semantic(SemErrorsView),
}

impl View for ErrType {
    type V = ErrTypeView;

    open spec fn view(&self) -> ErrTypeView {
        match self {
            ErrType::Lex(e) => ErrTypeView::Lex(e@),
            ErrType::Parse(e) => ErrTypeView::Parse(e@),
            ErrType::Semantic(e) => ErrTypeView::Semantic(e@),
        }
    }
}

/// An error of any stage, with the source range it points at.
#[derive(Debug)]
pub struct ShadowError {
    pub ty: ErrType,
    pub span: Span,
}

/// The mathematical model of an error.
pub struct ShadowErrorView {
    pub ty: ErrTypeView,
    pub span: Span,
}

impl View for ShadowError {
    type V = ShadowErrorView;

    open spec fn view(&self) -> ShadowErrorView {
        ShadowErrorView { ty: self.ty@, span: self.span }
    }
}

impl ShadowError {
    pub fn from_pos(err: ErrType, span: Span) -> (r: ShadowError)
        ensures
            r@ == (ShadowErrorView { ty: err@, span }),
    {
        ShadowError { ty: err, span }
    }
}

// ---------------------------------------------------------------------------
// Rendering a report
// ---------------------------------------------------------------------------

/// The stage letter of an error.
pub open spec fn spec_err_code(t: ErrTypeView) -> Seq<char> {
    match t {
        ErrTypeView::Lex(e) => "L"@,
        ErrTypeView::Parse(e) => "P"@,
        ErrTypeView::Semantic(e) => "S"@,
    }
}

/// The name of a type of the source language, for messages.
pub open spec fn spec_type_text(t: Type) -> Seq<char> {
    match t {
        Type::Void => "Void"@,
        Type::Int => "Int"@,
        Type::Bool => "Bool"@,
    }
}

fn type_text(t: &Type) -> (r: &'static str)
    ensures
        r@ == spec_type_text(*t),
{
    match t {
        Type::Void => "Void",
        Type::Int => "Int",
        Type::Bool => "Bool",
    }
}

/// The text of a lexeme, for messages.
pub open spec fn spec_lexeme_text(t: LexemeTypeView) -> Seq<char> {
    match t {
        LexemeTypeView::Keyword(kw) => match kw {
            Keywords::Fn => "fn"@,
            Keywords::Return => "return"@,
            Keywords::Let => "let"@,
            Keywords::If => "if"@,
            Keywords::Else => "else"@,
            Keywords::Loop => "loop"@,
            Keywords::Break => "break"@,
            Keywords::Continue => "continue"@,
        },
        LexemeTypeView::Literal(lt) => match lt {
            Literals::Integer(n) => crate::text::spec_dec_signed(n as int),
            Literals::Boolean(b) => if b {
                "true"@
            } else {
                "false"@
            },
        },
        LexemeTypeView::Idn(s) => s,
        LexemeTypeView::OpenParen => "("@,
        LexemeTypeView::CloseParen => ")"@,
        LexemeTypeView::OpenBrace => "{"@,
        LexemeTypeView::CloseBrace => "}"@,
        LexemeTypeView::Semicolon => ";"@,
        LexemeTypeView::Comma => ","@,
        LexemeTypeView::Equals => "="@,
        LexemeTypeView::Cross => "+"@,
        LexemeTypeView::Dash => "-"@,
        LexemeTypeView::FSlash => "/"@,
        LexemeTypeView::Asterisk => "*"@,
        LexemeTypeView::AngleLeft => "<"@,
        LexemeTypeView::AngleRight => ">"@,
        LexemeTypeView::Bang => "!"@,
    }
}

fn lexeme_text(t: &LexemeTypes) -> (r: String)
    ensures
        r@ == spec_lexeme_text(t@),
{
    match t {
        LexemeTypes::Keyword(kw) => match kw {
            Keywords::Fn => String::from_str("fn"),
            Keywords::Return => String::from_str("return"),
            Keywords::Let => String::from_str("let"),
            Keywords::If => String::from_str("if"),
            Keywords::Else => String::from_str("else"),
            Keywords::Loop => String::from_str("loop"),
            Keywords::Break => String::from_str("break"),
            Keywords::Continue => String::from_str("continue"),
        },
        LexemeTypes::Literal(lt) => match lt {
            Literals::Integer(n) => render_i64(*n),
            Literals::Boolean(b) => if *b {
                String::from_str("true")
            } else {
                String::from_str("false")
            },
        },
        LexemeTypes::Idn(s) => s.clone(),
        LexemeTypes::OpenParen => String::from_str("("),
        LexemeTypes::CloseParen => String::from_str(")"),
        LexemeTypes::OpenBrace => String::from_str("{"),
        LexemeTypes::CloseBrace => String::from_str("}"),
        LexemeTypes::Semicolon => String::from_str(";"),
        LexemeTypes::Comma => String::from_str(","),
        LexemeTypes::Equals => String::from_str("="),
        LexemeTypes::Cross => String::from_str("+"),
        LexemeTypes::Dash => String::from_str("-"),
        LexemeTypes::FSlash => String::from_str("/"),
        LexemeTypes::Asterisk => String::from_str("*"),
        LexemeTypes::AngleLeft => String::from_str("<"),
        LexemeTypes::AngleRight => String::from_str(">"),
        LexemeTypes::Bang => String::from_str("!"),
    }
}

/// The human-readable message of an error.
pub open spec fn spec_message(t: ErrTypeView) -> Seq<char> {
    match t {
        ErrTypeView::Lex(e) => match e {
            LexErrorsView::UnrecognisedToken(s) => "unrecognised token encountered: '"@ + s
                + "'"@,
            LexErrorsView::UnrecognisedType(s) => "an unrecognised type was encountered: '"@ + s
                + "'"@,
        },
        ErrTypeView::Parse(e) => match e {
            ParseErrorsView::TokenStreamExhausted => "the token stream was exhausted"@,
            ParseErrorsView::UnexpectedToken(f, x) => "an unexpected token was encountered: '"@
                + spec_lexeme_text(f) + "' (expected '"@ + spec_lexeme_text(x) + "')"@,
            ParseErrorsView::InvalidExpressionStart(x) => "an expression cannot start with '"@
                + spec_lexeme_text(x) + "'"@,
            ParseErrorsView::UnknownInfixOperator(x) => "an unknown infix operator was used: '"@
                + spec_lexeme_text(x) + "'"@,
        },
        ErrTypeView::Semantic(e) => match e {
            SemErrorsView::MismatchedFnRetTy(a, b) => "the function's return type ('"@
                + spec_type_text(a) + "') & the type of the returned value ('"@ + spec_type_text(
                b,
            ) + "') do not match"@,
            SemErrorsView::MismatchedTypes(a, b) =>
                "the following 2 types in the expression do not match: '"@ + spec_type_text(a)
                + "' & '"@ + spec_type_text(b) + "'"@,
            SemErrorsView::ReturnOutsideFn =>
                "return statements are only allowed inside of function definitions"@,
            SemErrorsView::CompilerNotInAScope => "the compiler is not currently in a scope"@,
            SemErrorsView::VariableNotFound(s) => "the variable named '"@ + s
                + "' was not defined inside the current scope"@,
            SemErrorsView::FunctionNotFound(s) => "the function named '"@ + s
                + "' was not found"@,
            SemErrorsView::CondNotBool(a) =>
                "an if/else if's condition was not a boolean, but of type '"@ + spec_type_text(a)
                + "'"@,
            SemErrorsView::MismatchedNumArgs(p, a) => "the function takes "@
                + crate::text::spec_dec(p) + " arguments but "@ + crate::text::spec_dec(a)
                + " were given"@,
            SemErrorsView::ArgTyMismatch(p, a) => "the argument was expected to be of type '"@
                + spec_type_text(p) + "', but was '"@ + spec_type_text(a) + "'"@,
            SemErrorsView::CannotReassignVariableType(n, d, g) => "the variable '"@ + n
                + "' of type '"@ + spec_type_text(d) + "' cannot be reassigned with a value of type '"@
                + spec_type_text(g) + "'"@,
        },
    }
}

impl ErrType {
    /// The human-readable message of this error.
    pub fn message(&self) -> (r: String)
        ensures
            r@ == spec_message(self@),
    {
        match self {
            ErrType::Lex(e) => match e {
                LexErrors::UnrecognisedToken(s) => {
                    let mut m = String::from_str("unrecognised token encountered: '");
                    m.append(s.as_str());
                    m.append("'");
                    m
                },
                LexErrors::UnrecognisedType(s) => {
                    let mut m = String::from_str("an unrecognised type was encountered: '");
                    m.append(s.as_str());
                    m.append("'");
                    m
                },
            },
            ErrType::Parse(e) => match e {
                ParseErrors::TokenStreamExhausted => String::from_str(
                    "the token stream was exhausted",
                ),
                ParseErrors::UnexpectedToken(f, x) => {
                    let mut m = String::from_str("an unexpected token was encountered: '");
                    let ft = lexeme_text(f);
                    m.append(ft.as_str());
                    m.append("' (expected '");
                    let xt = lexeme_text(x);
                    m.append(xt.as_str());
                    m.append("')");
                    m
                },
                ParseErrors::InvalidExpressionStart(x) => {
                    let mut m = String::from_str("an expression cannot start with '");
                    let xt = lexeme_text(x);
                    m.append(xt.as_str());
                    m.append("'");
                    m
                },
                ParseErrors::UnknownInfixOperator(x) => {
                    let mut m = String::from_str("an unknown infix operator was used: '");
                    let xt = lexeme_text(x);
                    m.append(xt.as_str());
                    m.append("'");
                    m
                },
            },
            ErrType::Semantic(e) => match e {
                SemErrors::MismatchedFnRetTy(a, b) => {
                    let mut m = String::from_str("the function's return type ('");
                    m.append(type_text(a));
                    m.append("') & the type of the returned value ('");
                    m.append(type_text(b));
                    m.append("') do not match");
                    m
                },
                SemErrors::MismatchedTypes(a, b) => {
                    let mut m = String::from_str(
                        "the following 2 types in the expression do not match: '",
                    );
                    m.append(type_text(a));
                    m.append("' & '");
                    m.append(type_text(b));
                    m.append("'");
                    m
                },
                SemErrors::ReturnOutsideFn => String::from_str(
                    "return statements are only allowed inside of function definitions",
                ),
                SemErrors::CompilerNotInAScope => String::from_str(
                    "the compiler is not currently in a scope",
                ),
                SemErrors::VariableNotFound(s) => {
                    let mut m = String::from_str("the variable named '");
                    m.append(s.as_str());
                    m.append("' was not defined inside the current scope");
                    m
                },
                SemErrors::FunctionNotFound(s) => {
                    let mut m = String::from_str("the function named '");
                    m.append(s.as_str());
                    m.append("' was not found");
                    m
                },
                SemErrors::CondNotBool(a) => {
                    let mut m = String::from_str(
                        "an if/else if's condition was not a boolean, but of type '",
                    );
                    m.append(type_text(a));
                    m.append("'");
                    m
                },
                SemErrors::MismatchedNumArgs(p, a) => {
                    let mut m = String::from_str("the function takes ");
                    let pd = render_u64(*p as u64);
                    m.append(pd.as_str());
                    m.append(" arguments but ");
                    let ad = render_u64(*a as u64);
                    m.append(ad.as_str());
                    m.append(" were given");
                    proof {
                        assert(m@ =~= spec_message(self@));
                    }
                    m
                },
                SemErrors::ArgTyMismatch(p, a) => {
                    let mut m = String::from_str("the argument was expected to be of type '");
                    m.append(type_text(p));
                    m.append("', but was '");
                    m.append(type_text(a));
                    m.append("'");
                    m
                },
                SemErrors::CannotReassignVariableType(n, d, g) => {
                    let mut m = String::from_str("the variable '");
                    m.append(n.as_str());
                    m.append("' of type '");
                    m.append(type_text(d));
                    m.append("' cannot be reassigned with a value of type '");
                    m.append(type_text(g));
                    m.append("'");
                    m
                },
            },
        }
    }
}

/// One more than a coordinate, for one-based positions in reports; the
/// largest coordinate stands still.
pub open spec fn spec_one_based(x: u64) -> u64 {
    if x == u64::MAX {
        x
    } else {
        (x + 1) as u64
    }
}

/// The header of a report: the stage tag, the message, and the one-based
/// position.
pub open spec fn spec_header(e: ShadowErrorView) -> Seq<char> {
    "[SDW E/"@ + spec_err_code(e.ty) + "] "@ + spec_message(e.ty)
        + "\n-> error occurred at line "@ + crate::text::spec_dec(spec_one_based(e.span.line) as int)
        + ", character "@ + crate::text::spec_dec(spec_one_based(e.span.column) as int) + ".\n"@
}

/// The caret body of a report: the source line the error starts on, and an
/// underline from its start column to its end column.
pub open spec fn spec_body(e: ShadowErrorView, raw: Seq<char>) -> Seq<char> {
    let width = if e.span.end_col > e.span.column {
        e.span.end_col - e.span.column
    } else {
        1
    };
    spec_nth_line(raw, 0, e.span.line as int) + "\n"@ + crate::text::spec_repeat_char(
        ' ',
        e.span.column as int,
    ) + crate::text::spec_repeat_char('^', width as int) + " - error occurred here!\n"@
}

/// The characters of line number `n` of the text, counting from position
/// `i`; empty when the text has no such line.
pub open spec fn spec_nth_line(s: Seq<char>, i: int, n: int) -> Seq<char>
    decreases s.len() - i,
{
    if !(0 <= i < s.len()) {
        Seq::empty()
    } else if n > 0 {
        if s[i] == '\n' {
            spec_nth_line(s, i + 1, n - 1)
        } else {
            spec_nth_line(s, i + 1, n)
        }
    } else {
        if s[i] == '\n' {
            Seq::empty()
        } else {
            seq![s[i]] + spec_nth_line(s, i + 1, 0)
        }
    }
}

/// Copies line number `n` out of the text.
#[verifier::loop_isolation(false)]
fn nth_line(raw: &str, n: u64) -> (r: String)
    ensures
        r@ == spec_nth_line(raw@, 0, n as int),
{
    let len = raw.unicode_len();
    let mut i: usize = 0;
    let mut left: u64 = n;
    while i < len && left > 0
        invariant
            i <= len,
            spec_nth_line(raw@, 0, n as int) == spec_nth_line(raw@, i as int, left as int),
        decreases len - i,
    {
        if raw.get_char(i) == '\n' {
            left = left - 1;
        }
        i = i + 1;
    }
    let mut s = String::new();
    if left > 0 {
        return s;
    }
    while i < len && raw.get_char(i) != '\n'
        invariant
            i <= len,
            spec_nth_line(raw@, 0, n as int) == s@ + spec_nth_line(raw@, i as int, 0),
        decreases len - i,
    {
        push_char(&mut s, raw.get_char(i));
        i = i + 1;
    }
    proof {
        assert(s@ + Seq::<char>::empty() =~= s@);
    }
    s
}

impl ShadowError {
    /// Renders the full report of this error against the source text: the
    /// header with the stage, message and position, then the offending line
    /// with an underline.
    pub fn print(&self, raw: &str) -> (r: String)
        ensures
            r@ == spec_header(self@) + spec_body(self@, raw@),
    {
        let mut s = String::from_str("[SDW E/");
        let code: &'static str = match &self.ty {
            ErrType::Lex(_) => "L",
            ErrType::Parse(_) => "P",
            ErrType::Semantic(_) => "S",
        };
        s.append(code);
        s.append("] ");
        let msg = self.ty.message();
        s.append(msg.as_str());
        s.append("\n-> error occurred at line ");
        let l1 = if self.span.line == u64::MAX {
            self.span.line
        } else {
            self.span.line + 1
        };
        let ld = render_u64(l1);
        s.append(ld.as_str());
        s.append(", character ");
        let c1 = if self.span.column == u64::MAX {
            self.span.column
        } else {
            self.span.column + 1
        };
        let cd = render_u64(c1);
        s.append(cd.as_str());
        s.append(".\n");
        let line = nth_line(raw, self.span.line);
        s.append(line.as_str());
        s.append("\n");
        let pad = repeat_char(' ', self.span.column);
        s.append(pad.as_str());
        let width: u64 = if self.span.end_col > self.span.column {
            self.span.end_col - self.span.column
        } else {
            1
        };
        let carets = repeat_char('^', width);
        s.append(carets.as_str());
        s.append(" - error occurred here!\n");
        proof {
            assert(s@ =~= spec_header(self@) + spec_body(self@, raw@));
        }
        s
    }
}

} // verus!
