//! A small compiler front-end for a toy imperative language: a lexer that
//! turns source text into spanned lexemes, a recursive-descent parser with
//! precedence-climbing expressions, a scope-based semantic analyser that
//! produces a typed tree, and a code generator that lowers the typed tree
//! into a textual, basic-block intermediate representation.

use vstd::prelude::*;

pub mod errors;
pub mod lex;
pub mod parse;
pub mod sem;
pub mod text;
pub mod translate;

verus! {

/// A half-open source range, for diagnostics. Every lexeme, syntax node and
/// typed node carries one.
#[derive(Debug, Clone, Copy, PartialEq, Eq, Structural)]
pub struct Span {
    pub line: u64,
    pub column: u64,
    pub end_line: u64,
    pub end_col: u64,
}

impl Span {
    /// The zero span, used as the starting position of the lexer.
    pub fn zero() -> (r: Span)
        ensures
            r == (Span { line: 0, column: 0, end_line: 0, end_col: 0 }),
    {
        Span { line: 0, column: 0, end_line: 0, end_col: 0 }
    }

    /// Combines the start of `from` with the end of `to`.
    pub fn from_to(from: Span, to: Span) -> (r: Span)
        ensures
            r == (Span {
                line: from.line,
                column: from.column,
                end_line: to.end_line,
                end_col: to.end_col,
            }),
    {
        Span { line: from.line, column: from.column, end_line: to.end_line, end_col: to.end_col }
    }
}

impl Default for Span {
    fn default() -> (r: Span)
        ensures
            r == (Span { line: 0, column: 0, end_line: 0, end_col: 0 }),
    {
        Span { line: 0, column: 0, end_line: 0, end_col: 0 }
    }
}

/// A value together with the source range it was read from.
#[derive(Debug)]
pub struct Spanned<T> {
    pub inner: T,
    pub span: Span,
}

impl<T> Spanned<T> {
    pub fn new(span: Span, inner: T) -> (r: Spanned<T>)
        ensures
            r.span == span,
            r.inner == inner,
    {
        Spanned { span, inner }
    }
}

/// The mathematical model of a spanned value.
pub struct SpannedView<T> {
    pub inner: T,
    pub span: Span,
}

impl<T: View> View for Spanned<T> {
    type V = SpannedView<T::V>;

    open spec fn view(&self) -> SpannedView<T::V> {
        SpannedView { inner: self.inner@, span: self.span }
    }
}

/// The closed set of types of the source language. Equality is structural;
/// there is no subtyping.
#[derive(Debug, Clone, Copy, PartialEq, Eq, Structural)]
pub enum Type {
    Void,
    Bool,
    Int,
}

/// The type a name denotes, or an `UnrecognisedType` error at the given
/// span.
pub open spec fn spec_type_of_name(s: Seq<char>, span: Span) -> Result<
    Type,
    errors::ShadowErrorView,
> {
    if s == "int"@ {
        Ok(Type::Int)
    } else if s == "void"@ {
        Ok(Type::Void)
    } else if s == "bool"@ {
        Ok(Type::Bool)
    } else {
        Err(
            errors::ShadowErrorView {
                ty: errors::ErrTypeView::Lex(errors::LexErrorsView::UnrecognisedType(s)),
                span,
            },
        )
    }
}

impl Type {
    /// Reads a type name: `int`, `void` or `bool`.
    pub fn from_string(other: String, span: Span) -> (r: Result<Type, errors::ShadowError>)
        ensures
            match r {
                Ok(t) => spec_type_of_name(other@, span) == Ok::<Type, errors::ShadowErrorView>(
                    t,
                ),
                Err(e) => spec_type_of_name(other@, span) == Err::<Type, errors::ShadowErrorView>(
                    e@,
                ),
            },
    {
        if text::str_eq(other.as_str(), "int") {
            Ok(Type::Int)
        } else if text::str_eq(other.as_str(), "void") {
            Ok(Type::Void)
        } else if text::str_eq(other.as_str(), "bool") {
            Ok(Type::Bool)
        } else {
            Err(
                errors::ShadowError::from_pos(
                    errors::ErrType::Lex(errors::LexErrors::UnrecognisedType(other)),
                    span,
                ),
            )
        }
    }
}

} // verus!
