//! The parser: recursive-descent statement parsing combined with a
//! precedence-climbing expression parser, producing a span-annotated,
//! untyped syntax tree, and failing fast on the first structural violation.

use vstd::prelude::*;

use crate::errors::{ErrType, ErrTypeView, ParseErrors, ParseErrorsView, ShadowError,
    ShadowErrorView};
use crate::lex::{Keywords, Lexeme, LexemeTypeView, LexemeTypes, LexemeView, Literals};
use crate::{Span, Spanned, SpannedView};

verus! {

/// Binary arithmetic operators.
#[derive(Debug, Clone, Copy, PartialEq, Eq, Structural)]
pub enum BinOpTypes {
    Add,
    Sub,
    Div,
    Mul,
}

/// Comparison operators.
#[derive(Debug, Clone, Copy, PartialEq, Eq, Structural)]
pub enum CompTypes {
    Equal,
    NotEqual,
    LessThan,
    LessThanEqualTo,
    GreaterThan,
    GreaterThanEqualTo,
}

/// An untyped expression. Expressions own their sub-expressions: a tree with
/// no sharing and no cycles. Grouping keeps its own node so that source
/// spans stay exact.
#[derive(Debug)]
pub enum Expression {
    IntLit(i64),
    BoolLit(bool),
    Variable(String),
    FnCall(String, Vec<Spanned<Expression>>),
    BinOp(Spanned<Box<Expression>>, BinOpTypes, Spanned<Box<Expression>>),
    Comp(Spanned<Box<Expression>>, CompTypes, Spanned<Box<Expression>>),
    Group(Spanned<Box<Expression>>),
}

/// The mathematical model of an untyped expression.
pub enum ExpressionView {
    IntLit(i64),
    BoolLit(bool),
    Variable(Seq<char>),
    FnCall(Seq<char>, Seq<SpannedView<ExpressionView>>),
    BinOp(Box<SpannedView<ExpressionView>>, BinOpTypes, Box<SpannedView<ExpressionView>>),
    Comp(Box<SpannedView<ExpressionView>>, CompTypes, Box<SpannedView<ExpressionView>>),
    Group(Box<SpannedView<ExpressionView>>),
}

/// The model of an expression tree.
pub open spec fn view_expr(e: &Expression) -> ExpressionView
    decreases e,
{
    match e {
        Expression::IntLit(n) => ExpressionView::IntLit(*n),
        Expression::BoolLit(b) => ExpressionView::BoolLit(*b),
        Expression::Variable(s) => ExpressionView::Variable(s@),
        Expression::FnCall(s, args) => ExpressionView::FnCall(s@, view_expr_list(args@)),
        Expression::BinOp(l, op, r) => ExpressionView::BinOp(
            Box::new(SpannedView { inner: view_expr(&l.inner), span: l.span }),
            *op,
            Box::new(SpannedView { inner: view_expr(&r.inner), span: r.span }),
        ),
        Expression::Comp(l, op, r) => ExpressionView::Comp(
            Box::new(SpannedView { inner: view_expr(&l.inner), span: l.span }),
            *op,
            Box::new(SpannedView { inner: view_expr(&r.inner), span: r.span }),
        ),
        Expression::Group(g) => ExpressionView::Group(
            Box::new(SpannedView { inner: view_expr(&g.inner), span: g.span }),
        ),
    }
}

/// The model of a list of spanned argument expressions.
pub open spec fn view_expr_list(args: Seq<Spanned<Expression>>) -> Seq<
    SpannedView<ExpressionView>,
>
    decreases args,
{
    if args.len() == 0 {
        Seq::empty()
    } else {
        view_expr_list(args.drop_last()).push(
            SpannedView { inner: view_expr(&args.last().inner), span: args.last().span },
        )
    }
}

impl View for Expression {
    type V = ExpressionView;

    open spec fn view(&self) -> ExpressionView {
        view_expr(self)
    }
}

/// Whether an expression is a closed arithmetic computation that folds to
/// one integer: literals and the four operators only, every intermediate
/// value within the integer range, and divisions by positive divisors of
/// non-negative dividends.
pub open spec fn evaluable(e: ExpressionView) -> bool
    decreases e,
{
    match e {
        ExpressionView::IntLit(_) => true,
        ExpressionView::Group(g) => evaluable(g.inner),
        ExpressionView::BinOp(l, op, r) => evaluable(l.inner) && evaluable(r.inner) && (op
            == BinOpTypes::Div ==> spec_eval(l.inner) >= 0 && spec_eval(r.inner) > 0)
            && i64::MIN <= spec_eval(e) <= i64::MAX,
        _ => false,
    }
}

/// The value of a closed arithmetic expression.
pub open spec fn spec_eval(e: ExpressionView) -> int
    decreases e,
{
    match e {
        ExpressionView::IntLit(n) => n as int,
        ExpressionView::Group(g) => spec_eval(g.inner),
        ExpressionView::BinOp(l, op, r) => match op {
            BinOpTypes::Add => spec_eval(l.inner) + spec_eval(r.inner),
            BinOpTypes::Sub => spec_eval(l.inner) - spec_eval(r.inner),
            BinOpTypes::Mul => spec_eval(l.inner) * spec_eval(r.inner),
            BinOpTypes::Div => spec_eval(l.inner) / spec_eval(r.inner),
        },
        _ => 0,
    }
}

impl Expression {
    /// Folds a closed arithmetic expression to its value.
    pub fn eval(&self) -> (r: i64)
        requires
            evaluable(view_expr(self)),
        ensures
            r as int == spec_eval(view_expr(self)),
        decreases self,
    {
        match self {
            Expression::IntLit(n) => *n,
            Expression::Group(g) => g.inner.eval(),
            Expression::BinOp(l, op, r) => {
                let lv = l.inner.eval();
                let rv = r.inner.eval();
                match op {
                    BinOpTypes::Add => lv + rv,
                    BinOpTypes::Sub => lv - rv,
                    BinOpTypes::Mul => lv * rv,
                    BinOpTypes::Div => lv / rv,
                }
            },
            _ => {
                proof {
                    assert(false);
                }
                0
            },
        }
    }
}

/// A block is an ordered sequence of statements; order is program order.
pub type SyntaxBlock = Vec<SyntaxNode>;

/// An untyped statement.
#[derive(Debug)]
pub enum SyntaxNodeType {
    Function {
        name: Spanned<String>,
        params: Vec<(Spanned<String>, Spanned<String>)>,
        rty: Spanned<String>,
        body: SyntaxBlock,
    },
    Return { expr: Spanned<Option<Expression>> },
    VDec { init: Spanned<Expression>, name: Spanned<String> },
    VRes { new: Spanned<Expression>, name: Spanned<String> },
    StandFnCall { name: Spanned<String>, args: Vec<Spanned<Expression>> },
    If {
        cond: Spanned<Expression>,
        body: SyntaxBlock,
        else_block: Option<SyntaxBlock>,
        else_ifs: Vec<(Spanned<Expression>, SyntaxBlock)>,
    },
    Loop { body: SyntaxBlock },
    Break,
    Continue,
}

/// An untyped statement with its source range.
#[derive(Debug)]
pub struct SyntaxNode {
    pub ty: SyntaxNodeType,
    pub span: Span,
}

impl SyntaxNode {
    pub fn new(ty: SyntaxNodeType, span: Span) -> (r: SyntaxNode)
        ensures
            r.ty == ty,
            r.span == span,
    {
        SyntaxNode { ty, span }
    }
}

/// The mathematical model of an untyped statement.
pub enum SyntaxNodeTypeView {
    Function {
        name: SpannedView<Seq<char>>,
        params: Seq<(SpannedView<Seq<char>>, SpannedView<Seq<char>>)>,
        rty: SpannedView<Seq<char>>,
        body: Seq<SyntaxNodeView>,
    },
    Return { expr: SpannedView<Option<ExpressionView>> },
    VDec { init: SpannedView<ExpressionView>, name: SpannedView<Seq<char>> },
    VRes { new: SpannedView<ExpressionView>, name: SpannedView<Seq<char>> },
    StandFnCall { name: SpannedView<Seq<char>>, args: Seq<SpannedView<ExpressionView>> },
    If {
        cond: SpannedView<ExpressionView>,
        body: Seq<SyntaxNodeView>,
        else_block: Option<Seq<SyntaxNodeView>>,
        else_ifs: Seq<(SpannedView<ExpressionView>, Seq<SyntaxNodeView>)>,
    },
    Loop { body: Seq<SyntaxNodeView> },
    Break,
    Continue,
}

/// The model of an untyped statement with its source range.
pub struct SyntaxNodeView {
    pub ty: SyntaxNodeTypeView,
    pub span: Span,
}

/// The model of a spanned name.
pub open spec fn view_name(x: &Spanned<String>) -> SpannedView<Seq<char>> {
    SpannedView { inner: x.inner@, span: x.span }
}

/// The model of a spanned expression.
pub open spec fn view_spanned_expr(x: &Spanned<Expression>) -> SpannedView<ExpressionView> {
    SpannedView { inner: view_expr(&x.inner), span: x.span }
}

/// The model of a parameter list: pairs of a spanned type name and a
/// spanned parameter name.
pub open spec fn view_params(params: Seq<(Spanned<String>, Spanned<String>)>) -> Seq<
    (SpannedView<Seq<char>>, SpannedView<Seq<char>>),
> {
    params.map_values(|p: (Spanned<String>, Spanned<String>)| (view_name(&p.0), view_name(&p.1)))
}

/// The model of one statement.
pub open spec fn view_node(n: &SyntaxNode) -> SyntaxNodeView
    decreases n,
{
    SyntaxNodeView { ty: view_node_ty(&n.ty), span: n.span }
}

/// The model of one statement body.
pub open spec fn view_node_ty(t: &SyntaxNodeType) -> SyntaxNodeTypeView
    decreases t,
{
    match t {
        SyntaxNodeType::Function { name, params, rty, body } => SyntaxNodeTypeView::Function {
            name: view_name(name),
            params: view_params(params@),
            rty: view_name(rty),
            body: view_block(body@),
        },
        SyntaxNodeType::Return { expr } => SyntaxNodeTypeView::Return {
            expr: SpannedView {
                inner: match &expr.inner {
                    Some(e) => Some(view_expr(e)),
                    None => None,
                },
                span: expr.span,
            },
        },
        SyntaxNodeType::VDec { init, name } => SyntaxNodeTypeView::VDec {
            init: view_spanned_expr(init),
            name: view_name(name),
        },
        SyntaxNodeType::VRes { new, name } => SyntaxNodeTypeView::VRes {
            new: view_spanned_expr(new),
            name: view_name(name),
        },
        SyntaxNodeType::StandFnCall { name, args } => SyntaxNodeTypeView::StandFnCall {
            name: view_name(name),
            args: view_expr_list(args@),
        },
        SyntaxNodeType::If { cond, body, else_block, else_ifs } => SyntaxNodeTypeView::If {
            cond: view_spanned_expr(cond),
            body: view_block(body@),
            else_block: match else_block {
                Some(b) => Some(view_block(b@)),
                None => None,
            },
            else_ifs: view_elifs(else_ifs@),
        },
        SyntaxNodeType::Loop { body } => SyntaxNodeTypeView::Loop { body: view_block(body@) },
        SyntaxNodeType::Break => SyntaxNodeTypeView::Break,
        SyntaxNodeType::Continue => SyntaxNodeTypeView::Continue,
    }
}

/// The model of a block of statements.
pub open spec fn view_block(b: Seq<SyntaxNode>) -> Seq<SyntaxNodeView>
    decreases b,
{
    if b.len() == 0 {
        Seq::empty()
    } else {
        view_block(b.drop_last()).push(view_node(&b.last()))
    }
}

/// The model of a chain of `else if` arms.
pub open spec fn view_elifs(e: Seq<(Spanned<Expression>, SyntaxBlock)>) -> Seq<
    (SpannedView<ExpressionView>, Seq<SyntaxNodeView>),
>
    decreases e,
{
    if e.len() == 0 {
        Seq::empty()
    } else {
        view_elifs(e.drop_last()).push(
            (view_spanned_expr(&e.last().0), view_block(e.last().1@)),
        )
    }
}

impl View for SyntaxNode {
    type V = SyntaxNodeView;

    open spec fn view(&self) -> SyntaxNodeView {
        view_node(self)
    }
}

// ---------------------------------------------------------------------------
// The parse buffer and its primitive operations
// ---------------------------------------------------------------------------

/// The token stream under parsing: the lexemes and the position of the next
/// one to read.
#[derive(Debug)]
pub struct ParseBuffer {
    toks: Vec<Lexeme>,
    pos: usize,
}

/// The mathematical model of the parse buffer.
pub struct ParseBufferView {
    pub toks: Seq<LexemeView>,
    pub pos: int,
}

/// The views of a sequence of lexemes.
pub open spec fn view_toks(v: Seq<Lexeme>) -> Seq<LexemeView> {
    v.map_values(|l: Lexeme| l@)
}

impl View for ParseBuffer {
    type V = ParseBufferView;

    closed spec fn view(&self) -> ParseBufferView {
        ParseBufferView { toks: view_toks(self.toks@), pos: self.pos as int }
    }
}

/// The error for a read past the end of the stream, pointed at the last
/// lexeme.
pub open spec fn exhausted_err(t: Seq<LexemeView>) -> ShadowErrorView {
    ShadowErrorView {
        ty: ErrTypeView::Parse(ParseErrorsView::TokenStreamExhausted),
        span: t.last().span,
    }
}

/// The next lexeme, without consuming it.
pub open spec fn spec_peek(t: Seq<LexemeView>, i: int) -> Result<LexemeView, ShadowErrorView> {
    if 0 <= i < t.len() {
        Ok(t[i])
    } else {
        Err(exhausted_err(t))
    }
}

/// The next lexeme and the position after it.
pub open spec fn spec_pop(t: Seq<LexemeView>, i: int) -> Result<
    (LexemeView, int),
    ShadowErrorView,
> {
    if 0 <= i < t.len() {
        Ok((t[i], i + 1))
    } else {
        Err(exhausted_err(t))
    }
}

/// The next lexeme when it is of the given type, an `UnexpectedToken` error
/// otherwise.
pub open spec fn spec_consume(t: Seq<LexemeView>, i: int, ty: LexemeTypeView) -> Result<
    (LexemeView, int),
    ShadowErrorView,
> {
    match spec_pop(t, i) {
        Ok((l, j)) => if l.ty == ty {
            Ok((l, j))
        } else {
            Err(
                ShadowErrorView {
                    ty: ErrTypeView::Parse(ParseErrorsView::UnexpectedToken(l.ty, ty)),
                    span: l.span,
                },
            )
        },
        Err(e) => Err(e),
    }
}

/// The next lexeme when it is an identifier, with its name.
pub open spec fn spec_eat_idn(t: Seq<LexemeView>, i: int) -> Result<
    ((Seq<char>, LexemeView), int),
    ShadowErrorView,
> {
    match spec_pop(t, i) {
        Ok((l, j)) => match l.ty {
            LexemeTypeView::Idn(s) => Ok(((s, l), j)),
            _ => Err(
                ShadowErrorView {
                    ty: ErrTypeView::Parse(
                        ParseErrorsView::UnexpectedToken(l.ty, expected_idn()),
                    ),
                    span: l.span,
                },
            ),
        },
        Err(e) => Err(e),
    }
}

impl ParseBuffer {
    /// The buffer is sound: it holds at least one lexeme and the position
    /// has not run past the end.
    pub open spec fn wf(&self) -> bool {
        0 < self@.toks.len() && 0 <= self@.pos <= self@.toks.len()
    }

    pub fn new(lexemes: Vec<Lexeme>) -> (r: ParseBuffer)
        requires
            lexemes@.len() > 0,
        ensures
            r.wf(),
            r@.toks == view_toks(lexemes@),
            r@.pos == 0,
    {
        ParseBuffer { toks: lexemes, pos: 0 }
    }

    fn done(&self) -> (r: bool)
        requires
            self.wf(),
        ensures
            r == (self@.pos == self@.toks.len()),
    {
        self.pos == self.toks.len()
    }

    /// The span of the last lexeme, for errors past the end of the stream.
    fn last_span(&self) -> (r: Span)
        requires
            self.wf(),
        ensures
            r == self@.toks.last().span,
    {
        self.toks[self.toks.len() - 1].span
    }

    fn peek(&self) -> (r: Result<Lexeme, ShadowError>)
        requires
            self.wf(),
        ensures
            match r {
                Ok(l) => spec_peek(self@.toks, self@.pos) == Ok::<LexemeView, ShadowErrorView>(
                    l@,
                ),
                Err(e) => spec_peek(self@.toks, self@.pos) == Err::<LexemeView, ShadowErrorView>(
                    e@,
                ),
            },
    {
        if self.pos < self.toks.len() {
            Ok(self.toks[self.pos].clone())
        } else {
            Err(
                ShadowError::from_pos(
                    ErrType::Parse(ParseErrors::TokenStreamExhausted),
                    self.last_span(),
                ),
            )
        }
    }

    fn pop(&mut self) -> (r: Result<Lexeme, ShadowError>)
        requires
            old(self).wf(),
        ensures
            final(self).wf(),
            final(self)@.toks == old(self)@.toks,
            match r {
                Ok(l) => spec_pop(old(self)@.toks, old(self)@.pos) == Ok::<
                    (LexemeView, int),
                    ShadowErrorView,
                >((l@, final(self)@.pos)) && final(self)@.pos == old(self)@.pos + 1,
                Err(e) => spec_pop(old(self)@.toks, old(self)@.pos) == Err::<
                    (LexemeView, int),
                    ShadowErrorView,
                >(e@) && final(self)@.pos == old(self)@.pos,
            },
    {
        if self.pos < self.toks.len() {
            let l = self.toks[self.pos].clone();
            self.pos = self.pos + 1;
            Ok(l)
        } else {
            Err(
                ShadowError::from_pos(
                    ErrType::Parse(ParseErrors::TokenStreamExhausted),
                    self.last_span(),
                ),
            )
        }
    }

    fn consume(&mut self, ty: LexemeTypes) -> (r: Result<Lexeme, ShadowError>)
        requires
            old(self).wf(),
        ensures
            final(self).wf(),
            final(self)@.toks == old(self)@.toks,
            final(self)@.pos >= old(self)@.pos,
            match r {
                Ok(l) => spec_consume(old(self)@.toks, old(self)@.pos, ty@) == Ok::<
                    (LexemeView, int),
                    ShadowErrorView,
                >((l@, final(self)@.pos)) && final(self)@.pos == old(self)@.pos + 1,
                Err(e) => spec_consume(old(self)@.toks, old(self)@.pos, ty@) == Err::<
                    (LexemeView, int),
                    ShadowErrorView,
                >(e@),
            },
    {
        match self.pop() {
            Ok(tk) => {
                if tk.ty == ty {
                    Ok(tk)
                } else {
                    let span = tk.span;
                    Err(
                        ShadowError::from_pos(
                            ErrType::Parse(ParseErrors::UnexpectedToken(tk.ty, ty)),
                            span,
                        ),
                    )
                }
            },
            Err(e) => Err(e),
        }
    }

    fn eat_idn(&mut self) -> (r: Result<(String, Lexeme), ShadowError>)
        requires
            old(self).wf(),
        ensures
            final(self).wf(),
            final(self)@.toks == old(self)@.toks,
            final(self)@.pos >= old(self)@.pos,
            match r {
                Ok(p) => spec_eat_idn(old(self)@.toks, old(self)@.pos) == Ok::<
                    ((Seq<char>, LexemeView), int),
                    ShadowErrorView,
                >(((p.0@, p.1@), final(self)@.pos)) && final(self)@.pos == old(self)@.pos + 1,
                Err(e) => spec_eat_idn(old(self)@.toks, old(self)@.pos) == Err::<
                    ((Seq<char>, LexemeView), int),
                    ShadowErrorView,
                >(e@),
            },
    {
        match self.pop() {
            Ok(tk) => {
                match &tk.ty {
                    LexemeTypes::Idn(s) => {
                        let name = s.clone();
                        Ok((name, tk))
                    },
                    _ => {
                        let span = tk.span;
                        Err(
                            ShadowError::from_pos(
                                ErrType::Parse(
                                    ParseErrors::UnexpectedToken(
                                        tk.ty,
                                        LexemeTypes::Idn(String::from_str("<idn>")),
                                    ),
                                ),
                                span,
                            ),
                        )
                    },
                }
            },
            Err(e) => Err(e),
        }
    }
}

// ---------------------------------------------------------------------------
// Expression parsing: precedence climbing
// ---------------------------------------------------------------------------

/// The binding power of an infix operator; zero for any other lexeme. Ties
/// favour left-associativity, and relational operators bind loosest as a
/// deliberate contract: `a + b < c` is `(a + b) < c`.
pub open spec fn spec_prec(ty: LexemeTypeView) -> u64 {
    match ty {
        LexemeTypeView::Cross | LexemeTypeView::Dash => 10,
        LexemeTypeView::Asterisk | LexemeTypeView::FSlash => 20,
        LexemeTypeView::AngleLeft | LexemeTypeView::AngleRight | LexemeTypeView::Bang
            | LexemeTypeView::Equals => 5,
        _ => 0,
    }
}

impl LexemeTypes {
    fn prec(&self) -> (r: u64)
        ensures
            r == spec_prec(self@),
    {
        match self {
            LexemeTypes::Cross | LexemeTypes::Dash => 10,
            LexemeTypes::Asterisk | LexemeTypes::FSlash => 20,
            LexemeTypes::AngleLeft | LexemeTypes::AngleRight | LexemeTypes::Bang
                | LexemeTypes::Equals => 5,
            _ => 0,
        }
    }
}

/// The arithmetic operator a lexeme stands for, if any.
pub open spec fn spec_binop(ty: LexemeTypeView) -> Option<BinOpTypes> {
    match ty {
        LexemeTypeView::Cross => Some(BinOpTypes::Add),
        LexemeTypeView::Dash => Some(BinOpTypes::Sub),
        LexemeTypeView::Asterisk => Some(BinOpTypes::Mul),
        LexemeTypeView::FSlash => Some(BinOpTypes::Div),
        _ => None,
    }
}

fn binop_of(ty: &LexemeTypes) -> (r: Option<BinOpTypes>)
    ensures
        r == spec_binop(ty@),
{
    match ty {
        LexemeTypes::Cross => Some(BinOpTypes::Add),
        LexemeTypes::Dash => Some(BinOpTypes::Sub),
        LexemeTypes::Asterisk => Some(BinOpTypes::Mul),
        LexemeTypes::FSlash => Some(BinOpTypes::Div),
        _ => None,
    }
}

/// Whether a lexeme begins a comparison operator.
pub open spec fn spec_is_comp_start(ty: LexemeTypeView) -> bool {
    ty is Equals || ty is Bang || ty is AngleLeft || ty is AngleRight
}

fn is_comp_start(ty: &LexemeTypes) -> (r: bool)
    ensures
        r == spec_is_comp_start(ty@),
{
    match ty {
        LexemeTypes::Equals | LexemeTypes::Bang | LexemeTypes::AngleLeft
            | LexemeTypes::AngleRight => true,
        _ => false,
    }
}

/// The combined range of two spans: the start of the first with the end of
/// the second.
pub open spec fn spec_from_to(a: Span, b: Span) -> Span {
    Span { line: a.line, column: a.column, end_line: b.end_line, end_col: b.end_col }
}

/// A sentinel for recursion bounds that the parser never reaches: every
/// parsing step consumes at least one lexeme, and this value keeps the
/// defining recursion well-founded on the cases that never arise.
pub open spec fn spec_parse_halt() -> ShadowErrorView {
    ShadowErrorView {
        ty: ErrTypeView::Parse(ParseErrorsView::TokenStreamExhausted),
        span: Span { line: 0, column: 0, end_line: 0, end_col: 0 },
    }
}

/// The comparison operator begun by `next`, consuming a following `=` where
/// one belongs to it.
pub open spec fn spec_parse_comp(t: Seq<LexemeView>, i: int, next: LexemeView) -> Result<
    (CompTypes, int),
    ShadowErrorView,
> {
    match next.ty {
        LexemeTypeView::AngleRight => match spec_peek(t, i) {
            Ok(l) => if l.ty == LexemeTypeView::Equals {
                Ok((CompTypes::GreaterThanEqualTo, i + 1))
            } else {
                Ok((CompTypes::GreaterThan, i))
            },
            Err(e) => Err(e),
        },
        LexemeTypeView::AngleLeft => match spec_peek(t, i) {
            Ok(l) => if l.ty == LexemeTypeView::Equals {
                Ok((CompTypes::LessThanEqualTo, i + 1))
            } else {
                Ok((CompTypes::LessThan, i))
            },
            Err(e) => Err(e),
        },
        LexemeTypeView::Equals => match spec_consume(t, i, LexemeTypeView::Equals) {
            Ok((l, j)) => Ok((CompTypes::Equal, j)),
            Err(e) => Err(e),
        },
        LexemeTypeView::Bang => match spec_consume(t, i, LexemeTypeView::Equals) {
            Ok((l, j)) => Ok((CompTypes::NotEqual, j)),
            Err(e) => Err(e),
        },
        _ => Err(
            ShadowErrorView {
                ty: ErrTypeView::Parse(ParseErrorsView::UnknownInfixOperator(next.ty)),
                span: next.span,
            },
        ),
    }
}

/// The null denotation: the expression begun by the already-popped lexeme
/// `next`, read from position `i`.
pub open spec fn spec_nud(t: Seq<LexemeView>, i: int, next: LexemeView) -> Result<
    (SpannedView<ExpressionView>, int),
    ShadowErrorView,
>
    decreases t.len() - i, 3int,
{
    match next.ty {
        LexemeTypeView::Literal(Literals::Boolean(b)) => Ok(
            (SpannedView { inner: ExpressionView::BoolLit(b), span: next.span }, i),
        ),
        LexemeTypeView::Literal(Literals::Integer(n)) => Ok(
            (SpannedView { inner: ExpressionView::IntLit(n), span: next.span }, i),
        ),
        LexemeTypeView::Idn(name) => Ok(
            (SpannedView { inner: ExpressionView::Variable(name), span: next.span }, i),
        ),
        LexemeTypeView::OpenParen => match spec_parse_expr_bp(t, i, 0) {
            Ok((expr, j)) => match spec_consume(t, j, LexemeTypeView::CloseParen) {
                Ok((close, k)) => Ok(
                    (
                        SpannedView {
                            inner: ExpressionView::Group(
                                Box::new(
                                    SpannedView {
                                        inner: expr.inner,
                                        span: spec_from_to(next.span, close.span),
                                    },
                                ),
                            ),
                            span: next.span,
                        },
                        k,
                    ),
                ),
                Err(e) => Err(e),
            },
            Err(e) => Err(e),
        },
        _ => Err(
            ShadowErrorView {
                ty: ErrTypeView::Parse(ParseErrorsView::InvalidExpressionStart(next.ty)),
                span: next.span,
            },
        ),
    }
}

/// The left denotation: one infix operator applied to `left` and the
/// expression to the operator's right.
pub open spec fn spec_led(t: Seq<LexemeView>, i: int, left: SpannedView<ExpressionView>) -> Result<
    (SpannedView<ExpressionView>, int),
    ShadowErrorView,
>
    decreases t.len() - i, 3int,
{
    match spec_pop(t, i) {
        Err(e) => Err(e),
        Ok((next, j)) => match spec_binop(next.ty) {
            Some(op) => match spec_parse_expr_bp(t, j, spec_prec(next.ty)) {
                Ok((right, k)) => Ok(
                    (
                        SpannedView {
                            inner: ExpressionView::BinOp(Box::new(left), op, Box::new(right)),
                            span: spec_from_to(left.span, right.span),
                        },
                        k,
                    ),
                ),
                Err(e) => Err(e),
            },
            None => if spec_is_comp_start(next.ty) {
                match spec_parse_comp(t, j, next) {
                    Ok((cmp, j2)) => match spec_parse_expr_bp(t, j2, spec_prec(next.ty)) {
                        Ok((right, k)) => Ok(
                            (
                                SpannedView {
                                    inner: ExpressionView::Comp(
                                        Box::new(left),
                                        cmp,
                                        Box::new(right),
                                    ),
                                    span: spec_from_to(left.span, right.span),
                                },
                                k,
                            ),
                        ),
                        Err(e) => Err(e),
                    },
                    Err(e) => Err(e),
                }
            } else {
                Err(
                    ShadowErrorView {
                        ty: ErrTypeView::Parse(ParseErrorsView::UnknownInfixOperator(next.ty)),
                        span: next.span,
                    },
                )
            },
        },
    }
}

/// Folds infix operators into `left` while the next operator binds tighter
/// than `rbp`.
pub open spec fn spec_led_loop(
    t: Seq<LexemeView>,
    i: int,
    left: SpannedView<ExpressionView>,
    rbp: u64,
) -> Result<(SpannedView<ExpressionView>, int), ShadowErrorView>
    decreases t.len() - i, 4int,
{
    match spec_peek(t, i) {
        Err(e) => Err(e),
        Ok(l) => if spec_prec(l.ty) > rbp {
            match spec_led(t, i, left) {
                Ok((left2, j)) => if i < j <= t.len() {
                    spec_led_loop(t, j, left2, rbp)
                } else {
                    Err(spec_parse_halt())
                },
                Err(e) => Err(e),
            }
        } else {
            Ok((left, i))
        },
    }
}

/// The expression at position `i`, read with right binding power `rbp`.
pub open spec fn spec_parse_expr_bp(t: Seq<LexemeView>, i: int, rbp: u64) -> Result<
    (SpannedView<ExpressionView>, int),
    ShadowErrorView,
>
    decreases t.len() - i, 2int,
{
    match spec_pop(t, i) {
        Err(e) => Err(e),
        Ok((next, j)) => match spec_nud(t, j, next) {
            Ok((left, k)) => if i < k <= t.len() {
                spec_led_loop(t, k, left, rbp)
            } else {
                Err(spec_parse_halt())
            },
            Err(e) => Err(e),
        },
    }
}

/// The expression at position `i`.
pub open spec fn spec_parse_expr(t: Seq<LexemeView>, i: int) -> Result<
    (SpannedView<ExpressionView>, int),
    ShadowErrorView,
>
    decreases t.len() - i, 5int,
{
    spec_parse_expr_bp(t, i, 0)
}

// ---------------------------------------------------------------------------
// Statement parsing: the specification
// ---------------------------------------------------------------------------

/// The placeholder that an error reports where an identifier was expected.
pub open spec fn expected_idn() -> LexemeTypeView {
    LexemeTypeView::Idn("<idn>"@)
}

/// The placeholder that an error reports where a statement was expected.
pub open spec fn expected_stmt() -> LexemeTypeView {
    LexemeTypeView::Idn("<statement>"@)
}

/// The parameter list of a function definition: `type name` pairs separated
/// by commas, ending before the closing parenthesis. A trailing comma is not
/// permitted.
pub open spec fn spec_parse_params(t: Seq<LexemeView>, i: int) -> Result<
    (Seq<(SpannedView<Seq<char>>, SpannedView<Seq<char>>)>, int),
    ShadowErrorView,
>
    decreases t.len() - i, 6int,
{
    if !(0 <= i < t.len()) {
        Ok((Seq::empty(), i))
    } else if t[i].ty is Idn {
        match spec_eat_idn(t, i) {
            Ok(((tys, tyl), j)) => match spec_eat_idn(t, j) {
                Ok(((nms, nml), k)) => {
                    let pair = (
                        SpannedView { inner: tys, span: tyl.span },
                        SpannedView { inner: nms, span: nml.span },
                    );
                    if 0 <= k < t.len() && t[k].ty is Comma {
                        // a comma promises one more parameter: a trailing
                        // comma is not permitted
                        match spec_eat_idn(t, k + 1) {
                            Err(e) => Err(e),
                            Ok(_) => match spec_parse_params(t, k + 1) {
                                Ok((rest, m)) => Ok((seq![pair] + rest, m)),
                                Err(e) => Err(e),
                            },
                        }
                    } else {
                        Ok((seq![pair], k))
                    }
                },
                Err(e) => Err(e),
            },
            Err(e) => Err(e),
        }
    } else {
        Ok((Seq::empty(), i))
    }
}

/// The comma-separated argument expressions of a call, at least one.
pub open spec fn spec_parse_args(t: Seq<LexemeView>, i: int) -> Result<
    (Seq<SpannedView<ExpressionView>>, int),
    ShadowErrorView,
>
    decreases t.len() - i, 6int,
{
    match spec_parse_expr(t, i) {
        Ok((a, j)) => match spec_peek(t, j) {
            Ok(l) => if l.ty is Comma {
                if i < j + 1 <= t.len() {
                    match spec_parse_args(t, j + 1) {
                        Ok((rest, m)) => Ok((seq![a] + rest, m)),
                        Err(e) => Err(e),
                    }
                } else {
                    Err(spec_parse_halt())
                }
            } else {
                Ok((seq![a], j))
            },
            Err(e) => Err(e),
        },
        Err(e) => Err(e),
    }
}

/// A function definition:
/// `fn <type> <name> ( [<type> <name>] , ... ) { <block> }`.
pub open spec fn spec_parse_fndef(t: Seq<LexemeView>, i: int) -> Result<
    (SyntaxNodeView, int),
    ShadowErrorView,
>
    decreases t.len() - i, 7int,
{
    match spec_consume(t, i, LexemeTypeView::Keyword(Keywords::Fn)) {
        Err(e) => Err(e),
        Ok((fnl, i1)) => match spec_eat_idn(t, i1) {
            Err(e) => Err(e),
            Ok(((tys, tyl), i2)) => match spec_eat_idn(t, i2) {
                Err(e) => Err(e),
                Ok(((nms, nml), i3)) => match spec_consume(t, i3, LexemeTypeView::OpenParen) {
                    Err(e) => Err(e),
                    Ok((_op, i4)) => match spec_parse_params(t, i4) {
                        Err(e) => Err(e),
                        Ok((params, i5)) => match spec_consume(
                            t,
                            i5,
                            LexemeTypeView::CloseParen,
                        ) {
                            Err(e) => Err(e),
                            Ok((cpl, i6)) => match spec_consume(
                                t,
                                i6,
                                LexemeTypeView::OpenBrace,
                            ) {
                                Err(e) => Err(e),
                                Ok((_ob, i7)) => if i < i7 <= t.len() {
                                    match spec_parse_block(t, i7) {
                                        Err(e) => Err(e),
                                        Ok((body, i8)) => match spec_consume(
                                            t,
                                            i8,
                                            LexemeTypeView::CloseBrace,
                                        ) {
                                            Err(e) => Err(e),
                                            Ok((_cb, i9)) => Ok(
                                                (
                                                    SyntaxNodeView {
                                                        ty: SyntaxNodeTypeView::Function {
                                                            name: SpannedView {
                                                                inner: nms,
                                                                span: nml.span,
                                                            },
                                                            params,
                                                            rty: SpannedView {
                                                                inner: tys,
                                                                span: tyl.span,
                                                            },
                                                            body,
                                                        },
                                                        span: spec_from_to(fnl.span, cpl.span),
                                                    },
                                                    i9,
                                                ),
                                            ),
                                        },
                                    }
                                } else {
                                    Err(spec_parse_halt())
                                },
                            },
                        },
                    },
                },
            },
        },
    }
}

/// A return statement: `return [<expr>] ;`.
pub open spec fn spec_parse_return(t: Seq<LexemeView>, i: int) -> Result<
    (SyntaxNodeView, int),
    ShadowErrorView,
>
    decreases t.len() - i, 7int,
{
    match spec_consume(t, i, LexemeTypeView::Keyword(Keywords::Return)) {
        Err(e) => Err(e),
        Ok((retl, i1)) => match spec_peek(t, i1) {
            Err(e) => Err(e),
            Ok(l) => if l.ty is Semicolon {
                match spec_consume(t, i1, LexemeTypeView::Semicolon) {
                    Err(e) => Err(e),
                    Ok((_sc, i2)) => Ok(
                        (
                            SyntaxNodeView {
                                ty: SyntaxNodeTypeView::Return {
                                    expr: SpannedView { inner: None, span: retl.span },
                                },
                                span: spec_from_to(retl.span, retl.span),
                            },
                            i2,
                        ),
                    ),
                }
            } else {
                match spec_parse_expr(t, i1) {
                    Err(e) => Err(e),
                    Ok((e, i2)) => match spec_consume(t, i2, LexemeTypeView::Semicolon) {
                        Err(er) => Err(er),
                        Ok((_sc, i3)) => Ok(
                            (
                                SyntaxNodeView {
                                    ty: SyntaxNodeTypeView::Return {
                                        expr: SpannedView {
                                            inner: Some(e.inner),
                                            span: e.span,
                                        },
                                    },
                                    span: spec_from_to(retl.span, retl.span),
                                },
                                i3,
                            ),
                        ),
                    },
                }
            },
        },
    }
}

/// A variable declaration: `let <name> = <expr> ;`.
pub open spec fn spec_parse_vdec(t: Seq<LexemeView>, i: int) -> Result<
    (SyntaxNodeView, int),
    ShadowErrorView,
>
    decreases t.len() - i, 7int,
{
    match spec_consume(t, i, LexemeTypeView::Keyword(Keywords::Let)) {
        Err(e) => Err(e),
        Ok((letl, i1)) => match spec_eat_idn(t, i1) {
            Err(e) => Err(e),
            Ok(((nms, nml), i2)) => match spec_consume(t, i2, LexemeTypeView::Equals) {
                Err(e) => Err(e),
                Ok((_eq, i3)) => match spec_parse_expr(t, i3) {
                    Err(e) => Err(e),
                    Ok((init, i4)) => match spec_consume(t, i4, LexemeTypeView::Semicolon) {
                        Err(e) => Err(e),
                        Ok((endl, i5)) => Ok(
                            (
                                SyntaxNodeView {
                                    ty: SyntaxNodeTypeView::VDec {
                                        init,
                                        name: SpannedView { inner: nms, span: nml.span },
                                    },
                                    span: spec_from_to(letl.span, endl.span),
                                },
                                i5,
                            ),
                        ),
                    },
                },
            },
        },
    }
}

/// The `else if` arms and optional final `else` of a conditional, in source
/// order; `end0` is the closing brace span read so far. Yields the arms, the
/// else block if one stands, and the span of the last closing brace.
pub open spec fn spec_parse_elifs(t: Seq<LexemeView>, i: int, end0: Span) -> Result<
    (
        (
            Seq<(SpannedView<ExpressionView>, Seq<SyntaxNodeView>)>,
            Option<Seq<SyntaxNodeView>>,
            Span,
        ),
        int,
    ),
    ShadowErrorView,
>
    decreases t.len() - i, 6int,
{
    match spec_peek(t, i) {
        Err(e) => Err(e),
        Ok(l) => if l.ty == LexemeTypeView::Keyword(Keywords::Else) {
            match spec_peek(t, i + 1) {
                Err(e) => Err(e),
                Ok(l2) => if l2.ty == LexemeTypeView::Keyword(Keywords::If) {
                    match spec_parse_expr(t, i + 2) {
                        Err(e) => Err(e),
                        Ok((cond, j)) => match spec_consume(t, j, LexemeTypeView::OpenBrace) {
                            Err(e) => Err(e),
                            Ok((_ob, j1)) => if i < j1 <= t.len() {
                                match spec_parse_block(t, j1) {
                                    Err(e) => Err(e),
                                    Ok((blk, j2)) => match spec_consume(
                                        t,
                                        j2,
                                        LexemeTypeView::CloseBrace,
                                    ) {
                                        Err(e) => Err(e),
                                        Ok((endl, j3)) => if i < j3 <= t.len() {
                                            match spec_parse_elifs(t, j3, endl.span) {
                                                Err(e) => Err(e),
                                                Ok(((elifs, els, end), m)) => Ok(
                                                    (
                                                        (
                                                            seq![(cond, blk)] + elifs,
                                                            els,
                                                            end,
                                                        ),
                                                        m,
                                                    ),
                                                ),
                                            }
                                        } else {
                                            Err(spec_parse_halt())
                                        },
                                    },
                                }
                            } else {
                                Err(spec_parse_halt())
                            },
                        },
                    }
                } else {
                    match spec_consume(t, i + 1, LexemeTypeView::OpenBrace) {
                        Err(e) => Err(e),
                        Ok((_ob, j1)) => match spec_parse_block(t, j1) {
                            Err(e) => Err(e),
                            Ok((blk, j2)) => match spec_consume(
                                t,
                                j2,
                                LexemeTypeView::CloseBrace,
                            ) {
                                Err(e) => Err(e),
                                Ok((endl, j3)) => if i < j3 <= t.len() {
                                    match spec_parse_elifs(t, j3, endl.span) {
                                        Err(e) => Err(e),
                                        Ok(((elifs, els, end), m)) => Ok(
                                            (
                                                (
                                                    elifs,
                                                    if els is Some {
                                                        els
                                                    } else {
                                                        Some(blk)
                                                    },
                                                    end,
                                                ),
                                                m,
                                            ),
                                        ),
                                    }
                                } else {
                                    Err(spec_parse_halt())
                                },
                            },
                        },
                    }
                },
            }
        } else {
            Ok(((Seq::empty(), None, end0), i))
        },
    }
}

/// A conditional:
/// `if <expr> { <block> } (else if <expr> { <block> })* (else { <block> })?`.
pub open spec fn spec_parse_if(t: Seq<LexemeView>, i: int) -> Result<
    (SyntaxNodeView, int),
    ShadowErrorView,
>
    decreases t.len() - i, 7int,
{
    match spec_consume(t, i, LexemeTypeView::Keyword(Keywords::If)) {
        Err(e) => Err(e),
        Ok((ifl, i1)) => match spec_parse_expr(t, i1) {
            Err(e) => Err(e),
            Ok((cond, i2)) => match spec_consume(t, i2, LexemeTypeView::OpenBrace) {
                Err(e) => Err(e),
                Ok((_ob, i3)) => if i < i3 <= t.len() {
                    match spec_parse_block(t, i3) {
                        Err(e) => Err(e),
                        Ok((body, i4)) => match spec_consume(
                            t,
                            i4,
                            LexemeTypeView::CloseBrace,
                        ) {
                            Err(e) => Err(e),
                            Ok((endl, i5)) => if i < i5 <= t.len() {
                                match spec_parse_elifs(t, i5, endl.span) {
                                    Err(e) => Err(e),
                                    Ok(((elifs, els, end), i6)) => Ok(
                                        (
                                            SyntaxNodeView {
                                                ty: SyntaxNodeTypeView::If {
                                                    cond,
                                                    body,
                                                    else_block: els,
                                                    else_ifs: elifs,
                                                },
                                                span: spec_from_to(ifl.span, end),
                                            },
                                            i6,
                                        ),
                                    ),
                                }
                            } else {
                                Err(spec_parse_halt())
                            },
                        },
                    }
                } else {
                    Err(spec_parse_halt())
                },
            },
        },
    }
}

/// A standalone call statement: `<name> ( [<expr>] , ... ) ;`; the name has
/// already been read.
pub open spec fn spec_parse_fncall(
    t: Seq<LexemeView>,
    i: int,
    name: SpannedView<Seq<char>>,
) -> Result<(SyntaxNodeView, int), ShadowErrorView>
    decreases t.len() - i, 7int,
{
    match spec_consume(t, i, LexemeTypeView::OpenParen) {
        Err(e) => Err(e),
        Ok((_op, i1)) => match spec_peek(t, i1) {
            Err(e) => Err(e),
            Ok(l) => {
                let args_read: Result<(Seq<SpannedView<ExpressionView>>, int), ShadowErrorView> =
                    if l.ty == LexemeTypeView::CloseParen {
                    Ok((Seq::empty(), i1))
                } else {
                    spec_parse_args(t, i1)
                };
                match args_read {
                    Err(e) => Err(e),
                    Ok((args, i2)) => match spec_consume(t, i2, LexemeTypeView::CloseParen) {
                        Err(e) => Err(e),
                        Ok((_cp, i3)) => match spec_consume(t, i3, LexemeTypeView::Semicolon) {
                            Err(e) => Err(e),
                            Ok((endl, i4)) => Ok(
                                (
                                    SyntaxNodeView {
                                        ty: SyntaxNodeTypeView::StandFnCall { name, args },
                                        span: spec_from_to(name.span, endl.span),
                                    },
                                    i4,
                                ),
                            ),
                        },
                    },
                }
            },
        },
    }
}

/// A reassignment statement: `<name> = <expr> ;`; the name has already been
/// read.
pub open spec fn spec_parse_vres(
    t: Seq<LexemeView>,
    i: int,
    name: SpannedView<Seq<char>>,
) -> Result<(SyntaxNodeView, int), ShadowErrorView>
    decreases t.len() - i, 7int,
{
    match spec_consume(t, i, LexemeTypeView::Equals) {
        Err(e) => Err(e),
        Ok((_eq, i1)) => match spec_parse_expr(t, i1) {
            Err(e) => Err(e),
            Ok((new, i2)) => match spec_consume(t, i2, LexemeTypeView::Semicolon) {
                Err(e) => Err(e),
                Ok((endl, i3)) => Ok(
                    (
                        SyntaxNodeView {
                            ty: SyntaxNodeTypeView::VRes { new, name },
                            span: spec_from_to(name.span, endl.span),
                        },
                        i3,
                    ),
                ),
            },
        },
    }
}

/// A statement that starts with an identifier: a standalone call when a `(`
/// follows, a reassignment otherwise.
pub open spec fn spec_parse_idn_start(t: Seq<LexemeView>, i: int) -> Result<
    (SyntaxNodeView, int),
    ShadowErrorView,
>
    decreases t.len() - i, 8int,
{
    match spec_eat_idn(t, i) {
        Err(e) => Err(e),
        Ok(((nms, nml), i1)) => {
            let name = SpannedView { inner: nms, span: nml.span };
            match spec_peek(t, i1) {
                Err(e) => Err(e),
                Ok(l) => if l.ty is OpenParen {
                    spec_parse_fncall(t, i1, name)
                } else {
                    spec_parse_vres(t, i1, name)
                },
            }
        },
    }
}

/// A break statement: `break ;`.
pub open spec fn spec_parse_break(t: Seq<LexemeView>, i: int) -> Result<
    (SyntaxNodeView, int),
    ShadowErrorView,
> {
    match spec_pop(t, i) {
        Err(e) => Err(e),
        Ok((l, i1)) => match spec_consume(t, i1, LexemeTypeView::Semicolon) {
            Err(e) => Err(e),
            Ok((endl, i2)) => Ok(
                (
                    SyntaxNodeView {
                        ty: SyntaxNodeTypeView::Break,
                        span: spec_from_to(l.span, endl.span),
                    },
                    i2,
                ),
            ),
        },
    }
}

/// A continue statement: `continue ;`.
pub open spec fn spec_parse_continue(t: Seq<LexemeView>, i: int) -> Result<
    (SyntaxNodeView, int),
    ShadowErrorView,
> {
    match spec_pop(t, i) {
        Err(e) => Err(e),
        Ok((l, i1)) => match spec_consume(t, i1, LexemeTypeView::Semicolon) {
            Err(e) => Err(e),
            Ok((endl, i2)) => Ok(
                (
                    SyntaxNodeView {
                        ty: SyntaxNodeTypeView::Continue,
                        span: spec_from_to(l.span, endl.span),
                    },
                    i2,
                ),
            ),
        },
    }
}

/// A loop statement: `loop { <block> }`.
pub open spec fn spec_parse_loop(t: Seq<LexemeView>, i: int) -> Result<
    (SyntaxNodeView, int),
    ShadowErrorView,
>
    decreases t.len() - i, 7int,
{
    match spec_pop(t, i) {
        Err(e) => Err(e),
        Ok((l, i1)) => match spec_consume(t, i1, LexemeTypeView::OpenBrace) {
            Err(e) => Err(e),
            Ok((_ob, i2)) => match spec_parse_block(t, i2) {
                Err(e) => Err(e),
                Ok((body, i3)) => match spec_consume(t, i3, LexemeTypeView::CloseBrace) {
                    Err(e) => Err(e),
                    Ok((endl, i4)) => Ok(
                        (
                            SyntaxNodeView {
                                ty: SyntaxNodeTypeView::Loop { body },
                                span: spec_from_to(l.span, endl.span),
                            },
                            i4,
                        ),
                    ),
                },
            },
        },
    }
}

/// One statement, dispatched on its leading lexeme.
pub open spec fn spec_parse_stmt(t: Seq<LexemeView>, i: int) -> Result<
    (SyntaxNodeView, int),
    ShadowErrorView,
>
    decreases t.len() - i, 9int,
{
    match spec_peek(t, i) {
        Err(e) => Err(e),
        Ok(l) => match l.ty {
            LexemeTypeView::Keyword(Keywords::Fn) => spec_parse_fndef(t, i),
            LexemeTypeView::Keyword(Keywords::Return) => spec_parse_return(t, i),
            LexemeTypeView::Keyword(Keywords::Let) => spec_parse_vdec(t, i),
            LexemeTypeView::Keyword(Keywords::If) => spec_parse_if(t, i),
            LexemeTypeView::Keyword(Keywords::Loop) => spec_parse_loop(t, i),
            LexemeTypeView::Keyword(Keywords::Break) => spec_parse_break(t, i),
            LexemeTypeView::Keyword(Keywords::Continue) => spec_parse_continue(t, i),
            LexemeTypeView::Idn(_) => spec_parse_idn_start(t, i),
            _ => Err(
                ShadowErrorView {
                    ty: ErrTypeView::Parse(
                        ParseErrorsView::UnexpectedToken(l.ty, expected_stmt()),
                    ),
                    span: l.span,
                },
            ),
        },
    }
}

/// A block: statements up to the end of the stream or a closing brace.
pub open spec fn spec_parse_block(t: Seq<LexemeView>, i: int) -> Result<
    (Seq<SyntaxNodeView>, int),
    ShadowErrorView,
>
    decreases t.len() - i, 10int,
{
    if !(0 <= i < t.len()) {
        Ok((Seq::empty(), i))
    } else if t[i].ty is CloseBrace {
        Ok((Seq::empty(), i))
    } else {
        match spec_parse_stmt(t, i) {
            Err(e) => Err(e),
            Ok((node, j)) => if i < j <= t.len() {
                match spec_parse_block(t, j) {
                    Err(e) => Err(e),
                    Ok((rest, m)) => Ok((seq![node] + rest, m)),
                }
            } else {
                Err(spec_parse_halt())
            },
        }
    }
}

/// The whole program: the root block of the token stream.
pub open spec fn spec_parse(t: Seq<LexemeView>) -> Result<Seq<SyntaxNodeView>, ShadowErrorView> {
    match spec_parse_block(t, 0) {
        Ok((nodes, _)) => Ok(nodes),
        Err(e) => Err(e),
    }
}

/// The length and elements of a modelled block, element by element.
pub proof fn lemma_view_block_props(s: Seq<SyntaxNode>)
    ensures
        view_block(s).len() == s.len(),
        forall|i: int| 0 <= i < s.len() ==> view_block(s)[i] == view_node(&s[i]),
    decreases s.len(),
{
    if s.len() > 0 {
        lemma_view_block_props(s.drop_last());
    }
}

/// The length and elements of a modelled expression list, element by
/// element.
pub proof fn lemma_view_expr_list_props(s: Seq<Spanned<Expression>>)
    ensures
        view_expr_list(s).len() == s.len(),
        forall|i: int| 0 <= i < s.len() ==> view_expr_list(s)[i] == view_spanned_expr(&s[i]),
    decreases s.len(),
{
    if s.len() > 0 {
        lemma_view_expr_list_props(s.drop_last());
    }
}

/// The length and elements of a modelled `else if` chain, element by
/// element.
pub proof fn lemma_view_elifs_props(s: Seq<(Spanned<Expression>, SyntaxBlock)>)
    ensures
        view_elifs(s).len() == s.len(),
        forall|i: int| 0 <= i < s.len() ==> view_elifs(s)[i] == (
            view_spanned_expr(&s[i].0),
            view_block(s[i].1@),
        ),
    decreases s.len(),
{
    if s.len() > 0 {
        lemma_view_elifs_props(s.drop_last());
    }
}

/// The model of an optional block.
pub open spec fn view_opt_block(o: &Option<SyntaxBlock>) -> Option<Seq<SyntaxNodeView>> {
    match o {
        Some(b) => Some(view_block(b@)),
        None => None,
    }
}

proof fn lemma_view_expr_list_prepend(x: Spanned<Expression>, s: Seq<Spanned<Expression>>)
    ensures
        view_expr_list(s.insert(0, x)) == seq![view_spanned_expr(&x)] + view_expr_list(s),
    decreases s.len(),
{
    if s.len() == 0 {
        assert(s.insert(0, x) =~= seq![x]);
        assert(seq![x].drop_last() =~= Seq::<Spanned<Expression>>::empty());
        assert(view_expr_list(Seq::<Spanned<Expression>>::empty())
            == Seq::<SpannedView<ExpressionView>>::empty());
        assert(view_expr_list(seq![x]) =~= seq![view_spanned_expr(&x)] + view_expr_list(s));
    } else {
        let t = s.insert(0, x);
        assert(t.drop_last() =~= s.drop_last().insert(0, x));
        assert(t.last() == s.last());
        lemma_view_expr_list_prepend(x, s.drop_last());
        assert(view_expr_list(t) =~= seq![view_spanned_expr(&x)] + view_expr_list(s));
    }
}

proof fn lemma_view_block_prepend(x: SyntaxNode, s: Seq<SyntaxNode>)
    ensures
        view_block(s.insert(0, x)) == seq![view_node(&x)] + view_block(s),
    decreases s.len(),
{
    if s.len() == 0 {
        assert(s.insert(0, x) =~= seq![x]);
        assert(seq![x].drop_last() =~= Seq::<SyntaxNode>::empty());
        assert(view_block(Seq::<SyntaxNode>::empty()) == Seq::<SyntaxNodeView>::empty());
        assert(view_block(seq![x]) =~= seq![view_node(&x)] + view_block(s));
    } else {
        let t = s.insert(0, x);
        assert(t.drop_last() =~= s.drop_last().insert(0, x));
        assert(t.last() == s.last());
        lemma_view_block_prepend(x, s.drop_last());
        assert(view_block(t) =~= seq![view_node(&x)] + view_block(s));
    }
}

proof fn lemma_view_elifs_prepend(
    x: (Spanned<Expression>, SyntaxBlock),
    s: Seq<(Spanned<Expression>, SyntaxBlock)>,
)
    ensures
        view_elifs(s.insert(0, x)) == seq![(view_spanned_expr(&x.0), view_block(x.1@))]
            + view_elifs(s),
    decreases s.len(),
{
    if s.len() == 0 {
        assert(s.insert(0, x) =~= seq![x]);
        assert(seq![x].drop_last() =~= Seq::<(Spanned<Expression>, SyntaxBlock)>::empty());
        assert(view_elifs(Seq::<(Spanned<Expression>, SyntaxBlock)>::empty())
            == Seq::<(SpannedView<ExpressionView>, Seq<SyntaxNodeView>)>::empty());
        assert(view_elifs(seq![x]) =~= seq![(view_spanned_expr(&x.0), view_block(x.1@))]
            + view_elifs(s));
    } else {
        let t = s.insert(0, x);
        assert(t.drop_last() =~= s.drop_last().insert(0, x));
        assert(t.last() == s.last());
        lemma_view_elifs_prepend(x, s.drop_last());
        assert(view_elifs(t) =~= seq![(view_spanned_expr(&x.0), view_block(x.1@))]
            + view_elifs(s));
    }
}

impl ParseBuffer {
    /// Parses one expression from the front of the stream.
    pub fn parse_expr(&mut self) -> (r: Result<Spanned<Expression>, ShadowError>)
        requires
            old(self).wf(),
        ensures
            final(self).wf(),
            final(self)@.toks == old(self)@.toks,
            final(self)@.pos >= old(self)@.pos,
            match r {
                Ok(e) => spec_parse_expr(old(self)@.toks, old(self)@.pos) == Ok::<
                    (SpannedView<ExpressionView>, int),
                    ShadowErrorView,
                >((e@, final(self)@.pos)) && final(self)@.pos > old(self)@.pos,
                Err(e) => spec_parse_expr(old(self)@.toks, old(self)@.pos) == Err::<
                    (SpannedView<ExpressionView>, int),
                    ShadowErrorView,
                >(e@),
            },
        decreases self@.toks.len() - self@.pos, 5int,
    {
        self._parse_expr(0)
    }

    fn _parse_expr(&mut self, rbp: u64) -> (r: Result<Spanned<Expression>, ShadowError>)
        requires
            old(self).wf(),
        ensures
            final(self).wf(),
            final(self)@.toks == old(self)@.toks,
            final(self)@.pos >= old(self)@.pos,
            match r {
                Ok(e) => spec_parse_expr_bp(old(self)@.toks, old(self)@.pos, rbp) == Ok::<
                    (SpannedView<ExpressionView>, int),
                    ShadowErrorView,
                >((e@, final(self)@.pos)) && final(self)@.pos > old(self)@.pos,
                Err(e) => spec_parse_expr_bp(old(self)@.toks, old(self)@.pos, rbp) == Err::<
                    (SpannedView<ExpressionView>, int),
                    ShadowErrorView,
                >(e@),
            },
        decreases self@.toks.len() - self@.pos, 2int,
    {
        let next = match self.pop() {
            Ok(l) => l,
            Err(e) => {
                return Err(e);
            },
        };
        let left = match self.nud(next) {
            Ok(l) => l,
            Err(e) => {
                return Err(e);
            },
        };
        self.led_loop(left, rbp)
    }

    fn nud(&mut self, next: Lexeme) -> (r: Result<Spanned<Expression>, ShadowError>)
        requires
            old(self).wf(),
        ensures
            final(self).wf(),
            final(self)@.toks == old(self)@.toks,
            final(self)@.pos >= old(self)@.pos,
            match r {
                Ok(e) => spec_nud(old(self)@.toks, old(self)@.pos, next@) == Ok::<
                    (SpannedView<ExpressionView>, int),
                    ShadowErrorView,
                >((e@, final(self)@.pos)),
                Err(e) => spec_nud(old(self)@.toks, old(self)@.pos, next@) == Err::<
                    (SpannedView<ExpressionView>, int),
                    ShadowErrorView,
                >(e@),
            },
        decreases self@.toks.len() - self@.pos, 3int,
    {
        let span = next.span;
        match next.ty {
            LexemeTypes::Literal(Literals::Boolean(b)) => Ok(
                Spanned::new(span, Expression::BoolLit(b)),
            ),
            LexemeTypes::Literal(Literals::Integer(n)) => Ok(
                Spanned::new(span, Expression::IntLit(n)),
            ),
            LexemeTypes::Idn(name) => Ok(Spanned::new(span, Expression::Variable(name))),
            LexemeTypes::OpenParen => {
                let expr = match self._parse_expr(0) {
                    Ok(e) => e,
                    Err(e) => {
                        return Err(e);
                    },
                };
                let close = match self.consume(LexemeTypes::CloseParen) {
                    Ok(l) => l,
                    Err(e) => {
                        return Err(e);
                    },
                };
                Ok(
                    Spanned::new(
                        span,
                        Expression::Group(
                            Spanned {
                                span: Span::from_to(span, close.span),
                                inner: Box::new(expr.inner),
                            },
                        ),
                    ),
                )
            },
            ty => Err(
                ShadowError::from_pos(ErrType::Parse(ParseErrors::InvalidExpressionStart(ty)), span),
            ),
        }
    }

    fn led(&mut self, left: Spanned<Expression>) -> (r: Result<Spanned<Expression>, ShadowError>)
        requires
            old(self).wf(),
        ensures
            final(self).wf(),
            final(self)@.toks == old(self)@.toks,
            final(self)@.pos >= old(self)@.pos,
            match r {
                Ok(e) => spec_led(old(self)@.toks, old(self)@.pos, left@) == Ok::<
                    (SpannedView<ExpressionView>, int),
                    ShadowErrorView,
                >((e@, final(self)@.pos)) && final(self)@.pos > old(self)@.pos,
                Err(e) => spec_led(old(self)@.toks, old(self)@.pos, left@) == Err::<
                    (SpannedView<ExpressionView>, int),
                    ShadowErrorView,
                >(e@),
            },
        decreases self@.toks.len() - self@.pos, 3int,
    {
        let ghost leftv = left@;
        let next = match self.pop() {
            Ok(l) => l,
            Err(e) => {
                return Err(e);
            },
        };
        let prec = next.ty.prec();
        if let Some(op) = binop_of(&next.ty) {
            let right = match self._parse_expr(prec) {
                Ok(e) => e,
                Err(e) => {
                    return Err(e);
                },
            };
            let span = Span::from_to(left.span, right.span);
            Ok(
                Spanned::new(
                    span,
                    Expression::BinOp(
                        Spanned { span: left.span, inner: Box::new(left.inner) },
                        op,
                        Spanned { span: right.span, inner: Box::new(right.inner) },
                    ),
                ),
            )
        } else if is_comp_start(&next.ty) {
            let cmp = match self.parse_comp(&next) {
                Ok(c) => c,
                Err(e) => {
                    return Err(e);
                },
            };
            let right = match self._parse_expr(prec) {
                Ok(e) => e,
                Err(e) => {
                    return Err(e);
                },
            };
            let span = Span::from_to(left.span, right.span);
            Ok(
                Spanned::new(
                    span,
                    Expression::Comp(
                        Spanned { span: left.span, inner: Box::new(left.inner) },
                        cmp,
                        Spanned { span: right.span, inner: Box::new(right.inner) },
                    ),
                ),
            )
        } else {
            let span = next.span;
            Err(
                ShadowError::from_pos(
                    ErrType::Parse(ParseErrors::UnknownInfixOperator(next.ty)),
                    span,
                ),
            )
        }
    }

    /// Reads the rest of a comparison operator begun by `next`.
    fn parse_comp(&mut self, next: &Lexeme) -> (r: Result<CompTypes, ShadowError>)
        requires
            old(self).wf(),
        ensures
            final(self).wf(),
            final(self)@.toks == old(self)@.toks,
            final(self)@.pos >= old(self)@.pos,
            match r {
                Ok(c) => spec_parse_comp(old(self)@.toks, old(self)@.pos, next@) == Ok::<
                    (CompTypes, int),
                    ShadowErrorView,
                >((c, final(self)@.pos)),
                Err(e) => spec_parse_comp(old(self)@.toks, old(self)@.pos, next@) == Err::<
                    (CompTypes, int),
                    ShadowErrorView,
                >(e@),
            },
    {
        match &next.ty {
            LexemeTypes::AngleRight => {
                match self.peek() {
                    Ok(l) => {
                        if l.ty == LexemeTypes::Equals {
                            match self.pop() {
                                Ok(_) => Ok(CompTypes::GreaterThanEqualTo),
                                Err(e) => Err(e),
                            }
                        } else {
                            Ok(CompTypes::GreaterThan)
                        }
                    },
                    Err(e) => Err(e),
                }
            },
            LexemeTypes::AngleLeft => {
                match self.peek() {
                    Ok(l) => {
                        if l.ty == LexemeTypes::Equals {
                            match self.pop() {
                                Ok(_) => Ok(CompTypes::LessThanEqualTo),
                                Err(e) => Err(e),
                            }
                        } else {
                            Ok(CompTypes::LessThan)
                        }
                    },
                    Err(e) => Err(e),
                }
            },
            LexemeTypes::Equals => {
                match self.consume(LexemeTypes::Equals) {
                    Ok(_) => Ok(CompTypes::Equal),
                    Err(e) => Err(e),
                }
            },
            LexemeTypes::Bang => {
                match self.consume(LexemeTypes::Equals) {
                    Ok(_) => Ok(CompTypes::NotEqual),
                    Err(e) => Err(e),
                }
            },
            _ => {
                let ty = next.ty.clone();
                Err(
                    ShadowError::from_pos(
                        ErrType::Parse(ParseErrors::UnknownInfixOperator(ty)),
                        next.span,
                    ),
                )
            },
        }
    }

    fn led_loop(&mut self, left: Spanned<Expression>, rbp: u64) -> (r: Result<
        Spanned<Expression>,
        ShadowError,
    >)
        requires
            old(self).wf(),
        ensures
            final(self).wf(),
            final(self)@.toks == old(self)@.toks,
            final(self)@.pos >= old(self)@.pos,
            match r {
                Ok(e) => spec_led_loop(old(self)@.toks, old(self)@.pos, left@, rbp) == Ok::<
                    (SpannedView<ExpressionView>, int),
                    ShadowErrorView,
                >((e@, final(self)@.pos)),
                Err(e) => spec_led_loop(old(self)@.toks, old(self)@.pos, left@, rbp) == Err::<
                    (SpannedView<ExpressionView>, int),
                    ShadowErrorView,
                >(e@),
            },
        decreases self@.toks.len() - self@.pos, 4int,
    {
        let pk = match self.peek() {
            Ok(l) => l,
            Err(e) => {
                return Err(e);
            },
        };
        if pk.ty.prec() > rbp {
            let ghost leftv = left@;
            match self.led(left) {
                Ok(left2) => self.led_loop(left2, rbp),
                Err(e) => Err(e),
            }
        } else {
            Ok(left)
        }
    }
}

// ---------------------------------------------------------------------------
// Statement parsing: the implementation
// ---------------------------------------------------------------------------

impl ParseBuffer {
    /// The parameter list of a function definition.
    fn parse_params(&mut self) -> (r: Result<
        Vec<(Spanned<String>, Spanned<String>)>,
        ShadowError,
    >)
        requires
            old(self).wf(),
        ensures
            final(self).wf(),
            final(self)@.toks == old(self)@.toks,
            final(self)@.pos >= old(self)@.pos,
            match r {
                Ok(v) => spec_parse_params(old(self)@.toks, old(self)@.pos) == Ok::<
                    (Seq<(SpannedView<Seq<char>>, SpannedView<Seq<char>>)>, int),
                    ShadowErrorView,
                >((view_params(v@), final(self)@.pos)),
                Err(e) => spec_parse_params(old(self)@.toks, old(self)@.pos) == Err::<
                    (Seq<(SpannedView<Seq<char>>, SpannedView<Seq<char>>)>, int),
                    ShadowErrorView,
                >(e@),
            },
        decreases self@.toks.len() - self@.pos, 6int,
    {
        if self.done() {
            let r: Vec<(Spanned<String>, Spanned<String>)> = Vec::new();
            proof {
                assert(view_params(r@) =~= Seq::<
                    (SpannedView<Seq<char>>, SpannedView<Seq<char>>),
                >::empty());
            }
            return Ok(r);
        }
        let pk = match self.peek() {
            Ok(l) => l,
            Err(e) => {
                proof {
                    assert(false);
                }
                return Err(e);
            },
        };
        match &pk.ty {
            LexemeTypes::Idn(_) => {},
            _ => {
                let r: Vec<(Spanned<String>, Spanned<String>)> = Vec::new();
                proof {
                    assert(view_params(r@) =~= Seq::<
                        (SpannedView<Seq<char>>, SpannedView<Seq<char>>),
                    >::empty());
                }
                return Ok(r);
            },
        }
        let (tys, ty_l) = match self.eat_idn() {
            Ok(p) => p,
            Err(e) => {
                return Err(e);
            },
        };
        let (nms, nm_l) = match self.eat_idn() {
            Ok(p) => p,
            Err(e) => {
                return Err(e);
            },
        };
        let pair = (Spanned::new(ty_l.span, tys), Spanned::new(nm_l.span, nms));
        let ghost pairv = (view_name(&pair.0), view_name(&pair.1));
        let comma_next = if self.done() {
            false
        } else {
            let pk2 = match self.peek() {
                Ok(l) => l,
                Err(e) => {
                    proof {
                        assert(false);
                    }
                    return Err(e);
                },
            };
            match &pk2.ty {
                LexemeTypes::Comma => true,
                _ => false,
            }
        };
        if comma_next {
            match self.pop() {
                Ok(_) => {},
                Err(e) => {
                    proof {
                        assert(false);
                    }
                    return Err(e);
                },
            }
            // a comma promises one more parameter: a trailing comma is not
            // permitted
            if self.done() {
                return Err(
                    ShadowError::from_pos(
                        ErrType::Parse(ParseErrors::TokenStreamExhausted),
                        self.last_span(),
                    ),
                );
            }
            let pk3 = match self.peek() {
                Ok(l) => l,
                Err(e) => {
                    proof {
                        assert(false);
                    }
                    return Err(e);
                },
            };
            match &pk3.ty {
                LexemeTypes::Idn(_) => {},
                _ => {
                    return Err(
                        ShadowError::from_pos(
                            ErrType::Parse(
                                ParseErrors::UnexpectedToken(
                                    pk3.ty,
                                    LexemeTypes::Idn(String::from_str("<idn>")),
                                ),
                            ),
                            pk3.span,
                        ),
                    );
                },
            }
            let mut rest = match self.parse_params() {
                Ok(v) => v,
                Err(e) => {
                    return Err(e);
                },
            };
            let ghost restv = rest@;
            rest.insert(0, pair);
            proof {
                assert(rest@ == restv.insert(0, pair));
                assert(view_params(restv.insert(0, pair)) =~= seq![pairv] + view_params(restv));
            }
            Ok(rest)
        } else {
            let mut v: Vec<(Spanned<String>, Spanned<String>)> = Vec::new();
            v.push(pair);
            proof {
                assert(view_params(v@) =~= seq![pairv]);
            }
            Ok(v)
        }
    }

    /// The comma-separated argument expressions of a call.
    fn parse_args(&mut self) -> (r: Result<Vec<Spanned<Expression>>, ShadowError>)
        requires
            old(self).wf(),
        ensures
            final(self).wf(),
            final(self)@.toks == old(self)@.toks,
            final(self)@.pos >= old(self)@.pos,
            match r {
                Ok(v) => spec_parse_args(old(self)@.toks, old(self)@.pos) == Ok::<
                    (Seq<SpannedView<ExpressionView>>, int),
                    ShadowErrorView,
                >((view_expr_list(v@), final(self)@.pos)),
                Err(e) => spec_parse_args(old(self)@.toks, old(self)@.pos) == Err::<
                    (Seq<SpannedView<ExpressionView>>, int),
                    ShadowErrorView,
                >(e@),
            },
        decreases self@.toks.len() - self@.pos, 6int,
    {
        let a = match self.parse_expr() {
            Ok(e) => e,
            Err(e) => {
                return Err(e);
            },
        };
        let ghost av = view_spanned_expr(&a);
        let pk = match self.peek() {
            Ok(l) => l,
            Err(e) => {
                return Err(e);
            },
        };
        let comma = match &pk.ty {
            LexemeTypes::Comma => true,
            _ => false,
        };
        if comma {
            match self.pop() {
                Ok(_) => {},
                Err(e) => {
                    proof {
                        assert(false);
                    }
                    return Err(e);
                },
            }
            let mut rest = match self.parse_args() {
                Ok(v) => v,
                Err(e) => {
                    return Err(e);
                },
            };
            let ghost restv = rest@;
            rest.insert(0, a);
            proof {
                lemma_view_expr_list_prepend(rest@[0], restv);
                assert(rest@ == restv.insert(0, rest@[0]));
            }
            Ok(rest)
        } else {
            let mut v: Vec<Spanned<Expression>> = Vec::new();
            v.push(a);
            proof {
                assert(v@.drop_last() =~= Seq::<Spanned<Expression>>::empty());
                assert(view_expr_list(Seq::<Spanned<Expression>>::empty())
                    == Seq::<SpannedView<ExpressionView>>::empty());
                assert(view_expr_list(v@) =~= seq![av]);
            }
            Ok(v)
        }
    }

    /// A function definition.
    fn parse_fndef(&mut self) -> (r: Result<SyntaxNode, ShadowError>)
        requires
            old(self).wf(),
        ensures
            final(self).wf(),
            final(self)@.toks == old(self)@.toks,
            final(self)@.pos >= old(self)@.pos,
            match r {
                Ok(n) => spec_parse_fndef(old(self)@.toks, old(self)@.pos) == Ok::<
                    (SyntaxNodeView, int),
                    ShadowErrorView,
                >((n@, final(self)@.pos)) && final(self)@.pos > old(self)@.pos,
                Err(e) => spec_parse_fndef(old(self)@.toks, old(self)@.pos) == Err::<
                    (SyntaxNodeView, int),
                    ShadowErrorView,
                >(e@),
            },
        decreases self@.toks.len() - self@.pos, 7int,
    {
        let fnl = match self.consume(LexemeTypes::Keyword(Keywords::Fn)) {
            Ok(l) => l,
            Err(e) => {
                return Err(e);
            },
        };
        let (tys, ty_l) = match self.eat_idn() {
            Ok(p) => p,
            Err(e) => {
                return Err(e);
            },
        };
        let (nms, nm_l) = match self.eat_idn() {
            Ok(p) => p,
            Err(e) => {
                return Err(e);
            },
        };
        match self.consume(LexemeTypes::OpenParen) {
            Ok(_) => {},
            Err(e) => {
                return Err(e);
            },
        }
        let params = match self.parse_params() {
            Ok(v) => v,
            Err(e) => {
                return Err(e);
            },
        };
        let cpl = match self.consume(LexemeTypes::CloseParen) {
            Ok(l) => l,
            Err(e) => {
                return Err(e);
            },
        };
        match self.consume(LexemeTypes::OpenBrace) {
            Ok(_) => {},
            Err(e) => {
                return Err(e);
            },
        }
        let body = match _parse(self) {
            Ok(b) => b,
            Err(e) => {
                return Err(e);
            },
        };
        match self.consume(LexemeTypes::CloseBrace) {
            Ok(_) => {},
            Err(e) => {
                return Err(e);
            },
        }
        Ok(
            SyntaxNode::new(
                SyntaxNodeType::Function {
                    name: Spanned::new(nm_l.span, nms),
                    params,
                    rty: Spanned::new(ty_l.span, tys),
                    body,
                },
                Span::from_to(fnl.span, cpl.span),
            ),
        )
    }

    /// A return statement.
    fn parse_return(&mut self) -> (r: Result<SyntaxNode, ShadowError>)
        requires
            old(self).wf(),
        ensures
            final(self).wf(),
            final(self)@.toks == old(self)@.toks,
            final(self)@.pos >= old(self)@.pos,
            match r {
                Ok(n) => spec_parse_return(old(self)@.toks, old(self)@.pos) == Ok::<
                    (SyntaxNodeView, int),
                    ShadowErrorView,
                >((n@, final(self)@.pos)) && final(self)@.pos > old(self)@.pos,
                Err(e) => spec_parse_return(old(self)@.toks, old(self)@.pos) == Err::<
                    (SyntaxNodeView, int),
                    ShadowErrorView,
                >(e@),
            },
        decreases self@.toks.len() - self@.pos, 7int,
    {
        let retl = match self.consume(LexemeTypes::Keyword(Keywords::Return)) {
            Ok(l) => l,
            Err(e) => {
                return Err(e);
            },
        };
        let pk = match self.peek() {
            Ok(l) => l,
            Err(e) => {
                return Err(e);
            },
        };
        let semi = match &pk.ty {
            LexemeTypes::Semicolon => true,
            _ => false,
        };
        if semi {
            match self.consume(LexemeTypes::Semicolon) {
                Ok(_) => {},
                Err(e) => {
                    proof {
                        assert(false);
                    }
                    return Err(e);
                },
            }
            Ok(
                SyntaxNode::new(
                    SyntaxNodeType::Return { expr: Spanned::new(retl.span, None) },
                    Span::from_to(retl.span, retl.span),
                ),
            )
        } else {
            let e = match self.parse_expr() {
                Ok(e) => e,
                Err(e) => {
                    return Err(e);
                },
            };
            match self.consume(LexemeTypes::Semicolon) {
                Ok(_) => {},
                Err(er) => {
                    return Err(er);
                },
            }
            let espan = e.span;
            Ok(
                SyntaxNode::new(
                    SyntaxNodeType::Return { expr: Spanned::new(espan, Some(e.inner)) },
                    Span::from_to(retl.span, retl.span),
                ),
            )
        }
    }

    /// A variable declaration.
    fn parse_vdec(&mut self) -> (r: Result<SyntaxNode, ShadowError>)
        requires
            old(self).wf(),
        ensures
            final(self).wf(),
            final(self)@.toks == old(self)@.toks,
            final(self)@.pos >= old(self)@.pos,
            match r {
                Ok(n) => spec_parse_vdec(old(self)@.toks, old(self)@.pos) == Ok::<
                    (SyntaxNodeView, int),
                    ShadowErrorView,
                >((n@, final(self)@.pos)) && final(self)@.pos > old(self)@.pos,
                Err(e) => spec_parse_vdec(old(self)@.toks, old(self)@.pos) == Err::<
                    (SyntaxNodeView, int),
                    ShadowErrorView,
                >(e@),
            },
        decreases self@.toks.len() - self@.pos, 7int,
    {
        let letl = match self.consume(LexemeTypes::Keyword(Keywords::Let)) {
            Ok(l) => l,
            Err(e) => {
                return Err(e);
            },
        };
        let (nms, nm_l) = match self.eat_idn() {
            Ok(p) => p,
            Err(e) => {
                return Err(e);
            },
        };
        match self.consume(LexemeTypes::Equals) {
            Ok(_) => {},
            Err(e) => {
                return Err(e);
            },
        }
        let init = match self.parse_expr() {
            Ok(e) => e,
            Err(e) => {
                return Err(e);
            },
        };
        let endl = match self.consume(LexemeTypes::Semicolon) {
            Ok(l) => l,
            Err(e) => {
                return Err(e);
            },
        };
        Ok(
            SyntaxNode::new(
                SyntaxNodeType::VDec { init, name: Spanned::new(nm_l.span, nms) },
                Span::from_to(letl.span, endl.span),
            ),
        )
    }

    /// The `else if` arms and optional final `else` of a conditional.
    fn parse_elifs(&mut self, end0: Span) -> (r: Result<
        (Vec<(Spanned<Expression>, SyntaxBlock)>, Option<SyntaxBlock>, Span),
        ShadowError,
    >)
        requires
            old(self).wf(),
        ensures
            final(self).wf(),
            final(self)@.toks == old(self)@.toks,
            final(self)@.pos >= old(self)@.pos,
            match r {
                Ok(v) => spec_parse_elifs(old(self)@.toks, old(self)@.pos, end0) == Ok::<
                    (
                        (
                            Seq<(SpannedView<ExpressionView>, Seq<SyntaxNodeView>)>,
                            Option<Seq<SyntaxNodeView>>,
                            Span,
                        ),
                        int,
                    ),
                    ShadowErrorView,
                >(((view_elifs(v.0@), view_opt_block(&v.1), v.2), final(self)@.pos)),
                Err(e) => spec_parse_elifs(old(self)@.toks, old(self)@.pos, end0) == Err::<
                    (
                        (
                            Seq<(SpannedView<ExpressionView>, Seq<SyntaxNodeView>)>,
                            Option<Seq<SyntaxNodeView>>,
                            Span,
                        ),
                        int,
                    ),
                    ShadowErrorView,
                >(e@),
            },
        decreases self@.toks.len() - self@.pos, 6int,
    {
        let pk = match self.peek() {
            Ok(l) => l,
            Err(e) => {
                return Err(e);
            },
        };
        let is_else = match &pk.ty {
            LexemeTypes::Keyword(Keywords::Else) => true,
            _ => false,
        };
        if !is_else {
            let r: Vec<(Spanned<Expression>, SyntaxBlock)> = Vec::new();
            proof {
                assert(view_elifs(r@) =~= Seq::<
                    (SpannedView<ExpressionView>, Seq<SyntaxNodeView>),
                >::empty());
            }
            return Ok((r, None, end0));
        }
        match self.pop() {
            Ok(_) => {},
            Err(e) => {
                proof {
                    assert(false);
                }
                return Err(e);
            },
        }
        let pk2 = match self.peek() {
            Ok(l) => l,
            Err(e) => {
                return Err(e);
            },
        };
        let is_if = match &pk2.ty {
            LexemeTypes::Keyword(Keywords::If) => true,
            _ => false,
        };
        if is_if {
            match self.pop() {
                Ok(_) => {},
                Err(e) => {
                    proof {
                        assert(false);
                    }
                    return Err(e);
                },
            }
            let cond = match self.parse_expr() {
                Ok(e) => e,
                Err(e) => {
                    return Err(e);
                },
            };
            match self.consume(LexemeTypes::OpenBrace) {
                Ok(_) => {},
                Err(e) => {
                    return Err(e);
                },
            }
            let blk = match _parse(self) {
                Ok(b) => b,
                Err(e) => {
                    return Err(e);
                },
            };
            let endl = match self.consume(LexemeTypes::CloseBrace) {
                Ok(l) => l,
                Err(e) => {
                    return Err(e);
                },
            };
            let (mut elifs, els, end) = match self.parse_elifs(endl.span) {
                Ok(v) => v,
                Err(e) => {
                    return Err(e);
                },
            };
            let ghost elifsv = elifs@;
            elifs.insert(0, (cond, blk));
            proof {
                lemma_view_elifs_prepend(elifs@[0], elifsv);
                assert(elifs@ == elifsv.insert(0, elifs@[0]));
            }
            Ok((elifs, els, end))
        } else {
            match self.consume(LexemeTypes::OpenBrace) {
                Ok(_) => {},
                Err(e) => {
                    return Err(e);
                },
            }
            let blk = match _parse(self) {
                Ok(b) => b,
                Err(e) => {
                    return Err(e);
                },
            };
            let endl = match self.consume(LexemeTypes::CloseBrace) {
                Ok(l) => l,
                Err(e) => {
                    return Err(e);
                },
            };
            let (elifs, els, end) = match self.parse_elifs(endl.span) {
                Ok(v) => v,
                Err(e) => {
                    return Err(e);
                },
            };
            let els2 = match els {
                Some(x) => Some(x),
                None => Some(blk),
            };
            Ok((elifs, els2, end))
        }
    }

    /// A conditional statement.
    fn parse_if(&mut self) -> (r: Result<SyntaxNode, ShadowError>)
        requires
            old(self).wf(),
        ensures
            final(self).wf(),
            final(self)@.toks == old(self)@.toks,
            final(self)@.pos >= old(self)@.pos,
            match r {
                Ok(n) => spec_parse_if(old(self)@.toks, old(self)@.pos) == Ok::<
                    (SyntaxNodeView, int),
                    ShadowErrorView,
                >((n@, final(self)@.pos)) && final(self)@.pos > old(self)@.pos,
                Err(e) => spec_parse_if(old(self)@.toks, old(self)@.pos) == Err::<
                    (SyntaxNodeView, int),
                    ShadowErrorView,
                >(e@),
            },
        decreases self@.toks.len() - self@.pos, 7int,
    {
        let ifl = match self.consume(LexemeTypes::Keyword(Keywords::If)) {
            Ok(l) => l,
            Err(e) => {
                return Err(e);
            },
        };
        let cond = match self.parse_expr() {
            Ok(e) => e,
            Err(e) => {
                return Err(e);
            },
        };
        match self.consume(LexemeTypes::OpenBrace) {
            Ok(_) => {},
            Err(e) => {
                return Err(e);
            },
        }
        let body = match _parse(self) {
            Ok(b) => b,
            Err(e) => {
                return Err(e);
            },
        };
        let endl = match self.consume(LexemeTypes::CloseBrace) {
            Ok(l) => l,
            Err(e) => {
                return Err(e);
            },
        };
        let (elifs, els, end) = match self.parse_elifs(endl.span) {
            Ok(v) => v,
            Err(e) => {
                return Err(e);
            },
        };
        Ok(
            SyntaxNode::new(
                SyntaxNodeType::If { cond, body, else_block: els, else_ifs: elifs },
                Span::from_to(ifl.span, end),
            ),
        )
    }

    /// A standalone call statement; the name has already been read.
    fn parse_standalone_fncall(&mut self, name: Spanned<String>) -> (r: Result<
        SyntaxNode,
        ShadowError,
    >)
        requires
            old(self).wf(),
        ensures
            final(self).wf(),
            final(self)@.toks == old(self)@.toks,
            final(self)@.pos >= old(self)@.pos,
            match r {
                Ok(n) => spec_parse_fncall(old(self)@.toks, old(self)@.pos, view_name(&name))
                    == Ok::<(SyntaxNodeView, int), ShadowErrorView>((n@, final(self)@.pos))
                    && final(self)@.pos > old(self)@.pos,
                Err(e) => spec_parse_fncall(old(self)@.toks, old(self)@.pos, view_name(&name))
                    == Err::<(SyntaxNodeView, int), ShadowErrorView>(e@),
            },
        decreases self@.toks.len() - self@.pos, 7int,
    {
        let ghost namev = view_name(&name);
        let nspan = name.span;
        match self.consume(LexemeTypes::OpenParen) {
            Ok(_) => {},
            Err(e) => {
                return Err(e);
            },
        }
        let pk = match self.peek() {
            Ok(l) => l,
            Err(e) => {
                return Err(e);
            },
        };
        let closed = match &pk.ty {
            LexemeTypes::CloseParen => true,
            _ => false,
        };
        let args: Vec<Spanned<Expression>> = if closed {
            let v: Vec<Spanned<Expression>> = Vec::new();
            proof {
                assert(view_expr_list(v@) =~= Seq::<SpannedView<ExpressionView>>::empty());
            }
            v
        } else {
            match self.parse_args() {
                Ok(v) => v,
                Err(e) => {
                    return Err(e);
                },
            }
        };
        match self.consume(LexemeTypes::CloseParen) {
            Ok(_) => {},
            Err(e) => {
                return Err(e);
            },
        }
        let endl = match self.consume(LexemeTypes::Semicolon) {
            Ok(l) => l,
            Err(e) => {
                return Err(e);
            },
        };
        Ok(
            SyntaxNode::new(
                SyntaxNodeType::StandFnCall { name, args },
                Span::from_to(nspan, endl.span),
            ),
        )
    }

    /// A reassignment statement; the name has already been read.
    fn parse_vres(&mut self, name: Spanned<String>) -> (r: Result<SyntaxNode, ShadowError>)
        requires
            old(self).wf(),
        ensures
            final(self).wf(),
            final(self)@.toks == old(self)@.toks,
            final(self)@.pos >= old(self)@.pos,
            match r {
                Ok(n) => spec_parse_vres(old(self)@.toks, old(self)@.pos, view_name(&name))
                    == Ok::<(SyntaxNodeView, int), ShadowErrorView>((n@, final(self)@.pos))
                    && final(self)@.pos > old(self)@.pos,
                Err(e) => spec_parse_vres(old(self)@.toks, old(self)@.pos, view_name(&name))
                    == Err::<(SyntaxNodeView, int), ShadowErrorView>(e@),
            },
        decreases self@.toks.len() - self@.pos, 7int,
    {
        let nspan = name.span;
        match self.consume(LexemeTypes::Equals) {
            Ok(_) => {},
            Err(e) => {
                return Err(e);
            },
        }
        let new = match self.parse_expr() {
            Ok(e) => e,
            Err(e) => {
                return Err(e);
            },
        };
        let endl = match self.consume(LexemeTypes::Semicolon) {
            Ok(l) => l,
            Err(e) => {
                return Err(e);
            },
        };
        Ok(
            SyntaxNode::new(
                SyntaxNodeType::VRes { new, name },
                Span::from_to(nspan, endl.span),
            ),
        )
    }

    /// A statement that starts with an identifier.
    fn parse_idn_start(&mut self) -> (r: Result<SyntaxNode, ShadowError>)
        requires
            old(self).wf(),
        ensures
            final(self).wf(),
            final(self)@.toks == old(self)@.toks,
            final(self)@.pos >= old(self)@.pos,
            match r {
                Ok(n) => spec_parse_idn_start(old(self)@.toks, old(self)@.pos) == Ok::<
                    (SyntaxNodeView, int),
                    ShadowErrorView,
                >((n@, final(self)@.pos)) && final(self)@.pos > old(self)@.pos,
                Err(e) => spec_parse_idn_start(old(self)@.toks, old(self)@.pos) == Err::<
                    (SyntaxNodeView, int),
                    ShadowErrorView,
                >(e@),
            },
        decreases self@.toks.len() - self@.pos, 8int,
    {
        let (nms, nm_l) = match self.eat_idn() {
            Ok(p) => p,
            Err(e) => {
                return Err(e);
            },
        };
        let name = Spanned::new(nm_l.span, nms);
        let pk = match self.peek() {
            Ok(l) => l,
            Err(e) => {
                return Err(e);
            },
        };
        let open = match &pk.ty {
            LexemeTypes::OpenParen => true,
            _ => false,
        };
        if open {
            self.parse_standalone_fncall(name)
        } else {
            self.parse_vres(name)
        }
    }

    /// A break statement.
    fn parse_break(&mut self) -> (r: Result<SyntaxNode, ShadowError>)
        requires
            old(self).wf(),
        ensures
            final(self).wf(),
            final(self)@.toks == old(self)@.toks,
            final(self)@.pos >= old(self)@.pos,
            match r {
                Ok(n) => spec_parse_break(old(self)@.toks, old(self)@.pos) == Ok::<
                    (SyntaxNodeView, int),
                    ShadowErrorView,
                >((n@, final(self)@.pos)) && final(self)@.pos > old(self)@.pos,
                Err(e) => spec_parse_break(old(self)@.toks, old(self)@.pos) == Err::<
                    (SyntaxNodeView, int),
                    ShadowErrorView,
                >(e@),
            },
    {
        let l = match self.pop() {
            Ok(l) => l,
            Err(e) => {
                return Err(e);
            },
        };
        let endl = match self.consume(LexemeTypes::Semicolon) {
            Ok(l) => l,
            Err(e) => {
                return Err(e);
            },
        };
        Ok(SyntaxNode::new(SyntaxNodeType::Break, Span::from_to(l.span, endl.span)))
    }

    /// A continue statement.
    fn parse_continue(&mut self) -> (r: Result<SyntaxNode, ShadowError>)
        requires
            old(self).wf(),
        ensures
            final(self).wf(),
            final(self)@.toks == old(self)@.toks,
            final(self)@.pos >= old(self)@.pos,
            match r {
                Ok(n) => spec_parse_continue(old(self)@.toks, old(self)@.pos) == Ok::<
                    (SyntaxNodeView, int),
                    ShadowErrorView,
                >((n@, final(self)@.pos)) && final(self)@.pos > old(self)@.pos,
                Err(e) => spec_parse_continue(old(self)@.toks, old(self)@.pos) == Err::<
                    (SyntaxNodeView, int),
                    ShadowErrorView,
                >(e@),
            },
    {
        let l = match self.pop() {
            Ok(l) => l,
            Err(e) => {
                return Err(e);
            },
        };
        let endl = match self.consume(LexemeTypes::Semicolon) {
            Ok(l) => l,
            Err(e) => {
                return Err(e);
            },
        };
        Ok(SyntaxNode::new(SyntaxNodeType::Continue, Span::from_to(l.span, endl.span)))
    }

    /// A loop statement.
    fn parse_loop(&mut self) -> (r: Result<SyntaxNode, ShadowError>)
        requires
            old(self).wf(),
        ensures
            final(self).wf(),
            final(self)@.toks == old(self)@.toks,
            final(self)@.pos >= old(self)@.pos,
            match r {
                Ok(n) => spec_parse_loop(old(self)@.toks, old(self)@.pos) == Ok::<
                    (SyntaxNodeView, int),
                    ShadowErrorView,
                >((n@, final(self)@.pos)) && final(self)@.pos > old(self)@.pos,
                Err(e) => spec_parse_loop(old(self)@.toks, old(self)@.pos) == Err::<
                    (SyntaxNodeView, int),
                    ShadowErrorView,
                >(e@),
            },
        decreases self@.toks.len() - self@.pos, 7int,
    {
        let l = match self.pop() {
            Ok(l) => l,
            Err(e) => {
                return Err(e);
            },
        };
        match self.consume(LexemeTypes::OpenBrace) {
            Ok(_) => {},
            Err(e) => {
                return Err(e);
            },
        }
        let body = match _parse(self) {
            Ok(b) => b,
            Err(e) => {
                return Err(e);
            },
        };
        let endl = match self.consume(LexemeTypes::CloseBrace) {
            Ok(l) => l,
            Err(e) => {
                return Err(e);
            },
        };
        Ok(
            SyntaxNode::new(
                SyntaxNodeType::Loop { body },
                Span::from_to(l.span, endl.span),
            ),
        )
    }

    /// One statement, dispatched on its leading lexeme.
    fn parse_stmt(&mut self) -> (r: Result<SyntaxNode, ShadowError>)
        requires
            old(self).wf(),
        ensures
            final(self).wf(),
            final(self)@.toks == old(self)@.toks,
            final(self)@.pos >= old(self)@.pos,
            match r {
                Ok(n) => spec_parse_stmt(old(self)@.toks, old(self)@.pos) == Ok::<
                    (SyntaxNodeView, int),
                    ShadowErrorView,
                >((n@, final(self)@.pos)) && final(self)@.pos > old(self)@.pos,
                Err(e) => spec_parse_stmt(old(self)@.toks, old(self)@.pos) == Err::<
                    (SyntaxNodeView, int),
                    ShadowErrorView,
                >(e@),
            },
        decreases self@.toks.len() - self@.pos, 9int,
    {
        let pk = match self.peek() {
            Ok(l) => l,
            Err(e) => {
                return Err(e);
            },
        };
        match pk.ty {
            LexemeTypes::Keyword(Keywords::Fn) => self.parse_fndef(),
            LexemeTypes::Keyword(Keywords::Return) => self.parse_return(),
            LexemeTypes::Keyword(Keywords::Let) => self.parse_vdec(),
            LexemeTypes::Keyword(Keywords::If) => self.parse_if(),
            LexemeTypes::Keyword(Keywords::Loop) => self.parse_loop(),
            LexemeTypes::Keyword(Keywords::Break) => self.parse_break(),
            LexemeTypes::Keyword(Keywords::Continue) => self.parse_continue(),
            LexemeTypes::Idn(_) => self.parse_idn_start(),
            ty => Err(
                ShadowError::from_pos(
                    ErrType::Parse(
                        ParseErrors::UnexpectedToken(
                            ty,
                            LexemeTypes::Idn(String::from_str("<statement>")),
                        ),
                    ),
                    pk.span,
                ),
            ),
        }
    }
}

/// Statements up to the end of the stream or a closing brace.
pub fn _parse(pb: &mut ParseBuffer) -> (r: Result<SyntaxBlock, ShadowError>)
    requires
        old(pb).wf(),
    ensures
        final(pb).wf(),
        final(pb)@.toks == old(pb)@.toks,
        final(pb)@.pos >= old(pb)@.pos,
        match r {
            Ok(b) => spec_parse_block(old(pb)@.toks, old(pb)@.pos) == Ok::<
                (Seq<SyntaxNodeView>, int),
                ShadowErrorView,
            >((view_block(b@), final(pb)@.pos)),
            Err(e) => spec_parse_block(old(pb)@.toks, old(pb)@.pos) == Err::<
                (Seq<SyntaxNodeView>, int),
                ShadowErrorView,
            >(e@),
        },
    decreases pb@.toks.len() - pb@.pos, 10int,
{
    if pb.done() {
        let r: SyntaxBlock = Vec::new();
        proof {
            assert(view_block(r@) =~= Seq::<SyntaxNodeView>::empty());
        }
        return Ok(r);
    }
    let pk = match pb.peek() {
        Ok(l) => l,
        Err(e) => {
            proof {
                assert(false);
            }
            return Err(e);
        },
    };
    let closing = match &pk.ty {
        LexemeTypes::CloseBrace => true,
        _ => false,
    };
    if closing {
        let r: SyntaxBlock = Vec::new();
        proof {
            assert(view_block(r@) =~= Seq::<SyntaxNodeView>::empty());
        }
        return Ok(r);
    }
    let node = match pb.parse_stmt() {
        Ok(n) => n,
        Err(e) => {
            return Err(e);
        },
    };
    let mut rest = match _parse(pb) {
        Ok(b) => b,
        Err(e) => {
            return Err(e);
        },
    };
    let ghost restv = rest@;
    rest.insert(0, node);
    proof {
        lemma_view_block_prepend(rest@[0], restv);
        assert(rest@ == restv.insert(0, rest@[0]));
    }
    Ok(rest)
}

/// Turns a lexeme stream into the untyped syntax tree of the whole program,
/// or reports the first structural violation.
pub fn parse(lexemes: Vec<Lexeme>) -> (r: Result<SyntaxBlock, ShadowError>)
    requires
        lexemes@.len() > 0,
    ensures
        match r {
            Ok(b) => spec_parse(view_toks(lexemes@)) == Ok::<
                Seq<SyntaxNodeView>,
                ShadowErrorView,
            >(view_block(b@)),
            Err(e) => spec_parse(view_toks(lexemes@)) == Err::<Seq<SyntaxNodeView>, _>(e@),
        },
{
    let mut parser = ParseBuffer::new(lexemes);
    match _parse(&mut parser) {
        Ok(root) => Ok(root),
        Err(e) => Err(e),
    }
}

} // verus!
