//! The semantic analyser: resolves names against lexical scopes, checks
//! types, validates calls, and produces a typed tree, failing fast on the
//! first violation. It is a pure function of the syntax tree: no state
//! survives one analysis.

use vstd::prelude::*;

use crate::errors::{ErrType, ErrTypeView, SemErrors, SemErrorsView, ShadowError, ShadowErrorView};
use crate::parse::{view_block as view_syntax_block, view_expr, view_expr_list, view_name, view_node,
    view_params, view_spanned_expr, BinOpTypes, CompTypes, Expression, ExpressionView,
    SyntaxBlock, SyntaxNode, SyntaxNodeType, SyntaxNodeTypeView, SyntaxNodeView};
use crate::text::str_eq;
use crate::{spec_type_of_name, Span, Spanned, SpannedView, Type};

verus! {

// ---------------------------------------------------------------------------
// The typed tree
// ---------------------------------------------------------------------------

/// A typed expression node: the expression with its resolved type.
#[derive(Debug)]
pub struct AbstractExpression {
    pub expr: Box<AbstractExpressionType>,
    pub span: Span,
    pub ty: Type,
}

/// The body of a typed expression.
#[derive(Debug)]
pub enum AbstractExpressionType {
    IntLit(i64),
    BoolLit(bool),
    Variable(String),
    FnCall(String, Vec<AbstractExpression>),
    BinOp(AbstractExpression, BinOpTypes, AbstractExpression),
    Comp(AbstractExpression, CompTypes, AbstractExpression),
    Group(AbstractExpression),
}

impl AbstractExpression {
    pub fn new(expr: AbstractExpressionType, span: Span, ty: Type) -> (r: AbstractExpression)
        ensures
            r.expr == Box::new(expr),
            r.span == span,
            r.ty == ty,
    {
        AbstractExpression { expr: Box::new(expr), span, ty }
    }
}

/// The mathematical model of a typed expression.
pub struct AbstractExpressionView {
    pub expr: Box<AbstractExpressionTypeView>,
    pub span: Span,
    pub ty: Type,
}

/// The model of a typed expression body.
pub enum AbstractExpressionTypeView {
    IntLit(i64),
    BoolLit(bool),
    Variable(Seq<char>),
    FnCall(Seq<char>, Seq<AbstractExpressionView>),
    BinOp(AbstractExpressionView, BinOpTypes, AbstractExpressionView),
    Comp(AbstractExpressionView, CompTypes, AbstractExpressionView),
    Group(AbstractExpressionView),
}

/// The model of a typed expression.
pub open spec fn view_aexpr(e: &AbstractExpression) -> AbstractExpressionView
    decreases e,
{
    AbstractExpressionView { expr: Box::new(view_aexpr_ty(&e.expr)), span: e.span, ty: e.ty }
}

/// The model of a typed expression body.
pub open spec fn view_aexpr_ty(t: &AbstractExpressionType) -> AbstractExpressionTypeView
    decreases t,
{
    match t {
        AbstractExpressionType::IntLit(n) => AbstractExpressionTypeView::IntLit(*n),
        AbstractExpressionType::BoolLit(b) => AbstractExpressionTypeView::BoolLit(*b),
        AbstractExpressionType::Variable(s) => AbstractExpressionTypeView::Variable(s@),
        AbstractExpressionType::FnCall(s, args) => AbstractExpressionTypeView::FnCall(
            s@,
            view_aexpr_list(args@),
        ),
        AbstractExpressionType::BinOp(l, op, r) => AbstractExpressionTypeView::BinOp(
            view_aexpr(l),
            *op,
            view_aexpr(r),
        ),
        AbstractExpressionType::Comp(l, op, r) => AbstractExpressionTypeView::Comp(
            view_aexpr(l),
            *op,
            view_aexpr(r),
        ),
        AbstractExpressionType::Group(g) => AbstractExpressionTypeView::Group(view_aexpr(g)),
    }
}

/// The model of a list of typed expressions.
pub open spec fn view_aexpr_list(args: Seq<AbstractExpression>) -> Seq<AbstractExpressionView>
    decreases args,
{
    if args.len() == 0 {
        Seq::empty()
    } else {
        view_aexpr_list(args.drop_last()).push(view_aexpr(&args.last()))
    }
}

impl View for AbstractExpression {
    type V = AbstractExpressionView;

    open spec fn view(&self) -> AbstractExpressionView {
        view_aexpr(self)
    }
}

/// A typed block: an ordered sequence of typed statements.
pub type AbstractBlock = Vec<AbstractNode>;

/// A typed statement.
#[derive(Debug)]
pub enum AbstractNodeType {
    Function {
        name: Spanned<String>,
        params: Vec<(Spanned<Type>, Spanned<String>)>,
        rty: Spanned<Type>,
        body: AbstractBlock,
    },
    Return { expr: Option<AbstractExpression> },
    VDec { name: Spanned<String>, init: AbstractExpression },
    If {
        cond: Spanned<AbstractExpression>,
        body: AbstractBlock,
        else_block: Option<AbstractBlock>,
        else_ifs: Vec<(Spanned<AbstractExpression>, AbstractBlock)>,
    },
    VRes { new: AbstractExpression, name: Spanned<String> },
    StandFnCall { name: Spanned<String>, args: Vec<AbstractExpression>, rty: Type },
    Loop { body: AbstractBlock },
    Break,
    Continue,
}

/// A typed statement with its source range.
#[derive(Debug)]
pub struct AbstractNode {
    pub ty: AbstractNodeType,
    pub span: Span,
}

impl AbstractNode {
    pub fn new(ty: AbstractNodeType, span: Span) -> (r: AbstractNode)
        ensures
            r.ty == ty,
            r.span == span,
    {
        AbstractNode { ty, span }
    }
}

/// The model of a typed statement body.
pub enum AbstractNodeTypeView {
    Function {
        name: SpannedView<Seq<char>>,
        params: Seq<(SpannedView<Type>, SpannedView<Seq<char>>)>,
        rty: SpannedView<Type>,
        body: Seq<AbstractNodeView>,
    },
    Return { expr: Option<AbstractExpressionView> },
    VDec { name: SpannedView<Seq<char>>, init: AbstractExpressionView },
    If {
        cond: SpannedView<AbstractExpressionView>,
        body: Seq<AbstractNodeView>,
        else_block: Option<Seq<AbstractNodeView>>,
        else_ifs: Seq<(SpannedView<AbstractExpressionView>, Seq<AbstractNodeView>)>,
    },
    VRes { new: AbstractExpressionView, name: SpannedView<Seq<char>> },
    StandFnCall { name: SpannedView<Seq<char>>, args: Seq<AbstractExpressionView>, rty: Type },
    Loop { body: Seq<AbstractNodeView> },
    Break,
    Continue,
}

/// The model of a typed statement.
pub struct AbstractNodeView {
    pub ty: AbstractNodeTypeView,
    pub span: Span,
}

/// The model of a typed parameter.
pub open spec fn view_typed_param(p: &(Spanned<Type>, Spanned<String>)) -> (
    SpannedView<Type>,
    SpannedView<Seq<char>>,
) {
    (
        SpannedView { inner: p.0.inner, span: p.0.span },
        SpannedView { inner: p.1.inner@, span: p.1.span },
    )
}

/// The model of a typed parameter list.
pub open spec fn view_typed_params(params: Seq<(Spanned<Type>, Spanned<String>)>) -> Seq<
    (SpannedView<Type>, SpannedView<Seq<char>>),
> {
    params.map_values(|p: (Spanned<Type>, Spanned<String>)| view_typed_param(&p))
}

/// The model of a typed statement.
pub open spec fn view_anode(n: &AbstractNode) -> AbstractNodeView
    decreases n,
{
    AbstractNodeView { ty: view_anode_ty(&n.ty), span: n.span }
}

/// The model of a typed statement body.
pub open spec fn view_anode_ty(t: &AbstractNodeType) -> AbstractNodeTypeView
    decreases t,
{
    match t {
        AbstractNodeType::Function { name, params, rty, body } => AbstractNodeTypeView::Function {
            name: view_name(name),
            params: view_typed_params(params@),
            rty: SpannedView { inner: rty.inner, span: rty.span },
            body: view_ablock(body@),
        },
        AbstractNodeType::Return { expr } => AbstractNodeTypeView::Return {
            expr: match expr {
                Some(e) => Some(view_aexpr(e)),
                None => None,
            },
        },
        AbstractNodeType::VDec { name, init } => AbstractNodeTypeView::VDec {
            name: view_name(name),
            init: view_aexpr(init),
        },
        AbstractNodeType::If { cond, body, else_block, else_ifs } => AbstractNodeTypeView::If {
            cond: SpannedView { inner: view_aexpr(&cond.inner), span: cond.span },
            body: view_ablock(body@),
            else_block: match else_block {
                Some(b) => Some(view_ablock(b@)),
                None => None,
            },
            else_ifs: view_aelifs(else_ifs@),
        },
        AbstractNodeType::VRes { new, name } => AbstractNodeTypeView::VRes {
            new: view_aexpr(new),
            name: view_name(name),
        },
        AbstractNodeType::StandFnCall { name, args, rty } => AbstractNodeTypeView::StandFnCall {
            name: view_name(name),
            args: view_aexpr_list(args@),
            rty: *rty,
        },
        AbstractNodeType::Loop { body } => AbstractNodeTypeView::Loop { body: view_ablock(body@) },
        AbstractNodeType::Break => AbstractNodeTypeView::Break,
        AbstractNodeType::Continue => AbstractNodeTypeView::Continue,
    }
}

/// The model of a typed block.
pub open spec fn view_ablock(b: Seq<AbstractNode>) -> Seq<AbstractNodeView>
    decreases b,
{
    if b.len() == 0 {
        Seq::empty()
    } else {
        view_ablock(b.drop_last()).push(view_anode(&b.last()))
    }
}

/// The model of a typed `else if` chain.
pub open spec fn view_aelifs(e: Seq<(Spanned<AbstractExpression>, AbstractBlock)>) -> Seq<
    (SpannedView<AbstractExpressionView>, Seq<AbstractNodeView>),
>
    decreases e,
{
    if e.len() == 0 {
        Seq::empty()
    } else {
        view_aelifs(e.drop_last()).push(
            (
                SpannedView { inner: view_aexpr(&e.last().0.inner), span: e.last().0.span },
                view_ablock(e.last().1@),
            ),
        )
    }
}

impl View for AbstractNode {
    type V = AbstractNodeView;

    open spec fn view(&self) -> AbstractNodeView {
        view_anode(self)
    }
}

// ---------------------------------------------------------------------------
// Scopes and the function table
// ---------------------------------------------------------------------------

/// The syntactic signature of a function, as the table of visible functions
/// keeps it: type names stay raw and are read again at each use, so a bad
/// type name surfaces where it is first needed.
#[derive(Debug)]
pub struct FnSig {
    pub name: String,
    pub params: Vec<(Spanned<String>, Spanned<String>)>,
    pub rty: Spanned<String>,
}

/// The mathematical model of a function signature.
pub struct FnSigView {
    pub name: Seq<char>,
    pub params: Seq<(SpannedView<Seq<char>>, SpannedView<Seq<char>>)>,
    pub rty: SpannedView<Seq<char>>,
}

impl View for FnSig {
    type V = FnSigView;

    open spec fn view(&self) -> FnSigView {
        FnSigView {
            name: self.name@,
            params: view_params(self.params@),
            rty: view_name(&self.rty),
        }
    }
}

/// One lexical scope: the variables declared in it, oldest first; a
/// redeclaration in the same scope stands behind the older entry and wins
/// the lookup.
#[derive(Debug)]
pub struct Scope {
    pub vars: Vec<(String, Type)>,
}

impl Scope {
    pub fn new() -> (r: Scope)
        ensures
            r.vars@.len() == 0,
    {
        Scope { vars: Vec::new() }
    }
}

/// The model of a scope: name and type pairs, oldest first.
pub open spec fn view_scope(s: &Scope) -> Seq<(Seq<char>, Type)> {
    s.vars@.map_values(|p: (String, Type)| (p.0@, p.1))
}

/// The model of the scope stack: innermost scope last.
pub open spec fn view_scopes(s: Seq<Scope>) -> Seq<Seq<(Seq<char>, Type)>> {
    s.map_values(|sc: Scope| view_scope(&sc))
}

/// The model of the function table: most recent definition first.
pub open spec fn view_funs(s: Seq<FnSig>) -> Seq<FnSigView> {
    s.map_values(|f: FnSig| f@)
}

/// The working state of one analysis.
#[derive(Debug)]
pub struct SemanticBuffer {
    /// The flat, program-wide function table, populated left to right as
    /// definitions are visited and never popped; most recent first.
    pub functions: Vec<FnSig>,
    /// The stack of lexical scopes, innermost last.
    pub scopes: Vec<Scope>,
    /// The stack of enclosing function signatures, innermost last; a return
    /// statement is checked against the innermost one.
    pub enclosing: Vec<FnSig>,
}

/// The mathematical model of the analysis state.
pub struct SemCtx {
    pub funs: Seq<FnSigView>,
    pub scopes: Seq<Seq<(Seq<char>, Type)>>,
    pub encl: Seq<FnSigView>,
}

impl View for SemanticBuffer {
    type V = SemCtx;

    open spec fn view(&self) -> SemCtx {
        SemCtx {
            funs: view_funs(self.functions@),
            scopes: view_scopes(self.scopes@),
            encl: view_funs(self.enclosing@),
        }
    }
}

impl SemanticBuffer {
    pub fn new() -> (r: SemanticBuffer)
        ensures
            r@.funs.len() == 0,
            r@.scopes.len() == 0,
            r@.encl.len() == 0,
    {
        SemanticBuffer { functions: Vec::new(), scopes: Vec::new(), enclosing: Vec::new() }
    }
}

// ---------------------------------------------------------------------------
// Lookups
// ---------------------------------------------------------------------------

/// The type of a name in one scope: the youngest declaration wins.
pub open spec fn spec_scope_find(vars: Seq<(Seq<char>, Type)>, name: Seq<char>) -> Option<Type>
    decreases vars.len(),
{
    if vars.len() == 0 {
        None
    } else if vars.last().0 == name {
        Some(vars.last().1)
    } else {
        spec_scope_find(vars.drop_last(), name)
    }
}

/// The type of a name across the scope stack, innermost scope first.
pub open spec fn spec_scopes_find(scopes: Seq<Seq<(Seq<char>, Type)>>, name: Seq<char>) -> Option<
    Type,
>
    decreases scopes.len(),
{
    if scopes.len() == 0 {
        None
    } else {
        match spec_scope_find(scopes.last(), name) {
            Some(t) => Some(t),
            None => spec_scopes_find(scopes.drop_last(), name),
        }
    }
}

/// The first signature of the given name in the function table.
pub open spec fn spec_fun_find(funs: Seq<FnSigView>, name: Seq<char>) -> Option<FnSigView>
    decreases funs.len(),
{
    if funs.len() == 0 {
        None
    } else if funs.first().name == name {
        Some(funs.first())
    } else {
        spec_fun_find(funs.drop_first(), name)
    }
}

/// The first parameter of the given name, with its declared type name.
pub open spec fn spec_param_find(
    params: Seq<(SpannedView<Seq<char>>, SpannedView<Seq<char>>)>,
    name: Seq<char>,
) -> Option<SpannedView<Seq<char>>>
    decreases params.len(),
{
    if params.len() == 0 {
        None
    } else if params.first().1.inner == name {
        Some(params.first().0)
    } else {
        spec_param_find(params.drop_first(), name)
    }
}

/// Looks a variable up in one scope, youngest declaration first.
fn scope_find(sc: &Scope, name: &String) -> (r: Option<Type>)
    ensures
        r == spec_scope_find(view_scope(sc), name@),
{
    let ghost full = view_scope(sc);
    let mut i: usize = sc.vars.len();
    proof {
        assert(full.take(i as int) =~= full);
    }
    while i > 0
        invariant
            i <= sc.vars.len(),
            full == view_scope(sc),
            spec_scope_find(full, name@) == spec_scope_find(full.take(i as int), name@),
        decreases i,
    {
        let hit = str_eq(sc.vars[i - 1].0.as_str(), name.as_str());
        proof {
            assert(full.take(i as int).last() == full[i - 1]);
            assert(full.take(i as int).drop_last() =~= full.take(i - 1));
        }
        if hit {
            return Some(sc.vars[i - 1].1);
        }
        i = i - 1;
    }
    proof {
        assert(full.take(0) =~= Seq::<(Seq<char>, Type)>::empty());
    }
    None
}

/// Looks a variable up across the scope stack, innermost scope first.
fn scopes_find(scopes: &Vec<Scope>, name: &String) -> (r: Option<Type>)
    ensures
        r == spec_scopes_find(view_scopes(scopes@), name@),
{
    let ghost full = view_scopes(scopes@);
    let mut i: usize = scopes.len();
    proof {
        assert(full.take(i as int) =~= full);
    }
    while i > 0
        invariant
            i <= scopes.len(),
            full == view_scopes(scopes@),
            spec_scopes_find(full, name@) == spec_scopes_find(full.take(i as int), name@),
        decreases i,
    {
        proof {
            assert(full.take(i as int).last() == full[i - 1]);
            assert(full.take(i as int).drop_last() =~= full.take(i - 1));
        }
        match scope_find(&scopes[i - 1], name) {
            Some(t) => {
                return Some(t);
            },
            None => {},
        }
        i = i - 1;
    }
    proof {
        assert(full.take(0) =~= Seq::<Seq<(Seq<char>, Type)>>::empty());
    }
    None
}

/// Finds the first function of the given name, most recent definition
/// first; yields its index in the table.
fn fun_find(funs: &Vec<FnSig>, name: &String) -> (r: Option<usize>)
    ensures
        match r {
            Some(i) => i < funs@.len() && spec_fun_find(view_funs(funs@), name@) == Some(
                funs@[i as int]@,
            ),
            None => spec_fun_find(view_funs(funs@), name@) is None,
        },
{
    let ghost full = view_funs(funs@);
    let mut i: usize = 0;
    proof {
        assert(full.skip(0) =~= full);
    }
    while i < funs.len()
        invariant
            i <= funs.len(),
            full == view_funs(funs@),
            spec_fun_find(full, name@) == spec_fun_find(full.skip(i as int), name@),
        decreases funs.len() - i,
    {
        proof {
            assert(full.skip(i as int).first() == full[i as int]);
            assert(full.skip(i as int).drop_first() =~= full.skip(i + 1));
        }
        if str_eq(funs[i].name.as_str(), name.as_str()) {
            return Some(i);
        }
        i = i + 1;
    }
    proof {
        assert(full.skip(funs@.len() as int) =~= Seq::<FnSigView>::empty());
    }
    None
}

/// Finds the first parameter of the given name; yields its index.
fn param_find(params: &Vec<(Spanned<String>, Spanned<String>)>, name: &String) -> (r: Option<
    usize,
>)
    ensures
        match r {
            Some(i) => i < params@.len() && spec_param_find(view_params(params@), name@) == Some(
                view_name(&params@[i as int].0),
            ),
            None => spec_param_find(view_params(params@), name@) is None,
        },
{
    let ghost full = view_params(params@);
    let mut i: usize = 0;
    proof {
        assert(full.skip(0) =~= full);
    }
    while i < params.len()
        invariant
            i <= params.len(),
            full == view_params(params@),
            spec_param_find(full, name@) == spec_param_find(full.skip(i as int), name@),
        decreases params.len() - i,
    {
        proof {
            assert(full.skip(i as int).first() == full[i as int]);
            assert(full.skip(i as int).drop_first() =~= full.skip(i + 1));
        }
        if str_eq(params[i].1.inner.as_str(), name.as_str()) {
            return Some(i);
        }
        i = i + 1;
    }
    proof {
        assert(full.skip(params@.len() as int) =~= Seq::<
            (SpannedView<Seq<char>>, SpannedView<Seq<char>>),
        >::empty());
    }
    None
}

/// The length and elements of a modelled typed-expression list.
pub proof fn lemma_view_aexpr_list_props(s: Seq<AbstractExpression>)
    ensures
        view_aexpr_list(s).len() == s.len(),
        forall|i: int| 0 <= i < s.len() ==> view_aexpr_list(s)[i] == view_aexpr(&s[i]),
    decreases s.len(),
{
    if s.len() > 0 {
        lemma_view_aexpr_list_props(s.drop_last());
    }
}

// ---------------------------------------------------------------------------
// The analysis: specification
// ---------------------------------------------------------------------------

/// A typed expression value.
pub open spec fn aev(ty: AbstractExpressionTypeView, span: Span, t: Type) -> AbstractExpressionView {
    AbstractExpressionView { expr: Box::new(ty), span, ty: t }
}

/// A semantic error value at a span.
pub open spec fn sem_err(e: SemErrorsView, span: Span) -> ShadowErrorView {
    ShadowErrorView { ty: ErrTypeView::Semantic(e), span }
}

/// The typed form of one expression under the given state, bottom-up, or
/// the first violation. The state is only read: expressions declare
/// nothing.
pub open spec fn spec_analyze_expr(ctx: SemCtx, e: ExpressionView, span: Span) -> Result<
    AbstractExpressionView,
    ShadowErrorView,
>
    decreases e,
{
    match e {
        ExpressionView::BoolLit(b) => Ok(aev(AbstractExpressionTypeView::BoolLit(b), span, Type::Bool)),
        ExpressionView::IntLit(n) => Ok(aev(AbstractExpressionTypeView::IntLit(n), span, Type::Int)),
        ExpressionView::BinOp(o1, op, o2) => match spec_analyze_expr(ctx, o1.inner, o1.span) {
            Err(er) => Err(er),
            Ok(r1) => match spec_analyze_expr(ctx, o2.inner, o2.span) {
                Err(er) => Err(er),
                Ok(r2) => {
                    let sp = crate::parse::spec_from_to(r1.span, r2.span);
                    if r1.ty != r2.ty {
                        Err(sem_err(SemErrorsView::MismatchedTypes(r1.ty, r2.ty), sp))
                    } else {
                        Ok(aev(AbstractExpressionTypeView::BinOp(r1, op, r2), sp, r1.ty))
                    }
                },
            },
        },
        ExpressionView::Comp(o1, op, o2) => match spec_analyze_expr(ctx, o1.inner, o1.span) {
            Err(er) => Err(er),
            Ok(r1) => match spec_analyze_expr(ctx, o2.inner, o2.span) {
                Err(er) => Err(er),
                Ok(r2) => {
                    let sp = crate::parse::spec_from_to(r1.span, r2.span);
                    if r1.ty != r2.ty {
                        Err(sem_err(SemErrorsView::MismatchedTypes(r1.ty, r2.ty), sp))
                    } else {
                        Ok(aev(AbstractExpressionTypeView::Comp(r1, op, r2), sp, Type::Bool))
                    }
                },
            },
        },
        ExpressionView::Group(g) => match spec_analyze_expr(ctx, g.inner, g.span) {
            Err(er) => Err(er),
            Ok(r) => Ok(aev(AbstractExpressionTypeView::Group(r), g.span, r.ty)),
        },
        ExpressionView::Variable(name) => match spec_scopes_find(ctx.scopes, name) {
            Some(t) => Ok(aev(AbstractExpressionTypeView::Variable(name), span, t)),
            None => if ctx.encl.len() > 0 {
                match spec_param_find(ctx.encl.last().params, name) {
                    Some(tyn) => match spec_type_of_name(tyn.inner, tyn.span) {
                        Ok(t) => Ok(aev(AbstractExpressionTypeView::Variable(name), span, t)),
                        Err(er) => Err(er),
                    },
                    None => Err(sem_err(SemErrorsView::VariableNotFound(name), span)),
                }
            } else {
                Err(sem_err(SemErrorsView::VariableNotFound(name), span))
            },
        },
        ExpressionView::FnCall(name, args) => match spec_analyze_expr_list(ctx, args) {
            Err(er) => Err(er),
            Ok(nargs) => match spec_fun_find(ctx.funs, name) {
                None => Err(sem_err(SemErrorsView::FunctionNotFound(name), span)),
                Some(sig) => if nargs.len() != sig.params.len() {
                    Err(
                        sem_err(
                            SemErrorsView::MismatchedNumArgs(
                                sig.params.len() as int,
                                args.len() as int,
                            ),
                            span,
                        ),
                    )
                } else {
                    match spec_check_args(sig.params, nargs) {
                        Err(er) => Err(er),
                        Ok(u) => match spec_type_of_name(sig.rty.inner, sig.rty.span) {
                            Ok(rt) => Ok(
                                aev(AbstractExpressionTypeView::FnCall(name, nargs), span, rt),
                            ),
                            Err(er) => Err(er),
                        },
                    }
                },
            },
        },
    }
}

/// The typed forms of a list of expressions, left to right, fail-fast.
pub open spec fn spec_analyze_expr_list(
    ctx: SemCtx,
    args: Seq<SpannedView<ExpressionView>>,
) -> Result<Seq<AbstractExpressionView>, ShadowErrorView>
    decreases args,
{
    if args.len() == 0 {
        Ok(Seq::empty())
    } else {
        match spec_analyze_expr(ctx, args.first().inner, args.first().span) {
            Err(er) => Err(er),
            Ok(a) => match spec_analyze_expr_list(ctx, args.drop_first()) {
                Err(er) => Err(er),
                Ok(rest) => Ok(seq![a] + rest),
            },
        }
    }
}

/// Each argument against the matching declared parameter type, positionally
/// and in order.
pub open spec fn spec_check_args(
    params: Seq<(SpannedView<Seq<char>>, SpannedView<Seq<char>>)>,
    nargs: Seq<AbstractExpressionView>,
) -> Result<(), ShadowErrorView>
    decreases params.len(),
{
    if params.len() == 0 || nargs.len() == 0 {
        Ok(())
    } else {
        match spec_type_of_name(params.first().0.inner, params.first().0.span) {
            Err(er) => Err(er),
            Ok(t) => if nargs.first().ty != t {
                Err(
                    sem_err(
                        SemErrorsView::ArgTyMismatch(t, nargs.first().ty),
                        nargs.first().span,
                    ),
                )
            } else {
                spec_check_args(params.drop_first(), nargs.drop_first())
            },
        }
    }
}

/// Declared parameters with their type names read into types.
pub open spec fn spec_convert_params(
    params: Seq<(SpannedView<Seq<char>>, SpannedView<Seq<char>>)>,
) -> Result<Seq<(SpannedView<Type>, SpannedView<Seq<char>>)>, ShadowErrorView>
    decreases params.len(),
{
    if params.len() == 0 {
        Ok(Seq::empty())
    } else {
        match spec_type_of_name(params.first().0.inner, params.first().0.span) {
            Err(er) => Err(er),
            Ok(t) => match spec_convert_params(params.drop_first()) {
                Err(er) => Err(er),
                Ok(rest) => Ok(
                    seq![(SpannedView { inner: t, span: params.first().0.span }, params.first().1)]
                        + rest,
                ),
            },
        }
    }
}

/// The typed form of one statement, with the state it leaves behind: a
/// declaration extends the innermost scope, a function definition joins the
/// function table for good, and every entered body runs in its own pushed
/// scope.
pub open spec fn spec_analyze_node(ctx: SemCtx, n: SyntaxNodeView) -> Result<
    (AbstractNodeView, SemCtx),
    ShadowErrorView,
>
    decreases n,
{
    match n.ty {
        SyntaxNodeTypeView::Function { name, params, rty, body } => {
            let sig = FnSigView { name: name.inner, params, rty };
            let ctx1 = SemCtx {
                funs: seq![sig] + ctx.funs,
                scopes: ctx.scopes.push(Seq::empty()),
                encl: ctx.encl.push(sig),
            };
            match spec_analyze_block(ctx1, body) {
                Err(er) => Err(er),
                Ok((body2, ctx2)) => match spec_type_of_name(rty.inner, rty.span) {
                    Err(er) => Err(er),
                    Ok(rt) => match spec_convert_params(params) {
                        Err(er) => Err(er),
                        Ok(nparams) => Ok(
                            (
                                AbstractNodeView {
                                    ty: AbstractNodeTypeView::Function {
                                        name,
                                        params: nparams,
                                        rty: SpannedView { inner: rt, span: rty.span },
                                        body: body2,
                                    },
                                    span: n.span,
                                },
                                SemCtx {
                                    funs: ctx2.funs,
                                    scopes: ctx2.scopes.drop_last(),
                                    encl: ctx2.encl.drop_last(),
                                },
                            ),
                        ),
                    },
                },
            }
        },
        SyntaxNodeTypeView::Return { expr } => if ctx.encl.len() == 0 {
            Err(sem_err(SemErrorsView::ReturnOutsideFn, n.span))
        } else {
            match spec_type_of_name(ctx.encl.last().rty.inner, ctx.encl.last().rty.span) {
                Err(er) => Err(er),
                Ok(rt) => match expr.inner {
                    Some(e0) => match spec_analyze_expr(ctx, e0, expr.span) {
                        Err(er) => Err(er),
                        Ok(inner) => if rt != inner.ty {
                            Err(
                                sem_err(
                                    SemErrorsView::MismatchedFnRetTy(rt, inner.ty),
                                    expr.span,
                                ),
                            )
                        } else {
                            Ok(
                                (
                                    AbstractNodeView {
                                        ty: AbstractNodeTypeView::Return { expr: Some(inner) },
                                        span: expr.span,
                                    },
                                    ctx,
                                ),
                            )
                        },
                    },
                    None => if rt != Type::Void {
                        Err(sem_err(SemErrorsView::MismatchedFnRetTy(rt, Type::Void), expr.span))
                    } else {
                        Ok(
                            (
                                AbstractNodeView {
                                    ty: AbstractNodeTypeView::Return { expr: None },
                                    span: expr.span,
                                },
                                ctx,
                            ),
                        )
                    },
                },
            }
        },
        SyntaxNodeTypeView::VDec { init, name } => match spec_analyze_expr(
            ctx,
            init.inner,
            init.span,
        ) {
            Err(er) => Err(er),
            Ok(ex) => if ctx.scopes.len() == 0 {
                Err(sem_err(SemErrorsView::CompilerNotInAScope, init.span))
            } else {
                let inner = ctx.scopes.last().push((name.inner, ex.ty));
                Ok(
                    (
                        AbstractNodeView {
                            ty: AbstractNodeTypeView::VDec { name, init: ex },
                            span: n.span,
                        },
                        SemCtx {
                            funs: ctx.funs,
                            scopes: ctx.scopes.update(ctx.scopes.len() - 1, inner),
                            encl: ctx.encl,
                        },
                    ),
                )
            },
        },
        SyntaxNodeTypeView::If { cond, body, else_block, else_ifs } => match spec_analyze_expr(
            ctx,
            cond.inner,
            cond.span,
        ) {
            Err(er) => Err(er),
            Ok(c) => if c.ty != Type::Bool {
                Err(sem_err(SemErrorsView::CondNotBool(c.ty), cond.span))
            } else {
                match spec_analyze_block(
                    SemCtx {
                        funs: ctx.funs,
                        scopes: ctx.scopes.push(Seq::empty()),
                        encl: ctx.encl,
                    },
                    body,
                ) {
                    Err(er) => Err(er),
                    Ok((body2, ctxa)) => {
                        let ctx2 = SemCtx {
                            funs: ctxa.funs,
                            scopes: ctxa.scopes.drop_last(),
                            encl: ctxa.encl,
                        };
                        let else_read: Result<
                            (Option<Seq<AbstractNodeView>>, SemCtx),
                            ShadowErrorView,
                        > = match else_block {
                            None => Ok((None, ctx2)),
                            Some(eb) => match spec_analyze_block(
                                SemCtx {
                                    funs: ctx2.funs,
                                    scopes: ctx2.scopes.push(Seq::empty()),
                                    encl: ctx2.encl,
                                },
                                eb,
                            ) {
                                Err(er) => Err(er),
                                Ok((eb2, ctxb)) => Ok(
                                    (
                                        Some(eb2),
                                        SemCtx {
                                            funs: ctxb.funs,
                                            scopes: ctxb.scopes.drop_last(),
                                            encl: ctxb.encl,
                                        },
                                    ),
                                ),
                            },
                        };
                        match else_read {
                            Err(er) => Err(er),
                            Ok((else2, ctx3)) => match spec_analyze_elifs(ctx3, else_ifs) {
                                Err(er) => Err(er),
                                Ok((elifs2, ctx4)) => Ok(
                                    (
                                        AbstractNodeView {
                                            ty: AbstractNodeTypeView::If {
                                                cond: SpannedView {
                                                    inner: c,
                                                    span: cond.span,
                                                },
                                                body: body2,
                                                else_block: else2,
                                                else_ifs: elifs2,
                                            },
                                            span: n.span,
                                        },
                                        ctx4,
                                    ),
                                ),
                            },
                        }
                    },
                }
            },
        },
        SyntaxNodeTypeView::VRes { new, name } => match spec_analyze_expr(
            ctx,
            new.inner,
            new.span,
        ) {
            Err(er) => Err(er),
            Ok(ex) => match spec_scopes_find(ctx.scopes, name.inner) {
                Some(t) => if t != ex.ty {
                    Err(
                        sem_err(
                            SemErrorsView::CannotReassignVariableType(name.inner, t, ex.ty),
                            n.span,
                        ),
                    )
                } else {
                    Ok(
                        (
                            AbstractNodeView {
                                ty: AbstractNodeTypeView::VRes { new: ex, name },
                                span: n.span,
                            },
                            ctx,
                        ),
                    )
                },
                None => Err(sem_err(SemErrorsView::VariableNotFound(name.inner), n.span)),
            },
        },
        SyntaxNodeTypeView::StandFnCall { name, args } => match spec_analyze_expr_list(
            ctx,
            args,
        ) {
            Err(er) => Err(er),
            Ok(nargs) => match spec_fun_find(ctx.funs, name.inner) {
                None => Err(sem_err(SemErrorsView::FunctionNotFound(name.inner), n.span)),
                Some(sig) => if nargs.len() != sig.params.len() {
                    Err(
                        sem_err(
                            SemErrorsView::MismatchedNumArgs(
                                sig.params.len() as int,
                                args.len() as int,
                            ),
                            n.span,
                        ),
                    )
                } else {
                    match spec_check_args(sig.params, nargs) {
                        Err(er) => Err(er),
                        Ok(u) => match spec_type_of_name(sig.rty.inner, sig.rty.span) {
                            Err(er) => Err(er),
                            Ok(rt) => Ok(
                                (
                                    AbstractNodeView {
                                        ty: AbstractNodeTypeView::StandFnCall {
                                            name,
                                            args: nargs,
                                            rty: rt,
                                        },
                                        span: n.span,
                                    },
                                    ctx,
                                ),
                            ),
                        },
                    }
                },
            },
        },
        SyntaxNodeTypeView::Loop { body } => match spec_analyze_block(
            SemCtx { funs: ctx.funs, scopes: ctx.scopes.push(Seq::empty()), encl: ctx.encl },
            body,
        ) {
            Err(er) => Err(er),
            Ok((body2, ctxa)) => Ok(
                (
                    AbstractNodeView { ty: AbstractNodeTypeView::Loop { body: body2 }, span: n.span },
                    SemCtx { funs: ctxa.funs, scopes: ctxa.scopes.drop_last(), encl: ctxa.encl },
                ),
            ),
        },
        SyntaxNodeTypeView::Break => Ok(
            (AbstractNodeView { ty: AbstractNodeTypeView::Break, span: n.span }, ctx),
        ),
        SyntaxNodeTypeView::Continue => Ok(
            (AbstractNodeView { ty: AbstractNodeTypeView::Continue, span: n.span }, ctx),
        ),
    }
}

/// The typed forms of the `else if` arms, each condition a boolean and each
/// body in its own pushed scope.
pub open spec fn spec_analyze_elifs(
    ctx: SemCtx,
    elifs: Seq<(SpannedView<ExpressionView>, Seq<SyntaxNodeView>)>,
) -> Result<
    (Seq<(SpannedView<AbstractExpressionView>, Seq<AbstractNodeView>)>, SemCtx),
    ShadowErrorView,
>
    decreases elifs,
{
    if elifs.len() == 0 {
        Ok((Seq::empty(), ctx))
    } else {
        let arm = elifs.first();
        match spec_analyze_expr(ctx, arm.0.inner, arm.0.span) {
            Err(er) => Err(er),
            Ok(c) => if c.ty != Type::Bool {
                Err(sem_err(SemErrorsView::CondNotBool(c.ty), arm.0.span))
            } else {
                match spec_analyze_block(
                    SemCtx {
                        funs: ctx.funs,
                        scopes: ctx.scopes.push(Seq::empty()),
                        encl: ctx.encl,
                    },
                    arm.1,
                ) {
                    Err(er) => Err(er),
                    Ok((blk2, ctxa)) => {
                        let ctx2 = SemCtx {
                            funs: ctxa.funs,
                            scopes: ctxa.scopes.drop_last(),
                            encl: ctxa.encl,
                        };
                        match spec_analyze_elifs(ctx2, elifs.drop_first()) {
                            Err(er) => Err(er),
                            Ok((rest, ctx3)) => Ok(
                                (
                                    seq![(SpannedView { inner: c, span: arm.0.span }, blk2)]
                                        + rest,
                                    ctx3,
                                ),
                            ),
                        }
                    },
                }
            },
        }
    }
}

/// The typed forms of a block of statements, in program order, each
/// statement analysed in the state the one before left behind.
pub open spec fn spec_analyze_block(ctx: SemCtx, b: Seq<SyntaxNodeView>) -> Result<
    (Seq<AbstractNodeView>, SemCtx),
    ShadowErrorView,
>
    decreases b,
{
    if b.len() == 0 {
        Ok((Seq::empty(), ctx))
    } else {
        match spec_analyze_node(ctx, b.first()) {
            Err(er) => Err(er),
            Ok((n1, ctx1)) => match spec_analyze_block(ctx1, b.drop_first()) {
                Err(er) => Err(er),
                Ok((rest, ctx2)) => Ok((seq![n1] + rest, ctx2)),
            },
        }
    }
}

/// The typed tree of a whole program, analysed from an empty state.
pub open spec fn spec_semantic(ast: Seq<SyntaxNodeView>) -> Result<
    Seq<AbstractNodeView>,
    ShadowErrorView,
> {
    match spec_analyze_block(
        SemCtx { funs: Seq::empty(), scopes: Seq::empty(), encl: Seq::empty() },
        ast,
    ) {
        Ok((b, ctx)) => Ok(b),
        Err(er) => Err(er),
    }
}

// ---------------------------------------------------------------------------
// Depth preservation: analysing a block leaves as many scopes and enclosing
// functions as it found. Needed to relate popping a scope to dropping the
// last one of the model.
// ---------------------------------------------------------------------------

proof fn lemma_node_depth(ctx: SemCtx, n: SyntaxNodeView)
    ensures
        spec_analyze_node(ctx, n) matches Ok(p) ==> p.1.scopes.len() == ctx.scopes.len()
            && p.1.encl.len() == ctx.encl.len(),
    decreases n,
{
    match n.ty {
        SyntaxNodeTypeView::Function { name, params, rty, body } => {
            let sig = FnSigView { name: name.inner, params, rty };
            let ctx1 = SemCtx {
                funs: seq![sig] + ctx.funs,
                scopes: ctx.scopes.push(Seq::empty()),
                encl: ctx.encl.push(sig),
            };
            lemma_block_depth(ctx1, body);
        },
        SyntaxNodeTypeView::If { cond, body, else_block, else_ifs } => {
            let ctxp = SemCtx {
                funs: ctx.funs,
                scopes: ctx.scopes.push(Seq::empty()),
                encl: ctx.encl,
            };
            lemma_block_depth(ctxp, body);
            if let Ok((body2, ctxa)) = spec_analyze_block(ctxp, body) {
                let ctx2 = SemCtx {
                    funs: ctxa.funs,
                    scopes: ctxa.scopes.drop_last(),
                    encl: ctxa.encl,
                };
                match else_block {
                    None => {
                        lemma_elifs_depth(ctx2, else_ifs);
                    },
                    Some(eb) => {
                        let ctxq = SemCtx {
                            funs: ctx2.funs,
                            scopes: ctx2.scopes.push(Seq::empty()),
                            encl: ctx2.encl,
                        };
                        lemma_block_depth(ctxq, eb);
                        if let Ok((eb2, ctxb)) = spec_analyze_block(ctxq, eb) {
                            let ctx3 = SemCtx {
                                funs: ctxb.funs,
                                scopes: ctxb.scopes.drop_last(),
                                encl: ctxb.encl,
                            };
                            lemma_elifs_depth(ctx3, else_ifs);
                        }
                    },
                }
            }
        },
        SyntaxNodeTypeView::Loop { body } => {
            let ctxp = SemCtx {
                funs: ctx.funs,
                scopes: ctx.scopes.push(Seq::empty()),
                encl: ctx.encl,
            };
            lemma_block_depth(ctxp, body);
        },
        _ => {},
    }
}

proof fn lemma_elifs_depth(
    ctx: SemCtx,
    elifs: Seq<(SpannedView<ExpressionView>, Seq<SyntaxNodeView>)>,
)
    ensures
        spec_analyze_elifs(ctx, elifs) matches Ok(p) ==> p.1.scopes.len() == ctx.scopes.len()
            && p.1.encl.len() == ctx.encl.len(),
    decreases elifs,
{
    if elifs.len() > 0 {
        let arm = elifs.first();
        if let Ok(c) = spec_analyze_expr(ctx, arm.0.inner, arm.0.span) {
            if c.ty == Type::Bool {
                let ctxp = SemCtx {
                    funs: ctx.funs,
                    scopes: ctx.scopes.push(Seq::empty()),
                    encl: ctx.encl,
                };
                lemma_block_depth(ctxp, arm.1);
                if let Ok((blk2, ctxa)) = spec_analyze_block(ctxp, arm.1) {
                    let ctx2 = SemCtx {
                        funs: ctxa.funs,
                        scopes: ctxa.scopes.drop_last(),
                        encl: ctxa.encl,
                    };
                    lemma_elifs_depth(ctx2, elifs.drop_first());
                }
            }
        }
    }
}

proof fn lemma_block_depth(ctx: SemCtx, b: Seq<SyntaxNodeView>)
    ensures
        spec_analyze_block(ctx, b) matches Ok(p) ==> p.1.scopes.len() == ctx.scopes.len()
            && p.1.encl.len() == ctx.encl.len(),
    decreases b,
{
    if b.len() > 0 {
        lemma_node_depth(ctx, b.first());
        if let Ok((n1, ctx1)) = spec_analyze_node(ctx, b.first()) {
            lemma_block_depth(ctx1, b.drop_first());
        }
    }
}

// ---------------------------------------------------------------------------
// The analysis: implementation
// ---------------------------------------------------------------------------

/// Copies the syntactic signature of a function definition for the tables.
fn make_sig(
    name: &String,
    params: &Vec<(Spanned<String>, Spanned<String>)>,
    rty: &Spanned<String>,
) -> (r: FnSig)
    ensures
        r@ == (FnSigView { name: name@, params: view_params(params@), rty: view_name(rty) }),
{
    let mut ps: Vec<(Spanned<String>, Spanned<String>)> = Vec::new();
    let mut i: usize = 0;
    while i < params.len()
        invariant
            i <= params.len(),
            ps@.len() == i,
            forall|j: int| 0 <= j < i ==> view_name(&ps@[j].0) == view_name(&params@[j].0)
                && view_name(&ps@[j].1) == view_name(&params@[j].1),
        decreases params.len() - i,
    {
        let p0 = Spanned::new(params[i].0.span, params[i].0.inner.clone());
        let p1 = Spanned::new(params[i].1.span, params[i].1.inner.clone());
        ps.push((p0, p1));
        i = i + 1;
    }
    proof {
        assert(view_params(ps@) =~= view_params(params@));
    }
    FnSig {
        name: name.clone(),
        params: ps,
        rty: Spanned::new(rty.span, rty.inner.clone()),
    }
}

/// Declared parameters with their type names read into types.
fn convert_params(params: &Vec<(Spanned<String>, Spanned<String>)>) -> (r: Result<
    Vec<(Spanned<Type>, Spanned<String>)>,
    ShadowError,
>)
    ensures
        match r {
            Ok(v) => spec_convert_params(view_params(params@)) == Ok::<
                Seq<(SpannedView<Type>, SpannedView<Seq<char>>)>,
                ShadowErrorView,
            >(view_typed_params(v@)),
            Err(e) => spec_convert_params(view_params(params@)) == Err::<
                Seq<(SpannedView<Type>, SpannedView<Seq<char>>)>,
                ShadowErrorView,
            >(e@),
        },
{
    let ghost full = view_params(params@);
    let mut out: Vec<(Spanned<Type>, Spanned<String>)> = Vec::new();
    let mut i: usize = 0;
    proof {
        assert(full.skip(0) =~= full);
        assert(view_typed_params(out@) =~= Seq::<
            (SpannedView<Type>, SpannedView<Seq<char>>),
        >::empty());
        if let Ok(l) = spec_convert_params(full) {
            assert(Seq::<(SpannedView<Type>, SpannedView<Seq<char>>)>::empty() + l =~= l);
        }
    }
    while i < params.len()
        invariant
            i <= params.len(),
            full == view_params(params@),
            spec_convert_params(full) == (match spec_convert_params(full.skip(i as int)) {
                Ok(rest) => Ok::<_, ShadowErrorView>(view_typed_params(out@) + rest),
                Err(e) => Err(e),
            }),
        decreases params.len() - i,
    {
        proof {
            assert(full.skip(i as int).first() == full[i as int]);
            assert(full.skip(i as int).drop_first() =~= full.skip(i + 1));
        }
        let t = match Type::from_string(params[i].0.inner.clone(), params[i].0.span) {
            Ok(t) => t,
            Err(e) => {
                return Err(e);
            },
        };
        let ghost outv = view_typed_params(out@);
        out.push((Spanned::new(params[i].0.span, t), Spanned::new(params[i].1.span, params[i].1.inner.clone())));
        proof {
            let pv = (
                SpannedView { inner: t, span: full[i as int].0.span },
                full[i as int].1,
            );
            assert(view_typed_params(out@) =~= outv.push(pv));
            if let Ok(rest) = spec_convert_params(full.skip(i + 1)) {
                assert(outv + (seq![pv] + rest) =~= outv.push(pv) + rest);
            }
        }
        i = i + 1;
    }
    proof {
        assert(full.skip(params@.len() as int) =~= Seq::<
            (SpannedView<Seq<char>>, SpannedView<Seq<char>>),
        >::empty());
        if let Ok(l) = spec_convert_params(full) {
            assert(view_typed_params(out@) + Seq::<
                (SpannedView<Type>, SpannedView<Seq<char>>),
            >::empty() =~= view_typed_params(out@));
        }
    }
    Ok(out)
}

/// Each argument against the matching declared parameter type.
fn check_args(
    params: &Vec<(Spanned<String>, Spanned<String>)>,
    nargs: &Vec<AbstractExpression>,
) -> (r: Result<(), ShadowError>)
    requires
        params@.len() == nargs@.len(),
    ensures
        match r {
            Ok(u) => spec_check_args(view_params(params@), view_aexpr_list(nargs@)) == Ok::<
                (),
                ShadowErrorView,
            >(()),
            Err(e) => spec_check_args(view_params(params@), view_aexpr_list(nargs@)) == Err::<
                (),
                ShadowErrorView,
            >(e@),
        },
{
    let ghost fp = view_params(params@);
    let ghost fa = view_aexpr_list(nargs@);
    proof {
        lemma_view_aexpr_list_props(nargs@);
        assert(fp.skip(0) =~= fp);
        assert(fa.skip(0) =~= fa);
    }
    let mut i: usize = 0;
    while i < params.len()
        invariant
            i <= params.len(),
            params@.len() == nargs@.len(),
            fp == view_params(params@),
            fa == view_aexpr_list(nargs@),
            fa.len() == nargs@.len(),
            forall|j: int| 0 <= j < nargs@.len() ==> fa[j] == view_aexpr(&nargs@[j]),
            spec_check_args(fp, fa) == spec_check_args(fp.skip(i as int), fa.skip(i as int)),
        decreases params.len() - i,
    {
        proof {
            assert(fp.skip(i as int).first() == fp[i as int]);
            assert(fp.skip(i as int).drop_first() =~= fp.skip(i + 1));
            assert(fa.skip(i as int).first() == fa[i as int]);
            assert(fa.skip(i as int).drop_first() =~= fa.skip(i + 1));
        }
        let t = match Type::from_string(params[i].0.inner.clone(), params[i].0.span) {
            Ok(t) => t,
            Err(e) => {
                return Err(e);
            },
        };
        if nargs[i].ty != t {
            return Err(
                ShadowError::from_pos(
                    ErrType::Semantic(SemErrors::ArgTyMismatch(t, nargs[i].ty)),
                    nargs[i].span,
                ),
            );
        }
        i = i + 1;
    }
    proof {
        assert(fp.skip(params@.len() as int) =~= Seq::<
            (SpannedView<Seq<char>>, SpannedView<Seq<char>>),
        >::empty());
    }
    Ok(())
}

/// The typed form of one expression under the current state, bottom-up.
pub fn expression(sb: &SemanticBuffer, expr: &Expression, span: Span) -> (r: Result<
    AbstractExpression,
    ShadowError,
>)
    ensures
        match r {
            Ok(a) => spec_analyze_expr(sb@, view_expr(expr), span) == Ok::<
                AbstractExpressionView,
                ShadowErrorView,
            >(a@),
            Err(e) => spec_analyze_expr(sb@, view_expr(expr), span) == Err::<
                AbstractExpressionView,
                ShadowErrorView,
            >(e@),
        },
    decreases expr, 0int,
{
    match expr {
        Expression::BoolLit(b) => Ok(
            AbstractExpression::new(AbstractExpressionType::BoolLit(*b), span, Type::Bool),
        ),
        Expression::IntLit(n) => Ok(
            AbstractExpression::new(AbstractExpressionType::IntLit(*n), span, Type::Int),
        ),
        Expression::BinOp(o1, op, o2) => {
            let r1 = match expression(sb, &o1.inner, o1.span) {
                Ok(a) => a,
                Err(e) => {
                    return Err(e);
                },
            };
            let r2 = match expression(sb, &o2.inner, o2.span) {
                Ok(a) => a,
                Err(e) => {
                    return Err(e);
                },
            };
            let sp = Span::from_to(r1.span, r2.span);
            let ty = r1.ty;
            if r1.ty != r2.ty {
                return Err(
                    ShadowError::from_pos(
                        ErrType::Semantic(SemErrors::MismatchedTypes(r1.ty, r2.ty)),
                        sp,
                    ),
                );
            }
            Ok(AbstractExpression::new(AbstractExpressionType::BinOp(r1, *op, r2), sp, ty))
        },
        Expression::Comp(o1, op, o2) => {
            let r1 = match expression(sb, &o1.inner, o1.span) {
                Ok(a) => a,
                Err(e) => {
                    return Err(e);
                },
            };
            let r2 = match expression(sb, &o2.inner, o2.span) {
                Ok(a) => a,
                Err(e) => {
                    return Err(e);
                },
            };
            let sp = Span::from_to(r1.span, r2.span);
            if r1.ty != r2.ty {
                return Err(
                    ShadowError::from_pos(
                        ErrType::Semantic(SemErrors::MismatchedTypes(r1.ty, r2.ty)),
                        sp,
                    ),
                );
            }
            Ok(AbstractExpression::new(AbstractExpressionType::Comp(r1, *op, r2), sp, Type::Bool))
        },
        Expression::Group(g) => {
            let r1 = match expression(sb, &g.inner, g.span) {
                Ok(a) => a,
                Err(e) => {
                    return Err(e);
                },
            };
            let ty = r1.ty;
            Ok(AbstractExpression::new(AbstractExpressionType::Group(r1), g.span, ty))
        },
        Expression::Variable(name) => {
            match scopes_find(&sb.scopes, name) {
                Some(t) => Ok(
                    AbstractExpression::new(
                        AbstractExpressionType::Variable(name.clone()),
                        span,
                        t,
                    ),
                ),
                None => {
                    if sb.enclosing.len() > 0 {
                        let sig = &sb.enclosing[sb.enclosing.len() - 1];
                        match param_find(&sig.params, name) {
                            Some(pi) => {
                                let tyn = &sig.params[pi].0;
                                match Type::from_string(tyn.inner.clone(), tyn.span) {
                                    Ok(t) => Ok(
                                        AbstractExpression::new(
                                            AbstractExpressionType::Variable(name.clone()),
                                            span,
                                            t,
                                        ),
                                    ),
                                    Err(e) => Err(e),
                                }
                            },
                            None => Err(
                                ShadowError::from_pos(
                                    ErrType::Semantic(SemErrors::VariableNotFound(name.clone())),
                                    span,
                                ),
                            ),
                        }
                    } else {
                        Err(
                            ShadowError::from_pos(
                                ErrType::Semantic(SemErrors::VariableNotFound(name.clone())),
                                span,
                            ),
                        )
                    }
                },
            }
        },
        Expression::FnCall(name, args) => {
            let nargs = match analyze_args(sb, args) {
                Ok(v) => v,
                Err(e) => {
                    return Err(e);
                },
            };
            proof {
                lemma_view_aexpr_list_props(nargs@);
                crate::parse::lemma_view_expr_list_props(args@);
            }
            match fun_find(&sb.functions, name) {
                None => Err(
                    ShadowError::from_pos(
                        ErrType::Semantic(SemErrors::FunctionNotFound(name.clone())),
                        span,
                    ),
                ),
                Some(fi) => {
                    let sig = &sb.functions[fi];
                    if nargs.len() != sig.params.len() {
                        return Err(
                            ShadowError::from_pos(
                                ErrType::Semantic(
                                    SemErrors::MismatchedNumArgs(sig.params.len(), args.len()),
                                ),
                                span,
                            ),
                        );
                    }
                    match check_args(&sig.params, &nargs) {
                        Ok(_) => {},
                        Err(e) => {
                            return Err(e);
                        },
                    }
                    match Type::from_string(sig.rty.inner.clone(), sig.rty.span) {
                        Ok(rt) => Ok(
                            AbstractExpression::new(
                                AbstractExpressionType::FnCall(name.clone(), nargs),
                                span,
                                rt,
                            ),
                        ),
                        Err(e) => Err(e),
                    }
                },
            }
        },
    }
}

/// The typed forms of a list of argument expressions, left to right.
fn analyze_args(sb: &SemanticBuffer, args: &Vec<Spanned<Expression>>) -> (r: Result<
    Vec<AbstractExpression>,
    ShadowError,
>)
    ensures
        match r {
            Ok(v) => spec_analyze_expr_list(sb@, view_expr_list(args@)) == Ok::<
                Seq<AbstractExpressionView>,
                ShadowErrorView,
            >(view_aexpr_list(v@)),
            Err(e) => spec_analyze_expr_list(sb@, view_expr_list(args@)) == Err::<
                Seq<AbstractExpressionView>,
                ShadowErrorView,
            >(e@),
        },
    decreases args@, 1int,
{
    let ghost full = view_expr_list(args@);
    let mut out: Vec<AbstractExpression> = Vec::new();
    let mut i: usize = 0;
    proof {
        crate::parse::lemma_view_expr_list_props(args@);
        assert(full.skip(0) =~= full);
        assert(view_aexpr_list(out@) =~= Seq::<AbstractExpressionView>::empty());
        if let Ok(l) = spec_analyze_expr_list(sb@, full) {
            assert(Seq::<AbstractExpressionView>::empty() + l =~= l);
        }
    }
    while i < args.len()
        invariant
            i <= args.len(),
            full == view_expr_list(args@),
            full.len() == args@.len(),
            forall|j: int| 0 <= j < args@.len() ==> full[j] == view_spanned_expr(&args@[j]),
            spec_analyze_expr_list(sb@, full) == (match spec_analyze_expr_list(
                sb@,
                full.skip(i as int),
            ) {
                Ok(rest) => Ok::<_, ShadowErrorView>(view_aexpr_list(out@) + rest),
                Err(e) => Err(e),
            }),
        decreases args@.len() - i,
    {
        proof {
            assert(full.skip(i as int).first() == full[i as int]);
            assert(full.skip(i as int).drop_first() =~= full.skip(i + 1));
        }
        let a = match expression(sb, &args[i].inner, args[i].span) {
            Ok(a) => a,
            Err(e) => {
                return Err(e);
            },
        };
        let ghost av = view_aexpr(&a);
        let ghost outs = out@;
        let ghost outv = view_aexpr_list(out@);
        out.push(a);
        proof {
            assert(out@.drop_last() =~= outs);
            assert(view_aexpr_list(out@) == outv.push(av));
            if let Ok(rest) = spec_analyze_expr_list(sb@, full.skip(i + 1)) {
                assert(outv + (seq![av] + rest) =~= outv.push(av) + rest);
            }
        }
        i = i + 1;
    }
    proof {
        assert(full.skip(args@.len() as int) =~= Seq::<SpannedView<ExpressionView>>::empty());
        assert(view_aexpr_list(out@) + Seq::<AbstractExpressionView>::empty() =~= view_aexpr_list(
            out@,
        ));
    }
    Ok(out)
}

impl SemanticBuffer {
    /// Opens a fresh innermost scope.
    fn push_scope(&mut self)
        ensures
            final(self)@ == (SemCtx {
                funs: old(self)@.funs,
                scopes: old(self)@.scopes.push(Seq::empty()),
                encl: old(self)@.encl,
            }),
    {
        self.scopes.push(Scope::new());
        proof {
            assert(view_scopes(self.scopes@) =~~= view_scopes(old(self).scopes@).push(
                Seq::empty(),
            ));
        }
    }

    /// Closes the innermost scope.
    fn pop_scope(&mut self)
        requires
            old(self)@.scopes.len() > 0,
        ensures
            final(self)@ == (SemCtx {
                funs: old(self)@.funs,
                scopes: old(self)@.scopes.drop_last(),
                encl: old(self)@.encl,
            }),
    {
        let _ = self.scopes.pop();
        proof {
            assert(view_scopes(self.scopes@) =~= view_scopes(old(self).scopes@).drop_last());
        }
    }
}

/// The typed form of one statement, carried out on the analysis state.
#[verifier::rlimit(100)]
#[verifier::loop_isolation(false)]
fn analyze_node(sb: &mut SemanticBuffer, node: &SyntaxNode) -> (r: Result<
    AbstractNode,
    ShadowError,
>)
    ensures
        match r {
            Ok(n) => spec_analyze_node(old(sb)@, view_node(node)) == Ok::<
                (AbstractNodeView, SemCtx),
                ShadowErrorView,
            >((n@, final(sb)@)),
            Err(e) => spec_analyze_node(old(sb)@, view_node(node)) == Err::<
                (AbstractNodeView, SemCtx),
                ShadowErrorView,
            >(e@),
        },
    decreases node, 0int,
{
    let node_span = node.span;
    match &node.ty {
        SyntaxNodeType::Function { name, params, rty, body } => {
            let sig = make_sig(&name.inner, params, rty);
            let sig2 = make_sig(&name.inner, params, rty);
            let ghost sigv = sig@;
            sb.functions.insert(0, sig);
            sb.scopes.push(Scope::new());
            sb.enclosing.push(sig2);
            proof {
                assert(view_funs(sb.functions@) =~= seq![sigv] + view_funs(old(sb).functions@));
                assert(view_scopes(sb.scopes@) =~~= view_scopes(old(sb).scopes@).push(
                    Seq::empty(),
                ));
                assert(view_funs(sb.enclosing@) =~= view_funs(old(sb).enclosing@).push(sigv));
            }
            let ghost ctx1 = sb@;
            let body2 = match _semantic(sb, body) {
                Ok(b) => b,
                Err(e) => {
                    return Err(e);
                },
            };
            let rt = match Type::from_string(rty.inner.clone(), rty.span) {
                Ok(t) => t,
                Err(e) => {
                    return Err(e);
                },
            };
            let nparams = match convert_params(params) {
                Ok(v) => v,
                Err(e) => {
                    return Err(e);
                },
            };
            proof {
                lemma_block_depth(ctx1, view_syntax_block(body@));
            }
            let ghost ctx2 = sb@;
            let _ = sb.scopes.pop();
            let _ = sb.enclosing.pop();
            proof {
                assert(view_scopes(sb.scopes@) =~= ctx2.scopes.drop_last());
                assert(view_funs(sb.enclosing@) =~= ctx2.encl.drop_last());
            }
            Ok(
                AbstractNode::new(
                    AbstractNodeType::Function {
                        name: Spanned::new(name.span, name.inner.clone()),
                        params: nparams,
                        rty: Spanned::new(rty.span, rt),
                        body: body2,
                    },
                    node_span,
                ),
            )
        },
        SyntaxNodeType::Return { expr } => {
            if sb.enclosing.len() == 0 {
                return Err(
                    ShadowError::from_pos(
                        ErrType::Semantic(SemErrors::ReturnOutsideFn),
                        node_span,
                    ),
                );
            }
            let last = sb.enclosing.len() - 1;
            let rty_inner = sb.enclosing[last].rty.inner.clone();
            let rty_span = sb.enclosing[last].rty.span;
            let rt = match Type::from_string(rty_inner, rty_span) {
                Ok(t) => t,
                Err(e) => {
                    return Err(e);
                },
            };
            match &expr.inner {
                Some(e0) => {
                    let inner = match expression(sb, e0, expr.span) {
                        Ok(a) => a,
                        Err(e) => {
                            return Err(e);
                        },
                    };
                    if rt != inner.ty {
                        return Err(
                            ShadowError::from_pos(
                                ErrType::Semantic(SemErrors::MismatchedFnRetTy(rt, inner.ty)),
                                expr.span,
                            ),
                        );
                    }
                    Ok(
                        AbstractNode::new(
                            AbstractNodeType::Return { expr: Some(inner) },
                            expr.span,
                        ),
                    )
                },
                None => {
                    if rt != Type::Void {
                        return Err(
                            ShadowError::from_pos(
                                ErrType::Semantic(
                                    SemErrors::MismatchedFnRetTy(rt, Type::Void),
                                ),
                                expr.span,
                            ),
                        );
                    }
                    Ok(AbstractNode::new(AbstractNodeType::Return { expr: None }, expr.span))
                },
            }
        },
        SyntaxNodeType::VDec { init, name } => {
            let ex = match expression(sb, &init.inner, init.span) {
                Ok(a) => a,
                Err(e) => {
                    return Err(e);
                },
            };
            if sb.scopes.len() == 0 {
                return Err(
                    ShadowError::from_pos(
                        ErrType::Semantic(SemErrors::CompilerNotInAScope),
                        init.span,
                    ),
                );
            }
            let ghost pre = sb@;
            let mut sc = match sb.scopes.pop() {
                Some(s) => s,
                None => {
                    proof {
                        assert(false);
                    }
                    return Err(
                        ShadowError::from_pos(
                            ErrType::Semantic(SemErrors::CompilerNotInAScope),
                            init.span,
                        ),
                    );
                },
            };
            sc.vars.push((name.inner.clone(), ex.ty));
            sb.scopes.push(sc);
            proof {
                assert(view_scopes(sb.scopes@) =~~= pre.scopes.update(
                    pre.scopes.len() - 1,
                    pre.scopes.last().push((name.inner@, ex.ty)),
                ));
            }
            Ok(
                AbstractNode::new(
                    AbstractNodeType::VDec {
                        name: Spanned::new(name.span, name.inner.clone()),
                        init: ex,
                    },
                    node_span,
                ),
            )
        },
        SyntaxNodeType::If { cond, body, else_block, else_ifs } => {
            let c = match expression(sb, &cond.inner, cond.span) {
                Ok(a) => a,
                Err(e) => {
                    return Err(e);
                },
            };
            if c.ty != Type::Bool {
                return Err(
                    ShadowError::from_pos(
                        ErrType::Semantic(SemErrors::CondNotBool(c.ty)),
                        cond.span,
                    ),
                );
            }
            sb.push_scope();
            let ghost ctxp = sb@;
            let body2 = match _semantic(sb, body) {
                Ok(b) => b,
                Err(e) => {
                    return Err(e);
                },
            };
            proof {
                lemma_block_depth(ctxp, view_syntax_block(body@));
            }
            sb.pop_scope();
            let else2: Option<AbstractBlock> = match else_block {
                None => None,
                Some(eb) => {
                    sb.push_scope();
                    let ghost ctxq = sb@;
                    let eb2 = match _semantic(sb, eb) {
                        Ok(b) => b,
                        Err(e) => {
                            return Err(e);
                        },
                    };
                    proof {
                        lemma_block_depth(ctxq, view_syntax_block(eb@));
                    }
                    sb.pop_scope();
                    Some(eb2)
                },
            };
            let ghost ctx3 = sb@;
            let ghost full_e = crate::parse::view_elifs(else_ifs@);
            let mut elifs2: Vec<(Spanned<AbstractExpression>, AbstractBlock)> = Vec::new();
            let mut k: usize = 0;
            proof {
                crate::parse::lemma_view_elifs_props(else_ifs@);
                assert(full_e.skip(0) =~= full_e);
                assert(view_aelifs(elifs2@) =~= Seq::<
                    (SpannedView<AbstractExpressionView>, Seq<AbstractNodeView>),
                >::empty());
                if let Ok(p) = spec_analyze_elifs(ctx3, full_e) {
                    assert(Seq::<
                        (SpannedView<AbstractExpressionView>, Seq<AbstractNodeView>),
                    >::empty() + p.0 =~= p.0);
                }
            }
            while k < else_ifs.len()
                invariant
                    k <= else_ifs.len(),
                    full_e == crate::parse::view_elifs(else_ifs@),
                    full_e.len() == else_ifs@.len(),
                    forall|j: int| 0 <= j < else_ifs@.len() ==> full_e[j] == (
                        view_spanned_expr(&else_ifs@[j].0),
                        view_syntax_block(else_ifs@[j].1@),
                    ),
                    spec_analyze_elifs(ctx3, full_e) == (match spec_analyze_elifs(
                        sb@,
                        full_e.skip(k as int),
                    ) {
                        Ok(p) => Ok::<_, ShadowErrorView>(
                            ((view_aelifs(elifs2@) + p.0, p.1)),
                        ),
                        Err(e) => Err(e),
                    }),
                decreases else_ifs@.len() - k,
            {
                proof {
                    assert(full_e.skip(k as int).first() == full_e[k as int]);
                    assert(full_e.skip(k as int).drop_first() =~= full_e.skip(k + 1));
                }
                let arm_span = else_ifs[k].0.span;
                let c2 = match expression(sb, &else_ifs[k].0.inner, arm_span) {
                    Ok(a) => a,
                    Err(e) => {
                        return Err(e);
                    },
                };
                if c2.ty != Type::Bool {
                    return Err(
                        ShadowError::from_pos(
                            ErrType::Semantic(SemErrors::CondNotBool(c2.ty)),
                            arm_span,
                        ),
                    );
                }
                sb.push_scope();
                let ghost ctxr = sb@;
                let blk2 = match _semantic(sb, &else_ifs[k].1) {
                    Ok(b) => b,
                    Err(e) => {
                        return Err(e);
                    },
                };
                proof {
                    lemma_block_depth(ctxr, view_syntax_block(else_ifs@[k as int].1@));
                }
                sb.pop_scope();
                let ghost cv = view_aexpr(&c2);
                let ghost blkv = view_ablock(blk2@);
                let ghost pre_elifs = elifs2@;
                elifs2.push((Spanned::new(arm_span, c2), blk2));
                proof {
                    assert(elifs2@.drop_last() =~= pre_elifs);
                    let pv = (SpannedView { inner: cv, span: arm_span }, blkv);
                    assert(view_aelifs(elifs2@) == view_aelifs(pre_elifs).push(pv));
                    if let Ok(p) = spec_analyze_elifs(sb@, full_e.skip(k + 1)) {
                        assert(view_aelifs(pre_elifs) + (seq![pv] + p.0) =~= view_aelifs(
                            pre_elifs,
                        ).push(pv) + p.0);
                    }
                }
                k = k + 1;
            }
            proof {
                assert(full_e.skip(else_ifs@.len() as int) =~= Seq::<
                    (SpannedView<ExpressionView>, Seq<SyntaxNodeView>),
                >::empty());
                assert(view_aelifs(elifs2@) + Seq::<
                    (SpannedView<AbstractExpressionView>, Seq<AbstractNodeView>),
                >::empty() =~= view_aelifs(elifs2@));
            }
            Ok(
                AbstractNode::new(
                    AbstractNodeType::If {
                        cond: Spanned::new(cond.span, c),
                        body: body2,
                        else_block: else2,
                        else_ifs: elifs2,
                    },
                    node_span,
                ),
            )
        },
        SyntaxNodeType::VRes { new, name } => {
            let ex = match expression(sb, &new.inner, new.span) {
                Ok(a) => a,
                Err(e) => {
                    return Err(e);
                },
            };
            match scopes_find(&sb.scopes, &name.inner) {
                Some(t) => {
                    if t != ex.ty {
                        return Err(
                            ShadowError::from_pos(
                                ErrType::Semantic(
                                    SemErrors::CannotReassignVariableType(
                                        name.inner.clone(),
                                        t,
                                        ex.ty,
                                    ),
                                ),
                                node_span,
                            ),
                        );
                    }
                    Ok(
                        AbstractNode::new(
                            AbstractNodeType::VRes {
                                new: ex,
                                name: Spanned::new(name.span, name.inner.clone()),
                            },
                            node_span,
                        ),
                    )
                },
                None => Err(
                    ShadowError::from_pos(
                        ErrType::Semantic(SemErrors::VariableNotFound(name.inner.clone())),
                        node_span,
                    ),
                ),
            }
        },
        SyntaxNodeType::StandFnCall { name, args } => {
            let nargs = match analyze_args(sb, args) {
                Ok(v) => v,
                Err(e) => {
                    return Err(e);
                },
            };
            proof {
                lemma_view_aexpr_list_props(nargs@);
                crate::parse::lemma_view_expr_list_props(args@);
            }
            match fun_find(&sb.functions, &name.inner) {
                None => Err(
                    ShadowError::from_pos(
                        ErrType::Semantic(SemErrors::FunctionNotFound(name.inner.clone())),
                        node_span,
                    ),
                ),
                Some(fi) => {
                    let sig = &sb.functions[fi];
                    if nargs.len() != sig.params.len() {
                        return Err(
                            ShadowError::from_pos(
                                ErrType::Semantic(
                                    SemErrors::MismatchedNumArgs(sig.params.len(), args.len()),
                                ),
                                node_span,
                            ),
                        );
                    }
                    match check_args(&sig.params, &nargs) {
                        Ok(_) => {},
                        Err(e) => {
                            return Err(e);
                        },
                    }
                    match Type::from_string(sig.rty.inner.clone(), sig.rty.span) {
                        Ok(rt) => Ok(
                            AbstractNode::new(
                                AbstractNodeType::StandFnCall {
                                    name: Spanned::new(name.span, name.inner.clone()),
                                    args: nargs,
                                    rty: rt,
                                },
                                node_span,
                            ),
                        ),
                        Err(e) => Err(e),
                    }
                },
            }
        },
        SyntaxNodeType::Loop { body } => {
            sb.push_scope();
            let ghost ctxp = sb@;
            let body2 = match _semantic(sb, body) {
                Ok(b) => b,
                Err(e) => {
                    return Err(e);
                },
            };
            proof {
                lemma_block_depth(ctxp, view_syntax_block(body@));
            }
            sb.pop_scope();
            Ok(AbstractNode::new(AbstractNodeType::Loop { body: body2 }, node_span))
        },
        SyntaxNodeType::Break => Ok(AbstractNode::new(AbstractNodeType::Break, node_span)),
        SyntaxNodeType::Continue => Ok(AbstractNode::new(AbstractNodeType::Continue, node_span)),
    }
}

/// The typed forms of a block of statements, in program order, fail-fast.
#[verifier::loop_isolation(false)]
pub fn _semantic(sb: &mut SemanticBuffer, block: &SyntaxBlock) -> (r: Result<
    AbstractBlock,
    ShadowError,
>)
    ensures
        match r {
            Ok(b) => spec_analyze_block(old(sb)@, view_syntax_block(block@)) == Ok::<
                (Seq<AbstractNodeView>, SemCtx),
                ShadowErrorView,
            >((view_ablock(b@), final(sb)@)),
            Err(e) => spec_analyze_block(old(sb)@, view_syntax_block(block@)) == Err::<
                (Seq<AbstractNodeView>, SemCtx),
                ShadowErrorView,
            >(e@),
        },
    decreases block@, 1int,
{
    let ghost ctx0 = sb@;
    let ghost full = view_syntax_block(block@);
    let mut out: AbstractBlock = Vec::new();
    let mut i: usize = 0;
    proof {
        crate::parse::lemma_view_block_props(block@);
        assert(full.skip(0) =~= full);
        assert(view_ablock(out@) =~= Seq::<AbstractNodeView>::empty());
        if let Ok(p) = spec_analyze_block(ctx0, full) {
            assert(Seq::<AbstractNodeView>::empty() + p.0 =~= p.0);
        }
    }
    while i < block.len()
        invariant
            i <= block.len(),
            full == view_syntax_block(block@),
            full.len() == block@.len(),
            forall|j: int| 0 <= j < block@.len() ==> full[j] == view_node(&block@[j]),
            spec_analyze_block(ctx0, full) == (match spec_analyze_block(
                sb@,
                full.skip(i as int),
            ) {
                Ok(p) => Ok::<_, ShadowErrorView>(((view_ablock(out@) + p.0, p.1))),
                Err(e) => Err(e),
            }),
        decreases block@.len() - i,
    {
        proof {
            assert(full.skip(i as int).first() == full[i as int]);
            assert(full.skip(i as int).drop_first() =~= full.skip(i + 1));
        }
        let n2 = match analyze_node(sb, &block[i]) {
            Ok(n) => n,
            Err(e) => {
                return Err(e);
            },
        };
        let ghost nv = view_anode(&n2);
        let ghost outs = out@;
        out.push(n2);
        proof {
            assert(out@.drop_last() =~= outs);
            assert(view_ablock(out@) == view_ablock(outs).push(nv));
            if let Ok(p) = spec_analyze_block(sb@, full.skip(i + 1)) {
                assert(view_ablock(outs) + (seq![nv] + p.0) =~= view_ablock(outs).push(nv)
                    + p.0);
            }
        }
        i = i + 1;
    }
    proof {
        assert(full.skip(block@.len() as int) =~= Seq::<SyntaxNodeView>::empty());
        assert(view_ablock(out@) + Seq::<AbstractNodeView>::empty() =~= view_ablock(out@));
    }
    Ok(out)
}

/// Law: the analysis is a pure function of the syntax tree. It starts from
/// an empty state and touches nothing outside it, so analysing the
/// underlying tree of an already-typed program a second time gives a
/// structurally identical typed tree.
pub proof fn lemma_reanalysis_identical(a: Seq<SyntaxNodeView>, b: Seq<SyntaxNodeView>)
    requires
        a == b,
    ensures
        spec_semantic(a) == spec_semantic(b),
{
}

/// Law: analysis fails fast. When a block already fails on its own, any
/// statements behind it change nothing: the first violation in program
/// order is the one reported, and later independent errors are never
/// reached.
pub proof fn lemma_fail_fast(ctx: SemCtx, b1: Seq<SyntaxNodeView>, b2: Seq<SyntaxNodeView>)
    requires
        spec_analyze_block(ctx, b1) is Err,
    ensures
        spec_analyze_block(ctx, b1 + b2) == spec_analyze_block(ctx, b1),
    decreases b1.len(),
{
    assert(b1.len() > 0);
    assert((b1 + b2).len() > 0);
    assert((b1 + b2).first() == b1.first());
    match spec_analyze_node(ctx, b1.first()) {
        Err(er) => {},
        Ok((n1, ctx1)) => {
            assert((b1 + b2).drop_first() =~= b1.drop_first() + b2);
            lemma_fail_fast(ctx1, b1.drop_first(), b2);
        },
    }
}

/// Law: a whole program that fails analysis keeps failing with the same
/// error when more statements follow the failing ones.
pub proof fn lemma_semantic_fail_fast(b1: Seq<SyntaxNodeView>, b2: Seq<SyntaxNodeView>)
    requires
        spec_semantic(b1) is Err,
    ensures
        spec_semantic(b1 + b2) == spec_semantic(b1),
{
    lemma_fail_fast(
        SemCtx { funs: Seq::empty(), scopes: Seq::empty(), encl: Seq::empty() },
        b1,
        b2,
    );
}

/// Resolves names, checks types and validates calls over a whole untyped
/// tree, producing its typed form or the first semantic error in program
/// order. The analysis starts from an empty state each time.
pub fn semantic(ast: &SyntaxBlock) -> (r: Result<AbstractBlock, ShadowError>)
    ensures
        match r {
            Ok(b) => spec_semantic(view_syntax_block(ast@)) == Ok::<
                Seq<AbstractNodeView>,
                ShadowErrorView,
            >(view_ablock(b@)),
            Err(e) => spec_semantic(view_syntax_block(ast@)) == Err::<
                Seq<AbstractNodeView>,
                ShadowErrorView,
            >(e@),
        },
{
    let mut buf = SemanticBuffer::new();
    proof {
        assert(view_funs(buf.functions@) =~= Seq::<FnSigView>::empty());
        assert(view_scopes(buf.scopes@) =~= Seq::<Seq<(Seq<char>, Type)>>::empty());
        assert(view_funs(buf.enclosing@) =~= Seq::<FnSigView>::empty());
    }
    match _semantic(&mut buf, ast) {
        Ok(b) => Ok(b),
        Err(e) => Err(e),
    }
}

} // verus!
