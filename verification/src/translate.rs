//! The code generator: lowers a typed tree into a control-flow-explicit
//! intermediate representation of basic blocks, loads and stores, and
//! renders it as text. All naming state lives in an explicit context that
//! is created fresh for each compilation.

use vstd::prelude::*;

use crate::parse::{BinOpTypes, CompTypes};
use crate::sem::{view_ablock, view_aexpr, view_anode, AbstractBlock, AbstractExpression,
    AbstractExpressionType, AbstractExpressionTypeView, AbstractExpressionView, AbstractNode,
    AbstractNodeType, AbstractNodeTypeView, AbstractNodeView, lemma_view_aexpr_list_props,
    view_aexpr_list};
use crate::text::str_eq;
use crate::{Spanned, SpannedView, Type};

verus! {

/// The output targets. Only the reference target exists.
pub enum Targets {
    Llvm,
}

/// A defect in the tree handed to the generator: the analyser never
/// produces one of these, but the generator stays total.
#[derive(Debug)]
pub enum CodegenError {
    /// A variable read or written without a declaration in sight.
    UnboundVariable(String),
    /// A break statement outside every loop.
    BreakOutsideLoop,
    /// A continue statement outside every loop.
    ContinueOutsideLoop,
}

/// The model of a generator defect.
pub enum CodegenErrorView {
    UnboundVariable(Seq<char>),
    BreakOutsideLoop,
    ContinueOutsideLoop,
}

impl View for CodegenError {
    type V = CodegenErrorView;

    open spec fn view(&self) -> CodegenErrorView {
        match self {
            CodegenError::UnboundVariable(s) => CodegenErrorView::UnboundVariable(s@),
            CodegenError::BreakOutsideLoop => CodegenErrorView::BreakOutsideLoop,
            CodegenError::ContinueOutsideLoop => CodegenErrorView::ContinueOutsideLoop,
        }
    }
}

/// An operand of an instruction: an immediate, a numbered register, or an
/// incoming parameter named after its source name.
#[derive(Debug)]
pub enum Val {
    Imm(i64),
    ImmBool(bool),
    Reg(u64),
    Arg(String),
}

/// The model of an operand.
pub enum ValView {
    Imm(i64),
    ImmBool(bool),
    Reg(u64),
    Arg(Seq<char>),
}

impl View for Val {
    type V = ValView;

    open spec fn view(&self) -> ValView {
        match self {
            Val::Imm(n) => ValView::Imm(*n),
            Val::ImmBool(b) => ValView::ImmBool(*b),
            Val::Reg(t) => ValView::Reg(*t),
            Val::Arg(s) => ValView::Arg(s@),
        }
    }
}

impl Clone for Val {
    fn clone(&self) -> (r: Self)
        ensures
            r@ == self@,
    {
        match self {
            Val::Imm(n) => Val::Imm(*n),
            Val::ImmBool(b) => Val::ImmBool(*b),
            Val::Reg(t) => Val::Reg(*t),
            Val::Arg(s) => Val::Arg(s.clone()),
        }
    }
}

/// One instruction of the output: a load/store/compute vocabulary over
/// numbered stack slots and registers, with labels and branches for control
/// flow.
#[derive(Debug)]
pub enum Inst {
    /// A function header: return type, name, parameters.
    Define { rty: Type, name: String, params: Vec<(Type, String)> },
    /// The closing brace of a function.
    EndDefine,
    /// A basic-block label.
    Label(u64),
    /// A stack slot for one value of the type.
    Alloca { dst: u64, ty: Type },
    /// Writes a value through a slot.
    Store { ty: Type, val: Val, ptr: u64 },
    /// Reads a slot into a fresh register.
    Load { dst: u64, ty: Type, ptr: u64 },
    /// One arithmetic operation into a fresh register.
    BinOp { dst: u64, op: BinOpTypes, ty: Type, lhs: Val, rhs: Val },
    /// One comparison into a fresh register.
    Icmp { dst: u64, cmp: CompTypes, ty: Type, lhs: Val, rhs: Val },
    /// A call; the result lands in a register when one is named.
    Call { dst: Option<u64>, rty: Type, name: String, args: Vec<(Type, Val)> },
    /// A conditional branch.
    CondBr { cond: Val, then_lbl: u64, else_lbl: u64 },
    /// An unconditional branch.
    Br { lbl: u64 },
    /// A return, with a value unless the function returns nothing.
    Ret { ty: Type, val: Option<Val> },
    /// The sentinel after a body that the analyser proved always returns.
    Unreachable,
}

/// The model of one instruction.
pub enum InstView {
    Define { rty: Type, name: Seq<char>, params: Seq<(Type, Seq<char>)> },
    EndDefine,
    Label(u64),
    Alloca { dst: u64, ty: Type },
    Store { ty: Type, val: ValView, ptr: u64 },
    Load { dst: u64, ty: Type, ptr: u64 },
    BinOp { dst: u64, op: BinOpTypes, ty: Type, lhs: ValView, rhs: ValView },
    Icmp { dst: u64, cmp: CompTypes, ty: Type, lhs: ValView, rhs: ValView },
    Call { dst: Option<u64>, rty: Type, name: Seq<char>, args: Seq<(Type, ValView)> },
    CondBr { cond: ValView, then_lbl: u64, else_lbl: u64 },
    Br { lbl: u64 },
    Ret { ty: Type, val: Option<ValView> },
    Unreachable,
}

/// The model of a call's argument list.
pub open spec fn view_call_args(args: Seq<(Type, Val)>) -> Seq<(Type, ValView)> {
    args.map_values(|a: (Type, Val)| (a.0, a.1@))
}

impl View for Inst {
    type V = InstView;

    open spec fn view(&self) -> InstView {
        match self {
            Inst::Define { rty, name, params } => InstView::Define {
                rty: *rty,
                name: name@,
                params: params@.map_values(|p: (Type, String)| (p.0, p.1@)),
            },
            Inst::EndDefine => InstView::EndDefine,
            Inst::Label(l) => InstView::Label(*l),
            Inst::Alloca { dst, ty } => InstView::Alloca { dst: *dst, ty: *ty },
            Inst::Store { ty, val, ptr } => InstView::Store { ty: *ty, val: val@, ptr: *ptr },
            Inst::Load { dst, ty, ptr } => InstView::Load { dst: *dst, ty: *ty, ptr: *ptr },
            Inst::BinOp { dst, op, ty, lhs, rhs } => InstView::BinOp {
                dst: *dst,
                op: *op,
                ty: *ty,
                lhs: lhs@,
                rhs: rhs@,
            },
            Inst::Icmp { dst, cmp, ty, lhs, rhs } => InstView::Icmp {
                dst: *dst,
                cmp: *cmp,
                ty: *ty,
                lhs: lhs@,
                rhs: rhs@,
            },
            Inst::Call { dst, rty, name, args } => InstView::Call {
                dst: *dst,
                rty: *rty,
                name: name@,
                args: view_call_args(args@),
            },
            Inst::CondBr { cond, then_lbl, else_lbl } => InstView::CondBr {
                cond: cond@,
                then_lbl: *then_lbl,
                else_lbl: *else_lbl,
            },
            Inst::Br { lbl } => InstView::Br { lbl: *lbl },
            Inst::Ret { ty, val } => InstView::Ret {
                ty: *ty,
                val: match val {
                    Some(v) => Some(v@),
                    None => None,
                },
            },
            Inst::Unreachable => InstView::Unreachable,
        }
    }
}

/// The models of a sequence of instructions.
pub open spec fn view_insts(v: Seq<Inst>) -> Seq<InstView> {
    v.map_values(|i: Inst| i@)
}

// ---------------------------------------------------------------------------
// The emission context
// ---------------------------------------------------------------------------

/// Per-compilation naming state: a monotonic counter for registers, slots
/// and labels, the current slot of each source variable, and the stack of
/// enclosing loop labels. Created fresh per compilation and threaded
/// explicitly; nothing survives between runs.
#[derive(Debug)]
pub struct CodegenContext {
    pub counter: u64,
    pub vars: Vec<(String, u64)>,
    pub loops: Vec<(u64, u64)>,
}

/// The model of the emission context.
pub struct CodegenCtx {
    pub counter: u64,
    pub vars: Seq<(Seq<char>, u64)>,
    pub loops: Seq<(u64, u64)>,
}

impl View for CodegenContext {
    type V = CodegenCtx;

    open spec fn view(&self) -> CodegenCtx {
        CodegenCtx {
            counter: self.counter,
            vars: self.vars@.map_values(|p: (String, u64)| (p.0@, p.1)),
            loops: self.loops@,
        }
    }
}

impl CodegenContext {
    pub fn new() -> (r: CodegenContext)
        ensures
            r@.counter == 0,
            r@.vars.len() == 0,
            r@.loops.len() == 0,
    {
        CodegenContext { counter: 0, vars: Vec::new(), loops: Vec::new() }
    }
}

/// The next value of the tag counter. The counter stands still at its
/// largest value, which no finite tree reaches.
pub open spec fn spec_next_tag(c: u64) -> u64 {
    if c == u64::MAX {
        c
    } else {
        (c + 1) as u64
    }
}

/// Draws a fresh sequential tag for a register, slot or label.
pub fn seq_mangle(ctx: &mut CodegenContext) -> (r: u64)
    ensures
        r == spec_next_tag(old(ctx)@.counter),
        final(ctx)@ == (CodegenCtx {
            counter: spec_next_tag(old(ctx)@.counter),
            vars: old(ctx)@.vars,
            loops: old(ctx)@.loops,
        }),
{
    if ctx.counter == u64::MAX {
    } else {
        ctx.counter = ctx.counter + 1;
    }
    ctx.counter
}

/// Records a fresh slot for a declared variable; a redeclaration shadows
/// the older slot from here on.
pub fn ins_va(ctx: &mut CodegenContext, name: String) -> (r: u64)
    ensures
        r == spec_next_tag(old(ctx)@.counter),
        final(ctx)@ == (CodegenCtx {
            counter: spec_next_tag(old(ctx)@.counter),
            vars: old(ctx)@.vars.push((name@, spec_next_tag(old(ctx)@.counter))),
            loops: old(ctx)@.loops,
        }),
{
    let tag = seq_mangle(ctx);
    ctx.vars.push((name, tag));
    proof {
        assert(ctx@.vars =~= old(ctx)@.vars.push((ctx.vars@.last().0@, tag)));
    }
    tag
}

/// The current slot of a source variable: the youngest record wins.
pub open spec fn spec_get_va(vars: Seq<(Seq<char>, u64)>, name: Seq<char>) -> Option<u64>
    decreases vars.len(),
{
    if vars.len() == 0 {
        None
    } else if vars.last().0 == name {
        Some(vars.last().1)
    } else {
        spec_get_va(vars.drop_last(), name)
    }
}

/// Resolves the current slot of a source variable.
pub fn get_va(ctx: &CodegenContext, name: &String) -> (r: Option<u64>)
    ensures
        r == spec_get_va(ctx@.vars, name@),
{
    let ghost full = ctx@.vars;
    let mut i: usize = ctx.vars.len();
    proof {
        assert(full.take(i as int) =~= full);
    }
    while i > 0
        invariant
            i <= ctx.vars.len(),
            full == ctx@.vars,
            spec_get_va(full, name@) == spec_get_va(full.take(i as int), name@),
        decreases i,
    {
        proof {
            assert(full.take(i as int).last() == full[i - 1]);
            assert(full.take(i as int).drop_last() =~= full.take(i - 1));
        }
        if str_eq(ctx.vars[i - 1].0.as_str(), name.as_str()) {
            return Some(ctx.vars[i - 1].1);
        }
        i = i - 1;
    }
    proof {
        assert(full.take(0) =~= Seq::<(Seq<char>, u64)>::empty());
    }
    None
}

/// Keeps a function's name as it is; the output calls functions by their
/// source names.
pub fn mangle_fn(name: String) -> (r: String)
    ensures
        r@ == name@,
{
    name
}

// ---------------------------------------------------------------------------
// Lowering: specification
// ---------------------------------------------------------------------------

/// The instructions and value of one lowered expression, with the context
/// it leaves behind: literals lower to immediates; a variable read loads
/// its slot into a fresh register; operators lower both operands left to
/// right and then name a fresh register for the result; calls lower each
/// argument left to right.
pub open spec fn spec_lower_expr(ctx: CodegenCtx, e: AbstractExpressionView) -> Result<
    (ValView, CodegenCtx, Seq<InstView>),
    CodegenErrorView,
>
    decreases e,
{
    match *e.expr {
        AbstractExpressionTypeView::IntLit(n) => Ok((ValView::Imm(n), ctx, Seq::empty())),
        AbstractExpressionTypeView::BoolLit(b) => Ok((ValView::ImmBool(b), ctx, Seq::empty())),
        AbstractExpressionTypeView::Variable(nm) => match spec_get_va(ctx.vars, nm) {
            None => Err(CodegenErrorView::UnboundVariable(nm)),
            Some(tag) => {
                let tv = spec_next_tag(ctx.counter);
                Ok(
                    (
                        ValView::Reg(tv),
                        CodegenCtx { counter: tv, vars: ctx.vars, loops: ctx.loops },
                        seq![InstView::Load { dst: tv, ty: e.ty, ptr: tag }],
                    ),
                )
            },
        },
        AbstractExpressionTypeView::FnCall(nm, args) => match spec_lower_args(ctx, args) {
            Err(er) => Err(er),
            Ok((avals, ctx1, insts)) => {
                let rvt = spec_next_tag(ctx1.counter);
                Ok(
                    (
                        ValView::Reg(rvt),
                        CodegenCtx { counter: rvt, vars: ctx1.vars, loops: ctx1.loops },
                        insts + seq![
                            InstView::Call { dst: Some(rvt), rty: e.ty, name: nm, args: avals },
                        ],
                    ),
                )
            },
        },
        AbstractExpressionTypeView::BinOp(o1, op, o2) => match spec_lower_expr(ctx, o1) {
            Err(er) => Err(er),
            Ok((v1, c1, i1)) => match spec_lower_expr(c1, o2) {
                Err(er) => Err(er),
                Ok((v2, c2, i2)) => {
                    let t = spec_next_tag(c2.counter);
                    Ok(
                        (
                            ValView::Reg(t),
                            CodegenCtx { counter: t, vars: c2.vars, loops: c2.loops },
                            i1 + i2 + seq![
                                InstView::BinOp { dst: t, op, ty: e.ty, lhs: v1, rhs: v2 },
                            ],
                        ),
                    )
                },
            },
        },
        AbstractExpressionTypeView::Comp(o1, cmp, o2) => match spec_lower_expr(ctx, o1) {
            Err(er) => Err(er),
            Ok((v1, c1, i1)) => match spec_lower_expr(c1, o2) {
                Err(er) => Err(er),
                Ok((v2, c2, i2)) => {
                    let t = spec_next_tag(c2.counter);
                    Ok(
                        (
                            ValView::Reg(t),
                            CodegenCtx { counter: t, vars: c2.vars, loops: c2.loops },
                            i1 + i2 + seq![
                                InstView::Icmp { dst: t, cmp, ty: o1.ty, lhs: v1, rhs: v2 },
                            ],
                        ),
                    )
                },
            },
        },
        AbstractExpressionTypeView::Group(g) => spec_lower_expr(ctx, g),
    }
}

/// The instructions and typed operand list of a call's arguments, left to
/// right.
pub open spec fn spec_lower_args(ctx: CodegenCtx, args: Seq<AbstractExpressionView>) -> Result<
    (Seq<(Type, ValView)>, CodegenCtx, Seq<InstView>),
    CodegenErrorView,
>
    decreases args,
{
    if args.len() == 0 {
        Ok((Seq::empty(), ctx, Seq::empty()))
    } else {
        match spec_lower_expr(ctx, args.first()) {
            Err(er) => Err(er),
            Ok((v, c1, i1)) => match spec_lower_args(c1, args.drop_first()) {
                Err(er) => Err(er),
                Ok((rest, c2, i2)) => Ok(
                    (seq![(args.first().ty, v)] + rest, c2, i1 + i2),
                ),
            },
        }
    }
}

/// The slots of a function's parameters: each parameter gets a fresh slot,
/// and the incoming value is stored into it, so that parameters read and
/// write like local variables.
pub open spec fn spec_lower_params(
    ctx: CodegenCtx,
    params: Seq<(SpannedView<Type>, SpannedView<Seq<char>>)>,
) -> (CodegenCtx, Seq<InstView>)
    decreases params,
{
    if params.len() == 0 {
        (ctx, Seq::empty())
    } else {
        let p = params.first();
        let tag = spec_next_tag(ctx.counter);
        let ctx1 = CodegenCtx {
            counter: tag,
            vars: ctx.vars.push((p.1.inner, tag)),
            loops: ctx.loops,
        };
        let (ctx2, rest) = spec_lower_params(ctx1, params.drop_first());
        (
            ctx2,
            seq![
                InstView::Alloca { dst: tag, ty: p.0.inner },
                InstView::Store { ty: p.0.inner, val: ValView::Arg(p.1.inner), ptr: tag },
            ] + rest,
        )
    }
}

/// The instructions of one lowered statement, with the context it leaves
/// behind.
pub open spec fn spec_lower_node(ctx: CodegenCtx, n: AbstractNodeView) -> Result<
    (CodegenCtx, Seq<InstView>),
    CodegenErrorView,
>
    decreases n,
{
    match n.ty {
        AbstractNodeTypeView::Function { name, params, rty, body } => {
            let header = InstView::Define {
                rty: rty.inner,
                name: name.inner,
                params: params.map_values(
                    |p: (SpannedView<Type>, SpannedView<Seq<char>>)| (p.0.inner, p.1.inner),
                ),
            };
            let (ctx1, pinsts) = spec_lower_params(ctx, params);
            match spec_lower_block(ctx1, body) {
                Err(er) => Err(er),
                Ok((ctx2, binsts)) => Ok(
                    (
                        ctx2,
                        seq![header] + pinsts + binsts + seq![
                            InstView::Unreachable,
                            InstView::EndDefine,
                        ],
                    ),
                ),
            }
        },
        AbstractNodeTypeView::Return { expr } => match expr {
            Some(e) => match spec_lower_expr(ctx, e) {
                Err(er) => Err(er),
                Ok((v, c1, i1)) => Ok(
                    (c1, i1 + seq![InstView::Ret { ty: e.ty, val: Some(v) }]),
                ),
            },
            None => Ok((ctx, seq![InstView::Ret { ty: Type::Void, val: None }])),
        },
        AbstractNodeTypeView::VDec { name, init } => {
            let tag = spec_next_tag(ctx.counter);
            let ctx1 = CodegenCtx {
                counter: tag,
                vars: ctx.vars.push((name.inner, tag)),
                loops: ctx.loops,
            };
            match spec_lower_expr(ctx1, init) {
                Err(er) => Err(er),
                Ok((v, c2, i2)) => Ok(
                    (
                        c2,
                        seq![InstView::Alloca { dst: tag, ty: init.ty }] + i2 + seq![
                            InstView::Store { ty: init.ty, val: v, ptr: tag },
                        ],
                    ),
                ),
            }
        },
        AbstractNodeTypeView::If { cond, body, else_block, else_ifs } => {
            let exit = spec_next_tag(ctx.counter);
            let ctxe = CodegenCtx { counter: exit, vars: ctx.vars, loops: ctx.loops };
            match spec_lower_expr(ctxe, cond.inner) {
                Err(er) => Err(er),
                Ok((cv, c1, ic)) => {
                    let tt = spec_next_tag(c1.counter);
                    let ft = spec_next_tag(tt);
                    let c2 = CodegenCtx { counter: ft, vars: c1.vars, loops: c1.loops };
                    match spec_lower_block(
                        CodegenCtx { counter: ft, vars: c1.vars, loops: c1.loops },
                        body,
                    ) {
                        Err(er) => Err(er),
                        Ok((c3, bi)) => match spec_lower_elifs(c3, exit, ft, else_ifs) {
                            Err(er) => Err(er),
                            Ok((c4, ei, ftf)) => {
                                let else_read: Result<
                                    (CodegenCtx, Seq<InstView>),
                                    CodegenErrorView,
                                > = match else_block {
                                    None => Ok((c4, Seq::empty())),
                                    Some(eb) => spec_lower_block(c4, eb),
                                };
                                match else_read {
                                    Err(er) => Err(er),
                                    Ok((c5, ebi)) => Ok(
                                        (
                                            c5,
                                            ic + seq![
                                                InstView::CondBr {
                                                    cond: cv,
                                                    then_lbl: tt,
                                                    else_lbl: ft,
                                                },
                                                InstView::Label(tt),
                                            ] + bi + seq![InstView::Br { lbl: exit }] + ei
                                                + seq![InstView::Label(ftf)] + ebi + seq![
                                                InstView::Br { lbl: exit },
                                                InstView::Label(exit),
                                            ],
                                        ),
                                    ),
                                }
                            },
                        },
                    }
                },
            }
        },
        AbstractNodeTypeView::VRes { new, name } => match spec_lower_expr(ctx, new) {
            Err(er) => Err(er),
            Ok((v, c1, i1)) => match spec_get_va(c1.vars, name.inner) {
                None => Err(CodegenErrorView::UnboundVariable(name.inner)),
                Some(tag) => Ok(
                    (c1, i1 + seq![InstView::Store { ty: new.ty, val: v, ptr: tag }]),
                ),
            },
        },
        AbstractNodeTypeView::StandFnCall { name, args, rty } => match spec_lower_args(
            ctx,
            args,
        ) {
            Err(er) => Err(er),
            Ok((avals, c1, i1)) => Ok(
                (
                    c1,
                    i1 + seq![
                        InstView::Call { dst: None, rty, name: name.inner, args: avals },
                    ],
                ),
            ),
        },
        AbstractNodeTypeView::Loop { body } => {
            let start = spec_next_tag(ctx.counter);
            let end = spec_next_tag(start);
            let ctx1 = CodegenCtx {
                counter: end,
                vars: ctx.vars,
                loops: ctx.loops.push((start, end)),
            };
            match spec_lower_block(ctx1, body) {
                Err(er) => Err(er),
                Ok((c2, bi)) => Ok(
                    (
                        CodegenCtx { counter: c2.counter, vars: c2.vars, loops: c2.loops.drop_last() },
                        seq![InstView::Br { lbl: start }, InstView::Label(start)] + bi + seq![
                            InstView::Br { lbl: start },
                            InstView::Label(end),
                        ],
                    ),
                ),
            }
        },
        AbstractNodeTypeView::Break => if ctx.loops.len() == 0 {
            Err(CodegenErrorView::BreakOutsideLoop)
        } else {
            Ok((ctx, seq![InstView::Br { lbl: ctx.loops.last().1 }]))
        },
        AbstractNodeTypeView::Continue => if ctx.loops.len() == 0 {
            Err(CodegenErrorView::ContinueOutsideLoop)
        } else {
            Ok((ctx, seq![InstView::Br { lbl: ctx.loops.last().0 }]))
        },
    }
}

/// The `else if` arms of a conditional: the label-threading discipline
/// carries the previous false label forward, emits it, tests the arm's
/// condition towards a freshly allocated next false label, and ends every
/// arm's body with a branch to the shared exit. Yields the final
/// outstanding false label.
pub open spec fn spec_lower_elifs(
    ctx: CodegenCtx,
    exit: u64,
    ft: u64,
    elifs: Seq<(SpannedView<AbstractExpressionView>, Seq<AbstractNodeView>)>,
) -> Result<(CodegenCtx, Seq<InstView>, u64), CodegenErrorView>
    decreases elifs,
{
    if elifs.len() == 0 {
        Ok((ctx, Seq::empty(), ft))
    } else {
        let arm = elifs.first();
        match spec_lower_expr(ctx, arm.0.inner) {
            Err(er) => Err(er),
            Ok((cv, c1, ic)) => {
                let ft2 = spec_next_tag(c1.counter);
                let tt2 = spec_next_tag(ft2);
                let c2 = CodegenCtx { counter: tt2, vars: c1.vars, loops: c1.loops };
                match spec_lower_block(c2, arm.1) {
                    Err(er) => Err(er),
                    Ok((c3, bi)) => match spec_lower_elifs(c3, exit, ft2, elifs.drop_first()) {
                        Err(er) => Err(er),
                        Ok((c4, ri, ftf)) => Ok(
                            (
                                c4,
                                seq![InstView::Label(ft)] + ic + seq![
                                    InstView::CondBr { cond: cv, then_lbl: tt2, else_lbl: ft2 },
                                    InstView::Label(tt2),
                                ] + bi + seq![InstView::Br { lbl: exit }] + ri,
                                ftf,
                            ),
                        ),
                    },
                }
            },
        }
    }
}

/// The instructions of a lowered block, in program order.
pub open spec fn spec_lower_block(ctx: CodegenCtx, b: Seq<AbstractNodeView>) -> Result<
    (CodegenCtx, Seq<InstView>),
    CodegenErrorView,
>
    decreases b,
{
    if b.len() == 0 {
        Ok((ctx, Seq::empty()))
    } else {
        match spec_lower_node(ctx, b.first()) {
            Err(er) => Err(er),
            Ok((ctx1, i1)) => match spec_lower_block(ctx1, b.drop_first()) {
                Err(er) => Err(er),
                Ok((ctx2, i2)) => Ok((ctx2, i1 + i2)),
            },
        }
    }
}

/// The whole program lowered from a fresh context.
pub open spec fn spec_translate(b: Seq<AbstractNodeView>) -> Result<
    Seq<InstView>,
    CodegenErrorView,
> {
    match spec_lower_block(
        CodegenCtx { counter: 0, vars: Seq::empty(), loops: Seq::empty() },
        b,
    ) {
        Ok((ctx, insts)) => Ok(insts),
        Err(er) => Err(er),
    }
}


// ---------------------------------------------------------------------------
// Lowering keeps the loop-label stack: every arm pushes and drops it in a
// balanced way. Needed to relate popping the stack to dropping the last
// entry of the model.
// ---------------------------------------------------------------------------

proof fn lemma_lower_expr_loops(ctx: CodegenCtx, e: AbstractExpressionView)
    ensures
        spec_lower_expr(ctx, e) matches Ok(p) ==> p.1.loops == ctx.loops,
    decreases e,
{
    match *e.expr {
        AbstractExpressionTypeView::FnCall(nm, args) => {
            lemma_lower_args_loops(ctx, args);
        },
        AbstractExpressionTypeView::BinOp(o1, op, o2) => {
            lemma_lower_expr_loops(ctx, o1);
            if let Ok(p1) = spec_lower_expr(ctx, o1) {
                lemma_lower_expr_loops(p1.1, o2);
            }
        },
        AbstractExpressionTypeView::Comp(o1, cmp, o2) => {
            lemma_lower_expr_loops(ctx, o1);
            if let Ok(p1) = spec_lower_expr(ctx, o1) {
                lemma_lower_expr_loops(p1.1, o2);
            }
        },
        AbstractExpressionTypeView::Group(g) => {
            lemma_lower_expr_loops(ctx, g);
        },
        _ => {},
    }
}

proof fn lemma_lower_args_loops(ctx: CodegenCtx, args: Seq<AbstractExpressionView>)
    ensures
        spec_lower_args(ctx, args) matches Ok(p) ==> p.1.loops == ctx.loops,
    decreases args,
{
    if args.len() > 0 {
        lemma_lower_expr_loops(ctx, args.first());
        if let Ok(p1) = spec_lower_expr(ctx, args.first()) {
            lemma_lower_args_loops(p1.1, args.drop_first());
        }
    }
}

proof fn lemma_lower_params_loops(
    ctx: CodegenCtx,
    params: Seq<(SpannedView<Type>, SpannedView<Seq<char>>)>,
)
    ensures
        spec_lower_params(ctx, params).0.loops == ctx.loops,
    decreases params,
{
    if params.len() > 0 {
        let p = params.first();
        let tag = spec_next_tag(ctx.counter);
        let ctx1 = CodegenCtx {
            counter: tag,
            vars: ctx.vars.push((p.1.inner, tag)),
            loops: ctx.loops,
        };
        lemma_lower_params_loops(ctx1, params.drop_first());
    }
}

proof fn lemma_lower_node_loops(ctx: CodegenCtx, n: AbstractNodeView)
    ensures
        spec_lower_node(ctx, n) matches Ok(p) ==> p.0.loops == ctx.loops,
    decreases n,
{
    match n.ty {
        AbstractNodeTypeView::Function { name, params, rty, body } => {
            lemma_lower_params_loops(ctx, params);
            lemma_lower_block_loops(spec_lower_params(ctx, params).0, body);
        },
        AbstractNodeTypeView::Return { expr } => {
            if let Some(e) = expr {
                lemma_lower_expr_loops(ctx, e);
            }
        },
        AbstractNodeTypeView::VDec { name, init } => {
            let tag = spec_next_tag(ctx.counter);
            let ctx1 = CodegenCtx {
                counter: tag,
                vars: ctx.vars.push((name.inner, tag)),
                loops: ctx.loops,
            };
            lemma_lower_expr_loops(ctx1, init);
        },
        AbstractNodeTypeView::If { cond, body, else_block, else_ifs } => {
            let exit = spec_next_tag(ctx.counter);
            let ctxe = CodegenCtx { counter: exit, vars: ctx.vars, loops: ctx.loops };
            lemma_lower_expr_loops(ctxe, cond.inner);
            if let Ok(pc) = spec_lower_expr(ctxe, cond.inner) {
                let tt = spec_next_tag(pc.1.counter);
                let ft = spec_next_tag(tt);
                let c2 = CodegenCtx { counter: ft, vars: pc.1.vars, loops: pc.1.loops };
                lemma_lower_block_loops(c2, body);
                if let Ok(pb) = spec_lower_block(c2, body) {
                    lemma_lower_elifs_loops(pb.0, exit, ft, else_ifs);
                    if let Ok(pe) = spec_lower_elifs(pb.0, exit, ft, else_ifs) {
                        if let Some(eb) = else_block {
                            lemma_lower_block_loops(pe.0, eb);
                        }
                    }
                }
            }
        },
        AbstractNodeTypeView::VRes { new, name } => {
            lemma_lower_expr_loops(ctx, new);
        },
        AbstractNodeTypeView::StandFnCall { name, args, rty } => {
            lemma_lower_args_loops(ctx, args);
        },
        AbstractNodeTypeView::Loop { body } => {
            let start = spec_next_tag(ctx.counter);
            let end = spec_next_tag(start);
            let ctx1 = CodegenCtx {
                counter: end,
                vars: ctx.vars,
                loops: ctx.loops.push((start, end)),
            };
            lemma_lower_block_loops(ctx1, body);
            if let Ok(pb) = spec_lower_block(ctx1, body) {
                assert(pb.0.loops.drop_last() =~= ctx.loops);
            }
        },
        _ => {},
    }
}

proof fn lemma_lower_elifs_loops(
    ctx: CodegenCtx,
    exit: u64,
    ft: u64,
    elifs: Seq<(SpannedView<AbstractExpressionView>, Seq<AbstractNodeView>)>,
)
    ensures
        spec_lower_elifs(ctx, exit, ft, elifs) matches Ok(p) ==> p.0.loops == ctx.loops,
    decreases elifs,
{
    if elifs.len() > 0 {
        let arm = elifs.first();
        lemma_lower_expr_loops(ctx, arm.0.inner);
        if let Ok(pc) = spec_lower_expr(ctx, arm.0.inner) {
            let ft2 = spec_next_tag(pc.1.counter);
            let tt2 = spec_next_tag(ft2);
            let c2 = CodegenCtx { counter: tt2, vars: pc.1.vars, loops: pc.1.loops };
            lemma_lower_block_loops(c2, arm.1);
            if let Ok(pb) = spec_lower_block(c2, arm.1) {
                lemma_lower_elifs_loops(pb.0, exit, ft2, elifs.drop_first());
            }
        }
    }
}

proof fn lemma_lower_block_loops(ctx: CodegenCtx, b: Seq<AbstractNodeView>)
    ensures
        spec_lower_block(ctx, b) matches Ok(p) ==> p.0.loops == ctx.loops,
    decreases b,
{
    if b.len() > 0 {
        lemma_lower_node_loops(ctx, b.first());
        if let Ok(p1) = spec_lower_node(ctx, b.first()) {
            lemma_lower_block_loops(p1.0, b.drop_first());
        }
    }
}

// ---------------------------------------------------------------------------
// Lowering: implementation
// ---------------------------------------------------------------------------

/// Lowers one expression, appending its instructions and yielding its value.
fn translate_expr(ctx: &mut CodegenContext, out: &mut Vec<Inst>, expr: &AbstractExpression) -> (r:
    Result<Val, CodegenError>)
    ensures
        match r {
            Ok(v) => spec_lower_expr(old(ctx)@, view_aexpr(expr)) matches Ok(p) && p.0 == v@
                && p.1 == final(ctx)@ && view_insts(final(out)@) == view_insts(old(out)@) + p.2,
            Err(e) => spec_lower_expr(old(ctx)@, view_aexpr(expr)) == Err::<
                (ValView, CodegenCtx, Seq<InstView>),
                CodegenErrorView,
            >(e@),
        },
    decreases expr, 0int,
{
    match &*expr.expr {
        AbstractExpressionType::IntLit(n) => {
            proof {
                assert(view_insts(out@) + Seq::<InstView>::empty() =~= view_insts(out@));
            }
            Ok(Val::Imm(*n))
        },
        AbstractExpressionType::BoolLit(b) => {
            proof {
                assert(view_insts(out@) + Seq::<InstView>::empty() =~= view_insts(out@));
            }
            Ok(Val::ImmBool(*b))
        },
        AbstractExpressionType::Variable(nm) => {
            match get_va(ctx, nm) {
                None => Err(CodegenError::UnboundVariable(nm.clone())),
                Some(tag) => {
                    let tv = seq_mangle(ctx);
                    let ghost pre = out@;
                    out.push(Inst::Load { dst: tv, ty: expr.ty, ptr: tag });
                    proof {
                        assert(view_insts(out@) =~= view_insts(pre) + seq![
                            InstView::Load { dst: tv, ty: expr.ty, ptr: tag },
                        ]);
                    }
                    Ok(Val::Reg(tv))
                },
            }
        },
        AbstractExpressionType::FnCall(nm, args) => {
            let avals = match lower_args(ctx, out, args) {
                Ok(v) => v,
                Err(e) => {
                    return Err(e);
                },
            };
            let rvt = seq_mangle(ctx);
            let ghost pre = out@;
            let ghost avv = view_call_args(avals@);
            out.push(Inst::Call { dst: Some(rvt), rty: expr.ty, name: nm.clone(), args: avals });
            proof {
                assert(view_insts(out@) =~= view_insts(pre) + seq![
                    InstView::Call { dst: Some(rvt), rty: expr.ty, name: nm@, args: avv },
                ]);
                assert(view_insts(old(out)@) + (view_insts(pre).skip(
                    view_insts(old(out)@).len() as int,
                ) + seq![InstView::Call { dst: Some(rvt), rty: expr.ty, name: nm@, args: avv }])
                    =~= view_insts(out@));
            }
            Ok(Val::Reg(rvt))
        },
        AbstractExpressionType::BinOp(o1, op, o2) => {
            let v1 = match translate_expr(ctx, out, o1) {
                Ok(v) => v,
                Err(e) => {
                    return Err(e);
                },
            };
            let v2 = match translate_expr(ctx, out, o2) {
                Ok(v) => v,
                Err(e) => {
                    return Err(e);
                },
            };
            let t = seq_mangle(ctx);
            let ghost pre = out@;
            let ghost v1v = v1@;
            let ghost v2v = v2@;
            out.push(Inst::BinOp { dst: t, op: *op, ty: expr.ty, lhs: v1, rhs: v2 });
            proof {
                let tail = seq![
                    InstView::BinOp { dst: t, op: *op, ty: expr.ty, lhs: v1v, rhs: v2v },
                ];
                assert(view_insts(out@) =~= view_insts(pre) + tail);
                if let Ok(p1) = spec_lower_expr(old(ctx)@, view_aexpr(o1)) {
                    if let Ok(p2) = spec_lower_expr(p1.1, view_aexpr(o2)) {
                        assert(view_insts(old(out)@) + (p1.2 + p2.2 + tail) =~= view_insts(
                            old(out)@,
                        ) + p1.2 + p2.2 + tail);
                        assert(view_insts(out@) =~= view_insts(old(out)@) + p1.2 + p2.2 + tail);
                    }
                }
            }
            Ok(Val::Reg(t))
        },
        AbstractExpressionType::Comp(o1, cmp, o2) => {
            let v1 = match translate_expr(ctx, out, o1) {
                Ok(v) => v,
                Err(e) => {
                    return Err(e);
                },
            };
            let v2 = match translate_expr(ctx, out, o2) {
                Ok(v) => v,
                Err(e) => {
                    return Err(e);
                },
            };
            let t = seq_mangle(ctx);
            let ghost pre = out@;
            let ghost v1v = v1@;
            let ghost v2v = v2@;
            out.push(Inst::Icmp { dst: t, cmp: *cmp, ty: o1.ty, lhs: v1, rhs: v2 });
            proof {
                let tail = seq![
                    InstView::Icmp { dst: t, cmp: *cmp, ty: o1.ty, lhs: v1v, rhs: v2v },
                ];
                assert(view_insts(out@) =~= view_insts(pre) + tail);
                if let Ok(p1) = spec_lower_expr(old(ctx)@, view_aexpr(o1)) {
                    if let Ok(p2) = spec_lower_expr(p1.1, view_aexpr(o2)) {
                        assert(view_insts(old(out)@) + (p1.2 + p2.2 + tail) =~= view_insts(
                            old(out)@,
                        ) + p1.2 + p2.2 + tail);
                        assert(view_insts(out@) =~= view_insts(old(out)@) + p1.2 + p2.2 + tail);
                    }
                }
            }
            Ok(Val::Reg(t))
        },
        AbstractExpressionType::Group(g) => translate_expr(ctx, out, g),
    }
}

/// Lowers a call's arguments left to right.
#[verifier::loop_isolation(false)]
fn lower_args(ctx: &mut CodegenContext, out: &mut Vec<Inst>, args: &Vec<AbstractExpression>) -> (r:
    Result<Vec<(Type, Val)>, CodegenError>)
    ensures
        match r {
            Ok(v) => spec_lower_args(old(ctx)@, view_aexpr_list(args@)) matches Ok(p) && p.0
                == view_call_args(v@) && p.1 == final(ctx)@ && view_insts(final(out)@)
                == view_insts(old(out)@) + p.2,
            Err(e) => spec_lower_args(old(ctx)@, view_aexpr_list(args@)) == Err::<
                (Seq<(Type, ValView)>, CodegenCtx, Seq<InstView>),
                CodegenErrorView,
            >(e@),
        },
    decreases args@, 1int,
{
    let ghost full = view_aexpr_list(args@);
    let ghost base = view_insts(out@);
    let mut avals: Vec<(Type, Val)> = Vec::new();
    let mut k: usize = 0;
    proof {
        lemma_view_aexpr_list_props(args@);
        assert(full.skip(0) =~= full);
        assert(view_call_args(avals@) =~= Seq::<(Type, ValView)>::empty());
        if let Ok(p) = spec_lower_args(old(ctx)@, full) {
            assert(Seq::<(Type, ValView)>::empty() + p.0 =~= p.0);
            assert(Seq::<InstView>::empty() + p.2 =~= p.2);
        }
        assert(view_insts(out@).skip(base.len() as int) =~= Seq::<InstView>::empty());
    }
    while k < args.len()
        invariant
            k <= args.len(),
            full == view_aexpr_list(args@),
            full.len() == args@.len(),
            forall|j: int| 0 <= j < args@.len() ==> full[j] == view_aexpr(&args@[j]),
            view_insts(out@).len() >= base.len(),
            view_insts(out@).take(base.len() as int) == base,
            spec_lower_args(old(ctx)@, full) == (match spec_lower_args(
                ctx@,
                full.skip(k as int),
            ) {
                Ok(p) => Ok::<_, CodegenErrorView>(
                    (
                        (
                            view_call_args(avals@) + p.0,
                            p.1,
                            view_insts(out@).skip(base.len() as int) + p.2,
                        )
                    ),
                ),
                Err(e) => Err(e),
            }),
        decreases args@.len() - k,
    {
        proof {
            assert(full.skip(k as int).first() == full[k as int]);
            assert(full.skip(k as int).drop_first() =~= full.skip(k + 1));
        }
        let ghost ctx_pre = ctx@;
        let ghost out_pre = view_insts(out@);
        let ghost av_pre = view_call_args(avals@);
        let aty = args[k].ty;
        let v = match translate_expr(ctx, out, &args[k]) {
            Ok(v) => v,
            Err(e) => {
                return Err(e);
            },
        };
        let ghost vv = v@;
        avals.push((aty, v));
        proof {
            assert(view_call_args(avals@) =~= av_pre.push((aty, vv)));
            if let Ok(q) = spec_lower_expr(ctx_pre, full[k as int]) {
                assert(view_insts(out@).take(base.len() as int) =~= base);
                assert(view_insts(out@).skip(base.len() as int) =~= out_pre.skip(
                    base.len() as int,
                ) + q.2);
                if let Ok(p2) = spec_lower_args(ctx@, full.skip(k + 1)) {
                    assert(av_pre + (seq![(full[k as int].ty, q.0)] + p2.0) =~= av_pre.push(
                        (aty, vv),
                    ) + p2.0);
                    assert(out_pre.skip(base.len() as int) + (q.2 + p2.2) =~= (out_pre.skip(
                        base.len() as int,
                    ) + q.2) + p2.2);
                }
            }
        }
        k = k + 1;
    }
    proof {
        assert(full.skip(args@.len() as int) =~= Seq::<AbstractExpressionView>::empty());
        if let Ok(p) = spec_lower_args(old(ctx)@, full) {
            assert(view_call_args(avals@) + Seq::<(Type, ValView)>::empty() =~= view_call_args(
                avals@,
            ));
            assert(view_insts(out@).skip(base.len() as int) + Seq::<InstView>::empty()
                =~= view_insts(out@).skip(base.len() as int));
            assert(base + view_insts(out@).skip(base.len() as int) =~= view_insts(out@));
        }
    }
    Ok(avals)
}

/// Emits a fresh slot and the incoming store for each parameter.
#[verifier::loop_isolation(false)]
fn lower_params(
    ctx: &mut CodegenContext,
    out: &mut Vec<Inst>,
    params: &Vec<(Spanned<Type>, Spanned<String>)>,
) -> (r: ())
    ensures
        spec_lower_params(old(ctx)@, crate::sem::view_typed_params(params@)) == (
            final(ctx)@,
            view_insts(final(out)@).skip(view_insts(old(out)@).len() as int),
        ),
        view_insts(final(out)@).len() >= view_insts(old(out)@).len(),
        view_insts(final(out)@).take(view_insts(old(out)@).len() as int) == view_insts(
            old(out)@,
        ),
{
    let ghost full = crate::sem::view_typed_params(params@);
    let ghost base = view_insts(out@);
    let mut i: usize = 0;
    proof {
        assert(full.skip(0) =~= full);
        assert(view_insts(out@).skip(base.len() as int) =~= Seq::<InstView>::empty());
        let p0 = spec_lower_params(old(ctx)@, full);
        assert(Seq::<InstView>::empty() + p0.1 =~= p0.1);
    }
    while i < params.len()
        invariant
            i <= params.len(),
            full == crate::sem::view_typed_params(params@),
            view_insts(out@).len() >= base.len(),
            view_insts(out@).take(base.len() as int) == base,
            spec_lower_params(old(ctx)@, full) == (
                spec_lower_params(ctx@, full.skip(i as int)).0,
                view_insts(out@).skip(base.len() as int) + spec_lower_params(
                    ctx@,
                    full.skip(i as int),
                ).1,
            ),
        decreases params@.len() - i,
    {
        proof {
            assert(full.skip(i as int).first() == full[i as int]);
            assert(full.skip(i as int).drop_first() =~= full.skip(i + 1));
        }
        let ghost out_pre = view_insts(out@);
        let pty = params[i].0.inner;
        let pname = params[i].1.inner.clone();
        let pname2 = params[i].1.inner.clone();
        let tag = ins_va(ctx, pname);
        out.push(Inst::Alloca { dst: tag, ty: pty });
        out.push(Inst::Store { ty: pty, val: Val::Arg(pname2), ptr: tag });
        proof {
            let emitted = seq![
                InstView::Alloca { dst: tag, ty: pty },
                InstView::Store { ty: pty, val: ValView::Arg(full[i as int].1.inner), ptr: tag },
            ];
            assert(view_insts(out@) =~= out_pre + emitted);
            assert(view_insts(out@).take(base.len() as int) =~= base);
            assert(view_insts(out@).skip(base.len() as int) =~= out_pre.skip(base.len() as int)
                + emitted);
            let pr = spec_lower_params(ctx@, full.skip(i + 1));
            assert(out_pre.skip(base.len() as int) + (emitted + pr.1) =~= (out_pre.skip(
                base.len() as int,
            ) + emitted) + pr.1);
        }
        i = i + 1;
    }
    proof {
        assert(full.skip(params@.len() as int) =~= Seq::<
            (SpannedView<Type>, SpannedView<Seq<char>>),
        >::empty());
        let pf = spec_lower_params(ctx@, full.skip(params@.len() as int));
        assert(pf.1 =~= Seq::<InstView>::empty());
        assert(view_insts(out@).skip(base.len() as int) + Seq::<InstView>::empty() =~= view_insts(
            out@,
        ).skip(base.len() as int));
    }
}

/// Lowers one statement, appending its instructions.
#[verifier::rlimit(100)]
#[verifier::loop_isolation(false)]
fn translate_node(ctx: &mut CodegenContext, out: &mut Vec<Inst>, node: &AbstractNode) -> (r:
    Result<(), CodegenError>)
    ensures
        match r {
            Ok(u) => spec_lower_node(old(ctx)@, view_anode(node)) matches Ok(p) && p.0
                == final(ctx)@ && view_insts(final(out)@) == view_insts(old(out)@) + p.1,
            Err(e) => spec_lower_node(old(ctx)@, view_anode(node)) == Err::<
                (CodegenCtx, Seq<InstView>),
                CodegenErrorView,
            >(e@),
        },
    decreases node, 1int,
{
    match &node.ty {
        AbstractNodeType::Function { name, params, rty, body } => {
            let mut hp: Vec<(Type, String)> = Vec::new();
            let mut i: usize = 0;
            while i < params.len()
                invariant
                    i <= params.len(),
                    hp@.len() == i,
                    forall|j: int| 0 <= j < i ==> hp@[j].0 == params@[j].0.inner && hp@[j].1@
                        == params@[j].1.inner@,
                decreases params@.len() - i,
            {
                hp.push((params[i].0.inner, params[i].1.inner.clone()));
                i = i + 1;
            }
            let hdr = Inst::Define { rty: rty.inner, name: name.inner.clone(), params: hp };
            let ghost hdrv = hdr@;
            proof {
                assert(hdrv == (InstView::Define {
                    rty: rty.inner,
                    name: name.inner@,
                    params: crate::sem::view_typed_params(params@).map_values(
                        |p: (SpannedView<Type>, SpannedView<Seq<char>>)| (p.0.inner, p.1.inner),
                    ),
                })) by {
                    assert(hdrv->Define_params =~= crate::sem::view_typed_params(
                        params@,
                    ).map_values(
                        |p: (SpannedView<Type>, SpannedView<Seq<char>>)| (p.0.inner, p.1.inner),
                    ));
                }
            }
            let ghost base = view_insts(out@);
            out.push(hdr);
            proof {
                assert(view_insts(out@) =~= base + seq![hdrv]);
            }
            let ghost precall = view_insts(out@);
            lower_params(ctx, out, params);
            let ghost after_params = view_insts(out@);
            match lower_block(ctx, out, body) {
                Ok(u) => u,
                Err(e) => {
                    return Err(e);
                },
            };
            let ghost after_body = view_insts(out@);
            out.push(Inst::Unreachable);
            out.push(Inst::EndDefine);
            proof {
                let pp = spec_lower_params(old(ctx)@, crate::sem::view_typed_params(params@));
                assert(after_params =~= after_params.take(precall.len() as int)
                    + after_params.skip(precall.len() as int));
                if let Ok(pb) = spec_lower_block(pp.0, view_ablock(body@)) {
                    assert(view_insts(out@) =~= after_body + seq![
                        InstView::Unreachable,
                        InstView::EndDefine,
                    ]);
                    assert(view_insts(out@) =~= base + (seq![hdrv] + pp.1 + pb.1 + seq![
                        InstView::Unreachable,
                        InstView::EndDefine,
                    ]));
                }
            }
            Ok(())
        },
        AbstractNodeType::Return { expr } => match expr {
            Some(e0) => {
                let v = match translate_expr(ctx, out, e0) {
                    Ok(v) => v,
                    Err(e) => {
                        return Err(e);
                    },
                };
                let ghost vv = v@;
                let ghost pre = view_insts(out@);
                out.push(Inst::Ret { ty: e0.ty, val: Some(v) });
                proof {
                    let tail = seq![InstView::Ret { ty: e0.ty, val: Some(vv) }];
                    assert(view_insts(out@) =~= pre + tail);
                    if let Ok(q) = spec_lower_expr(old(ctx)@, view_aexpr(e0)) {
                        assert(view_insts(old(out)@) + (q.2 + tail) =~= (view_insts(old(out)@)
                            + q.2) + tail);
                    }
                }
                Ok(())
            },
            None => {
                let ghost pre = view_insts(out@);
                out.push(Inst::Ret { ty: Type::Void, val: None });
                proof {
                    assert(view_insts(out@) =~= pre + seq![
                        InstView::Ret { ty: Type::Void, val: None },
                    ]);
                }
                Ok(())
            },
        },
        AbstractNodeType::VDec { name, init } => {
            let tag = ins_va(ctx, name.inner.clone());
            let ghost pre = view_insts(out@);
            out.push(Inst::Alloca { dst: tag, ty: init.ty });
            let v = match translate_expr(ctx, out, init) {
                Ok(v) => v,
                Err(e) => {
                    return Err(e);
                },
            };
            let ghost vv = v@;
            let ghost mid = view_insts(out@);
            out.push(Inst::Store { ty: init.ty, val: v, ptr: tag });
            proof {
                let alloca = seq![InstView::Alloca { dst: tag, ty: init.ty }];
                let store = seq![InstView::Store { ty: init.ty, val: vv, ptr: tag }];
                assert(view_insts(out@) =~= mid + store);
                if let Ok(q) = spec_lower_expr(
                    CodegenCtx {
                        counter: spec_next_tag(old(ctx)@.counter),
                        vars: old(ctx)@.vars.push((name.inner@, spec_next_tag(old(ctx)@.counter))),
                        loops: old(ctx)@.loops,
                    },
                    view_aexpr(init),
                ) {
                    assert(pre + (alloca + q.2 + store) =~= (pre + alloca + q.2) + store);
                    assert(mid =~= pre + alloca + q.2);
                }
            }
            Ok(())
        },
        AbstractNodeType::If { .. } => translate_if(ctx, out, node),
        AbstractNodeType::VRes { new, name } => {
            let v = match translate_expr(ctx, out, new) {
                Ok(v) => v,
                Err(e) => {
                    return Err(e);
                },
            };
            let tag = match get_va(ctx, &name.inner) {
                Some(t) => t,
                None => {
                    return Err(CodegenError::UnboundVariable(name.inner.clone()));
                },
            };
            let ghost vv = v@;
            let ghost pre = view_insts(out@);
            out.push(Inst::Store { ty: new.ty, val: v, ptr: tag });
            proof {
                let tail = seq![InstView::Store { ty: new.ty, val: vv, ptr: tag }];
                assert(view_insts(out@) =~= pre + tail);
                if let Ok(q) = spec_lower_expr(old(ctx)@, view_aexpr(new)) {
                    assert(view_insts(old(out)@) + (q.2 + tail) =~= (view_insts(old(out)@) + q.2)
                        + tail);
                }
            }
            Ok(())
        },
        AbstractNodeType::StandFnCall { name, args, rty } => {
            let avals = match lower_args(ctx, out, args) {
                Ok(v) => v,
                Err(e) => {
                    return Err(e);
                },
            };
            let ghost avv = view_call_args(avals@);
            let ghost pre = view_insts(out@);
            out.push(Inst::Call { dst: None, rty: *rty, name: name.inner.clone(), args: avals });
            proof {
                let tail = seq![
                    InstView::Call { dst: None, rty: *rty, name: name.inner@, args: avv },
                ];
                assert(view_insts(out@) =~= pre + tail);
                if let Ok(q) = spec_lower_args(old(ctx)@, view_aexpr_list(args@)) {
                    assert(view_insts(old(out)@) + (q.2 + tail) =~= (view_insts(old(out)@) + q.2)
                        + tail);
                }
            }
            Ok(())
        },
        AbstractNodeType::Loop { body } => {
            let start = seq_mangle(ctx);
            let end = seq_mangle(ctx);
            ctx.loops.push((start, end));
            let ghost ctx1 = ctx@;
            let ghost pre = view_insts(out@);
            out.push(Inst::Br { lbl: start });
            out.push(Inst::Label(start));
            match lower_block(ctx, out, body) {
                Ok(u) => u,
                Err(e) => {
                    return Err(e);
                },
            };
            let ghost mid = view_insts(out@);
            out.push(Inst::Br { lbl: start });
            out.push(Inst::Label(end));
            proof {
                lemma_lower_block_loops(ctx1, view_ablock(body@));
            }
            let _ = ctx.loops.pop();
            proof {
                let head = seq![InstView::Br { lbl: start }, InstView::Label(start)];
                let tail = seq![InstView::Br { lbl: start }, InstView::Label(end)];
                assert(view_insts(out@) =~= mid + tail);
                if let Ok(pb) = spec_lower_block(ctx1, view_ablock(body@)) {
                    assert(mid =~= (pre + head) + pb.1);
                    assert(pre + (head + pb.1 + tail) =~= ((pre + head) + pb.1) + tail);
                    assert(ctx@.loops =~= pb.0.loops.drop_last());
                }
            }
            Ok(())
        },
        AbstractNodeType::Break => {
            if ctx.loops.len() == 0 {
                return Err(CodegenError::BreakOutsideLoop);
            }
            let lbl = ctx.loops[ctx.loops.len() - 1].1;
            let ghost pre = view_insts(out@);
            out.push(Inst::Br { lbl });
            proof {
                assert(view_insts(out@) =~= pre + seq![InstView::Br { lbl }]);
            }
            Ok(())
        },
        AbstractNodeType::Continue => {
            if ctx.loops.len() == 0 {
                return Err(CodegenError::ContinueOutsideLoop);
            }
            let lbl = ctx.loops[ctx.loops.len() - 1].0;
            let ghost pre = view_insts(out@);
            out.push(Inst::Br { lbl });
            proof {
                assert(view_insts(out@) =~= pre + seq![InstView::Br { lbl }]);
            }
            Ok(())
        },
    }
}


/// Lowers a conditional chain: one shared exit label, a conditional branch
/// per arm, and the label-threading of the outstanding false label.
#[verifier::rlimit(100)]
#[verifier::loop_isolation(false)]
fn translate_if(ctx: &mut CodegenContext, out: &mut Vec<Inst>, node: &AbstractNode) -> (r: Result<
    (),
    CodegenError,
>)
    requires
        node.ty is If,
    ensures
        match r {
            Ok(u) => spec_lower_node(old(ctx)@, view_anode(node)) matches Ok(p) && p.0
                == final(ctx)@ && view_insts(final(out)@) == view_insts(old(out)@) + p.1,
            Err(e) => spec_lower_node(old(ctx)@, view_anode(node)) == Err::<
                (CodegenCtx, Seq<InstView>),
                CodegenErrorView,
            >(e@),
        },
    decreases node, 0int,
{
    if let AbstractNodeType::If { cond, body, else_block, else_ifs } = &node.ty {

            let exit = seq_mangle(ctx);
            let cv = match translate_expr(ctx, out, &cond.inner) {
                Ok(v) => v,
                Err(e) => {
                    return Err(e);
                },
            };
            let ghost cvv = cv@;
            let tt = seq_mangle(ctx);
            let mut ft = seq_mangle(ctx);
            let ghost ic_end = view_insts(out@);
            out.push(Inst::CondBr { cond: cv, then_lbl: tt, else_lbl: ft });
            out.push(Inst::Label(tt));
            let ghost after_tt = view_insts(out@);
            proof {
                assert(after_tt =~= ic_end + seq![
                    InstView::CondBr { cond: cvv, then_lbl: tt, else_lbl: ft },
                    InstView::Label(tt),
                ]);
            }
            match lower_block(ctx, out, body) {
                Ok(u) => u,
                Err(e) => {
                    return Err(e);
                },
            };
            let ghost after_body = view_insts(out@);
            out.push(Inst::Br { lbl: exit });
            // the else-if arms, threading the outstanding false label
            let ghost ctx_elifs = ctx@;
            let ghost elifs_mark = view_insts(out@);
            proof {
                assert(elifs_mark =~= after_body + seq![InstView::Br { lbl: exit }]);
            }
            let ghost full_e = crate::sem::view_aelifs(else_ifs@);
            let ghost ft0 = ft;
            let mut k: usize = 0;
            proof {
                lemma_view_aelifs_props(else_ifs@);
                assert(full_e.skip(0) =~= full_e);
                assert(view_insts(out@).skip(elifs_mark.len() as int) =~= Seq::<
                    InstView,
                >::empty());
                if let Ok(p) = spec_lower_elifs(ctx_elifs, exit, ft0, full_e) {
                    assert(Seq::<InstView>::empty() + p.1 =~= p.1);
                }
            }
            while k < else_ifs.len()
                invariant
                    k <= else_ifs.len(),
                    full_e == crate::sem::view_aelifs(else_ifs@),
                    full_e.len() == else_ifs@.len(),
                    forall|j: int| 0 <= j < else_ifs@.len() ==> full_e[j] == (
                        SpannedView {
                            inner: view_aexpr(&else_ifs@[j].0.inner),
                            span: else_ifs@[j].0.span,
                        },
                        view_ablock(else_ifs@[j].1@),
                    ),
                    view_insts(out@).len() >= elifs_mark.len(),
                    view_insts(out@).take(elifs_mark.len() as int) == elifs_mark,
                    spec_lower_elifs(ctx_elifs, exit, ft0, full_e) == (match spec_lower_elifs(
                        ctx@,
                        exit,
                        ft,
                        full_e.skip(k as int),
                    ) {
                        Ok(p) => Ok::<_, CodegenErrorView>(
                            (
                                (
                                    p.0,
                                    view_insts(out@).skip(elifs_mark.len() as int) + p.1,
                                    p.2,
                                )
                            ),
                        ),
                        Err(e) => Err(e),
                    }),
                decreases else_ifs@.len() - k,
            {
                proof {
                    assert(full_e.skip(k as int).first() == full_e[k as int]);
                    assert(full_e.skip(k as int).drop_first() =~= full_e.skip(k + 1));
                }
                let ghost ctx_pre = ctx@;
                let ghost out_pre = view_insts(out@);
                let ghost ft_pre = ft;
                out.push(Inst::Label(ft));
                let ghost arm_start = view_insts(out@);
                proof {
                    assert(arm_start =~= out_pre + seq![InstView::Label(ft_pre)]);
                }
                let cv2 = match translate_expr(ctx, out, &else_ifs[k].0.inner) {
                    Ok(v) => v,
                    Err(e) => {
                        return Err(e);
                    },
                };
                let ghost cv2v = cv2@;
                let ft2 = seq_mangle(ctx);
                let tt2 = seq_mangle(ctx);
                let ghost arm_ic_end = view_insts(out@);
                out.push(Inst::CondBr { cond: cv2, then_lbl: tt2, else_lbl: ft2 });
                out.push(Inst::Label(tt2));
                let ghost arm_tt = view_insts(out@);
                proof {
                    assert(arm_tt =~= arm_ic_end + seq![
                        InstView::CondBr { cond: cv2v, then_lbl: tt2, else_lbl: ft2 },
                        InstView::Label(tt2),
                    ]);
                }
                match lower_block(ctx, out, &else_ifs[k].1) {
                    Ok(u) => u,
                    Err(e) => {
                        return Err(e);
                    },
                };
                let ghost arm_body = view_insts(out@);
                out.push(Inst::Br { lbl: exit });
                proof {
                    assert(view_insts(out@) =~= arm_body + seq![InstView::Br { lbl: exit }]);
                    assert(view_insts(out@).take(elifs_mark.len() as int) =~= elifs_mark);
                    let emitted = view_insts(out@).skip(out_pre.len() as int);
                    assert(out_pre.skip(elifs_mark.len() as int) + emitted =~= view_insts(
                        out@,
                    ).skip(elifs_mark.len() as int));
                    if let Ok(q) = spec_lower_expr(ctx_pre, full_e[k as int].0.inner) {
                        if let Ok(pb) = spec_lower_block(
                            CodegenCtx {
                                counter: spec_next_tag(spec_next_tag(q.1.counter)),
                                vars: q.1.vars,
                                loops: q.1.loops,
                            },
                            full_e[k as int].1,
                        ) {
                            assert(emitted =~= seq![InstView::Label(ft_pre)] + q.2 + seq![
                                InstView::CondBr { cond: cv2v, then_lbl: tt2, else_lbl: ft2 },
                                InstView::Label(tt2),
                            ] + pb.1 + seq![InstView::Br { lbl: exit }]);
                        }
                    }
                    if let Ok(p2) = spec_lower_elifs(ctx@, exit, ft2, full_e.skip(k + 1)) {
                        assert(out_pre.skip(elifs_mark.len() as int) + (emitted + p2.1) =~= (
                        out_pre.skip(elifs_mark.len() as int) + emitted) + p2.1);
                    }
                }
                ft = ft2;
                k = k + 1;
            }
            proof {
                assert(full_e.skip(else_ifs@.len() as int) =~= Seq::<
                    (SpannedView<AbstractExpressionView>, Seq<AbstractNodeView>),
                >::empty());
                assert(view_insts(out@).skip(elifs_mark.len() as int) + Seq::<
                    InstView,
                >::empty() =~= view_insts(out@).skip(elifs_mark.len() as int));
            }
            let ghost ei = view_insts(out@).skip(elifs_mark.len() as int);
            let ghost before_ftf = view_insts(out@);
            out.push(Inst::Label(ft));
            let ghost after_ftf = view_insts(out@);
            proof {
                assert(before_ftf =~= elifs_mark + ei);
                assert(after_ftf =~= before_ftf + seq![InstView::Label(ft)]);
            }
            match else_block {
                Some(eb) => {
                    match lower_block(ctx, out, eb) {
                        Ok(u) => u,
                        Err(e) => {
                            return Err(e);
                        },
                    };
                },
                None => {},
            }
            let ghost after_else = view_insts(out@);
            out.push(Inst::Br { lbl: exit });
            out.push(Inst::Label(exit));
            proof {
                assert(view_insts(out@) =~= after_else + seq![
                    InstView::Br { lbl: exit },
                    InstView::Label(exit),
                ]);
                if let Ok(q) = spec_lower_expr(
                    CodegenCtx {
                        counter: spec_next_tag(old(ctx)@.counter),
                        vars: old(ctx)@.vars,
                        loops: old(ctx)@.loops,
                    },
                    view_aexpr(&cond.inner),
                ) {
                    assert(ic_end =~= view_insts(old(out)@) + q.2);
                    if let Ok(pif) = spec_lower_node(old(ctx)@, view_anode(node)) {
                        assert(view_insts(out@) =~= view_insts(old(out)@) + (q.2 + seq![
                            InstView::CondBr { cond: cvv, then_lbl: tt, else_lbl: ft0 },
                            InstView::Label(tt),
                        ] + after_body.skip(after_tt.len() as int) + seq![
                            InstView::Br { lbl: exit },
                        ] + ei + seq![InstView::Label(ft)] + after_else.skip(
                            after_ftf.len() as int,
                        ) + seq![InstView::Br { lbl: exit }, InstView::Label(exit)]));
                    }
                }
            }
            Ok(())
    } else {
        proof {
            assert(false);
        }
        Err(CodegenError::BreakOutsideLoop)
    }
}

/// Lowers a block of statements in program order.
#[verifier::loop_isolation(false)]
fn lower_block(ctx: &mut CodegenContext, out: &mut Vec<Inst>, block: &AbstractBlock) -> (r: Result<
    (),
    CodegenError,
>)
    ensures
        match r {
            Ok(u) => spec_lower_block(old(ctx)@, view_ablock(block@)) matches Ok(p) && p.0
                == final(ctx)@ && view_insts(final(out)@) == view_insts(old(out)@) + p.1,
            Err(e) => spec_lower_block(old(ctx)@, view_ablock(block@)) == Err::<
                (CodegenCtx, Seq<InstView>),
                CodegenErrorView,
            >(e@),
        },
    decreases block@, 2int,
{
    let ghost full = view_ablock(block@);
    let ghost base = view_insts(out@);
    let mut i: usize = 0;
    proof {
        lemma_view_ablock_props(block@);
        assert(full.skip(0) =~= full);
        assert(view_insts(out@).skip(base.len() as int) =~= Seq::<InstView>::empty());
        if let Ok(p) = spec_lower_block(old(ctx)@, full) {
            assert(Seq::<InstView>::empty() + p.1 =~= p.1);
        }
    }
    while i < block.len()
        invariant
            i <= block.len(),
            full == view_ablock(block@),
            full.len() == block@.len(),
            forall|j: int| 0 <= j < block@.len() ==> full[j] == view_anode(&block@[j]),
            view_insts(out@).len() >= base.len(),
            view_insts(out@).take(base.len() as int) == base,
            spec_lower_block(old(ctx)@, full) == (match spec_lower_block(
                ctx@,
                full.skip(i as int),
            ) {
                Ok(p) => Ok::<_, CodegenErrorView>(
                    ((p.0, view_insts(out@).skip(base.len() as int) + p.1)),
                ),
                Err(e) => Err(e),
            }),
        decreases block@.len() - i,
    {
        proof {
            assert(full.skip(i as int).first() == full[i as int]);
            assert(full.skip(i as int).drop_first() =~= full.skip(i + 1));
        }
        let ghost ctx_pre = ctx@;
        let ghost out_pre = view_insts(out@);
        match translate_node(ctx, out, &block[i]) {
            Ok(u) => u,
            Err(e) => {
                return Err(e);
            },
        };
        proof {
            if let Ok(q) = spec_lower_node(ctx_pre, full[i as int]) {
                assert(view_insts(out@).take(base.len() as int) =~= base);
                assert(view_insts(out@).skip(base.len() as int) =~= out_pre.skip(
                    base.len() as int,
                ) + q.1);
                if let Ok(p2) = spec_lower_block(ctx@, full.skip(i + 1)) {
                    assert(out_pre.skip(base.len() as int) + (q.1 + p2.1) =~= (out_pre.skip(
                        base.len() as int,
                    ) + q.1) + p2.1);
                }
            }
        }
        i = i + 1;
    }
    proof {
        assert(full.skip(block@.len() as int) =~= Seq::<AbstractNodeView>::empty());
        if let Ok(p) = spec_lower_block(old(ctx)@, full) {
            assert(view_insts(out@).skip(base.len() as int) + Seq::<InstView>::empty()
                =~= view_insts(out@).skip(base.len() as int));
            assert(base + view_insts(out@).skip(base.len() as int) =~= view_insts(out@));
        }
    }
    Ok(())
}

/// The length and elements of a modelled typed block.
pub proof fn lemma_view_ablock_props(s: Seq<AbstractNode>)
    ensures
        view_ablock(s).len() == s.len(),
        forall|i: int| 0 <= i < s.len() ==> view_ablock(s)[i] == view_anode(&s[i]),
    decreases s.len(),
{
    if s.len() > 0 {
        lemma_view_ablock_props(s.drop_last());
    }
}

/// The length and elements of a modelled `else if` chain of typed arms.
pub proof fn lemma_view_aelifs_props(
    s: Seq<(Spanned<AbstractExpression>, AbstractBlock)>,
)
    ensures
        crate::sem::view_aelifs(s).len() == s.len(),
        forall|i: int| 0 <= i < s.len() ==> crate::sem::view_aelifs(s)[i] == (
            SpannedView { inner: view_aexpr(&s[i].0.inner), span: s[i].0.span },
            view_ablock(s[i].1@),
        ),
    decreases s.len(),
{
    if s.len() > 0 {
        lemma_view_aelifs_props(s.drop_last());
    }
}

// ---------------------------------------------------------------------------
// Rendering the instructions as text
// ---------------------------------------------------------------------------

/// The textual name of a type in the output.
pub open spec fn spec_ty_text(t: Type) -> Seq<char> {
    match t {
        Type::Void => "void"@,
        Type::Int => "i64"@,
        Type::Bool => "i1"@,
    }
}

fn render_ty(t: &Type) -> (r: &'static str)
    ensures
        r@ == spec_ty_text(*t),
{
    match t {
        Type::Void => "void",
        Type::Int => "i64",
        Type::Bool => "i1",
    }
}

/// The text of an operand: immediates in decimal, booleans as one and zero,
/// registers and parameter slots with a percent sign.
pub open spec fn spec_val_text(v: ValView) -> Seq<char> {
    match v {
        ValView::Imm(n) => crate::text::spec_dec_signed(n as int),
        ValView::ImmBool(b) => if b {
            "1"@
        } else {
            "0"@
        },
        ValView::Reg(t) => "%"@ + crate::text::spec_dec(t as int),
        ValView::Arg(s) => "%"@ + s,
    }
}

fn render_val(v: &Val) -> (r: String)
    ensures
        r@ == spec_val_text(v@),
{
    match v {
        Val::Imm(n) => crate::text::render_i64(*n),
        Val::ImmBool(b) => {
            if *b {
                String::from_str("1")
            } else {
                String::from_str("0")
            }
        },
        Val::Reg(t) => {
            let mut s = String::from_str("%");
            let d = crate::text::render_u64(*t);
            s.append(d.as_str());
            s
        },
        Val::Arg(nm) => {
            let mut s = String::from_str("%");
            s.append(nm.as_str());
            s
        },
    }
}

/// The mnemonic of an arithmetic operation.
pub open spec fn spec_binop_text(op: BinOpTypes) -> Seq<char> {
    match op {
        BinOpTypes::Add => "add"@,
        BinOpTypes::Sub => "sub"@,
        BinOpTypes::Mul => "mul"@,
        BinOpTypes::Div => "sdiv"@,
    }
}

fn render_binop(op: &BinOpTypes) -> (r: &'static str)
    ensures
        r@ == spec_binop_text(*op),
{
    match op {
        BinOpTypes::Add => "add",
        BinOpTypes::Sub => "sub",
        BinOpTypes::Mul => "mul",
        BinOpTypes::Div => "sdiv",
    }
}

/// The mnemonic of a comparison.
pub open spec fn spec_cmp_text(cmp: CompTypes) -> Seq<char> {
    match cmp {
        CompTypes::Equal => "eq"@,
        CompTypes::NotEqual => "ne"@,
        CompTypes::GreaterThan => "sgt"@,
        CompTypes::GreaterThanEqualTo => "sge"@,
        CompTypes::LessThan => "slt"@,
        CompTypes::LessThanEqualTo => "sle"@,
    }
}

fn render_cmp(cmp: &CompTypes) -> (r: &'static str)
    ensures
        r@ == spec_cmp_text(*cmp),
{
    match cmp {
        CompTypes::Equal => "eq",
        CompTypes::NotEqual => "ne",
        CompTypes::GreaterThan => "sgt",
        CompTypes::GreaterThanEqualTo => "sge",
        CompTypes::LessThan => "slt",
        CompTypes::LessThanEqualTo => "sle",
    }
}

/// The parameter list of a header, comma separated.
pub open spec fn spec_params_text(params: Seq<(Type, Seq<char>)>) -> Seq<char>
    decreases params,
{
    if params.len() == 0 {
        Seq::empty()
    } else {
        let head = spec_ty_text(params.first().0) + " %"@ + params.first().1;
        if params.len() == 1 {
            head
        } else {
            head + ", "@ + spec_params_text(params.drop_first())
        }
    }
}

fn render_params(params: &Vec<(Type, String)>, i: usize) -> (r: String)
    requires
        i <= params@.len(),
    ensures
        r@ == spec_params_text(
            params@.map_values(|p: (Type, String)| (p.0, p.1@)).skip(i as int),
        ),
    decreases params@.len() - i,
{
    let ghost full = params@.map_values(|p: (Type, String)| (p.0, p.1@));
    if i == params.len() {
        proof {
            assert(full.skip(i as int) =~= Seq::<(Type, Seq<char>)>::empty());
        }
        String::new()
    } else {
        proof {
            assert(full.skip(i as int).first() == full[i as int]);
            assert(full.skip(i as int).drop_first() =~= full.skip(i + 1));
        }
        let mut s = String::from_str(render_ty(&params[i].0));
        s.append(" %");
        s.append(params[i].1.as_str());
        if i + 1 == params.len() {
            proof {
                assert(s@ =~= spec_params_text(full.skip(i as int)));
            }
            s
        } else {
            s.append(", ");
            let rest = render_params(params, i + 1);
            s.append(rest.as_str());
            proof {
                assert(s@ =~= spec_params_text(full.skip(i as int)));
            }
            s
        }
    }
}

/// The argument list of a call, comma separated.
pub open spec fn spec_args_text(args: Seq<(Type, ValView)>) -> Seq<char>
    decreases args,
{
    if args.len() == 0 {
        Seq::empty()
    } else {
        let head = spec_ty_text(args.first().0) + " "@ + spec_val_text(args.first().1);
        if args.len() == 1 {
            head
        } else {
            head + ", "@ + spec_args_text(args.drop_first())
        }
    }
}

fn render_args(args: &Vec<(Type, Val)>, i: usize) -> (r: String)
    requires
        i <= args@.len(),
    ensures
        r@ == spec_args_text(view_call_args(args@).skip(i as int)),
    decreases args@.len() - i,
{
    let ghost full = view_call_args(args@);
    if i == args.len() {
        proof {
            assert(full.skip(i as int) =~= Seq::<(Type, ValView)>::empty());
        }
        String::new()
    } else {
        proof {
            assert(full.skip(i as int).first() == full[i as int]);
            assert(full.skip(i as int).drop_first() =~= full.skip(i + 1));
        }
        let mut s = String::from_str(render_ty(&args[i].0));
        s.append(" ");
        let v = render_val(&args[i].1);
        s.append(v.as_str());
        if i + 1 == args.len() {
            proof {
                assert(s@ =~= spec_args_text(full.skip(i as int)));
            }
            s
        } else {
            s.append(", ");
            let rest = render_args(args, i + 1);
            s.append(rest.as_str());
            proof {
                assert(s@ =~= spec_args_text(full.skip(i as int)));
            }
            s
        }
    }
}

/// The text of one instruction, newline included.
pub open spec fn spec_inst_text(i: InstView) -> Seq<char> {
    match i {
        InstView::Define { rty, name, params } => "define "@ + spec_ty_text(rty) + " @"@ + name
            + "("@ + spec_params_text(params) + ") {\n"@,
        InstView::EndDefine => "}\n"@,
        InstView::Label(l) => crate::text::spec_dec(l as int) + ":\n"@,
        InstView::Alloca { dst, ty } => "  %"@ + crate::text::spec_dec(dst as int) + " = alloca "@
            + spec_ty_text(ty) + "\n"@,
        InstView::Store { ty, val, ptr } => "  store "@ + spec_ty_text(ty) + " "@ + spec_val_text(
            val,
        ) + ", ptr %"@ + crate::text::spec_dec(ptr as int) + "\n"@,
        InstView::Load { dst, ty, ptr } => "  %"@ + crate::text::spec_dec(dst as int) + " = load "@
            + spec_ty_text(ty) + ", ptr %"@ + crate::text::spec_dec(ptr as int) + "\n"@,
        InstView::BinOp { dst, op, ty, lhs, rhs } => "  %"@ + crate::text::spec_dec(dst as int)
            + " = "@ + spec_binop_text(op) + " "@ + spec_ty_text(ty) + " "@ + spec_val_text(lhs)
            + ", "@ + spec_val_text(rhs) + "\n"@,
        InstView::Icmp { dst, cmp, ty, lhs, rhs } => "  %"@ + crate::text::spec_dec(dst as int)
            + " = icmp "@ + spec_cmp_text(cmp) + " "@ + spec_ty_text(ty) + " "@ + spec_val_text(
            lhs,
        ) + ", "@ + spec_val_text(rhs) + "\n"@,
        InstView::Call { dst, rty, name, args } => (match dst {
            Some(d) => "  %"@ + crate::text::spec_dec(d as int) + " = call "@,
            None => "  call "@,
        }) + spec_ty_text(rty) + " @"@ + name + "("@ + spec_args_text(args) + ")\n"@,
        InstView::CondBr { cond, then_lbl, else_lbl } => "  br i1 "@ + spec_val_text(cond)
            + ", label %"@ + crate::text::spec_dec(then_lbl as int) + ", label %"@
            + crate::text::spec_dec(else_lbl as int) + "\n"@,
        InstView::Br { lbl } => "  br label %"@ + crate::text::spec_dec(lbl as int) + "\n"@,
        InstView::Ret { ty, val } => match val {
            Some(v) => "  ret "@ + spec_ty_text(ty) + " "@ + spec_val_text(v) + "\n"@,
            None => "  ret void\n"@,
        },
        InstView::Unreachable => "  unreachable\n"@,
    }
}

fn render_inst(inst: &Inst) -> (r: String)
    ensures
        r@ == spec_inst_text(inst@),
{
    match inst {
        Inst::Define { rty, name, params } => {
            let mut s = String::from_str("define ");
            s.append(render_ty(rty));
            s.append(" @");
            s.append(name.as_str());
            s.append("(");
            let ps = render_params(params, 0);
            s.append(ps.as_str());
            s.append(") {\n");
            proof {
                assert(params@.map_values(|p: (Type, String)| (p.0, p.1@)).skip(0)
                    =~= params@.map_values(|p: (Type, String)| (p.0, p.1@)));
                assert(s@ =~= spec_inst_text(inst@));
            }
            s
        },
        Inst::EndDefine => String::from_str("}\n"),
        Inst::Label(l) => {
            let mut s = crate::text::render_u64(*l);
            s.append(":\n");
            s
        },
        Inst::Alloca { dst, ty } => {
            let mut s = String::from_str("  %");
            let d = crate::text::render_u64(*dst);
            s.append(d.as_str());
            s.append(" = alloca ");
            s.append(render_ty(ty));
            s.append("\n");
            proof {
                assert(s@ =~= spec_inst_text(inst@));
            }
            s
        },
        Inst::Store { ty, val, ptr } => {
            let mut s = String::from_str("  store ");
            s.append(render_ty(ty));
            s.append(" ");
            let v = render_val(val);
            s.append(v.as_str());
            s.append(", ptr %");
            let p = crate::text::render_u64(*ptr);
            s.append(p.as_str());
            s.append("\n");
            proof {
                assert(s@ =~= spec_inst_text(inst@));
            }
            s
        },
        Inst::Load { dst, ty, ptr } => {
            let mut s = String::from_str("  %");
            let d = crate::text::render_u64(*dst);
            s.append(d.as_str());
            s.append(" = load ");
            s.append(render_ty(ty));
            s.append(", ptr %");
            let p = crate::text::render_u64(*ptr);
            s.append(p.as_str());
            s.append("\n");
            proof {
                assert(s@ =~= spec_inst_text(inst@));
            }
            s
        },
        Inst::BinOp { dst, op, ty, lhs, rhs } => {
            let mut s = String::from_str("  %");
            let d = crate::text::render_u64(*dst);
            s.append(d.as_str());
            s.append(" = ");
            s.append(render_binop(op));
            s.append(" ");
            s.append(render_ty(ty));
            s.append(" ");
            let l = render_val(lhs);
            s.append(l.as_str());
            s.append(", ");
            let rr = render_val(rhs);
            s.append(rr.as_str());
            s.append("\n");
            proof {
                assert(s@ =~= spec_inst_text(inst@));
            }
            s
        },
        Inst::Icmp { dst, cmp, ty, lhs, rhs } => {
            let mut s = String::from_str("  %");
            let d = crate::text::render_u64(*dst);
            s.append(d.as_str());
            s.append(" = icmp ");
            s.append(render_cmp(cmp));
            s.append(" ");
            s.append(render_ty(ty));
            s.append(" ");
            let l = render_val(lhs);
            s.append(l.as_str());
            s.append(", ");
            let rr = render_val(rhs);
            s.append(rr.as_str());
            s.append("\n");
            proof {
                assert(s@ =~= spec_inst_text(inst@));
            }
            s
        },
        Inst::Call { dst, rty, name, args } => {
            let mut s = match dst {
                Some(d) => {
                    let mut s0 = String::from_str("  %");
                    let dd = crate::text::render_u64(*d);
                    s0.append(dd.as_str());
                    s0.append(" = call ");
                    s0
                },
                None => String::from_str("  call "),
            };
            s.append(render_ty(rty));
            s.append(" @");
            s.append(name.as_str());
            s.append("(");
            let a = render_args(args, 0);
            s.append(a.as_str());
            s.append(")\n");
            proof {
                assert(view_call_args(args@).skip(0) =~= view_call_args(args@));
                assert(s@ =~= spec_inst_text(inst@));
            }
            s
        },
        Inst::CondBr { cond, then_lbl, else_lbl } => {
            let mut s = String::from_str("  br i1 ");
            let c = render_val(cond);
            s.append(c.as_str());
            s.append(", label %");
            let t = crate::text::render_u64(*then_lbl);
            s.append(t.as_str());
            s.append(", label %");
            let e = crate::text::render_u64(*else_lbl);
            s.append(e.as_str());
            s.append("\n");
            proof {
                assert(s@ =~= spec_inst_text(inst@));
            }
            s
        },
        Inst::Br { lbl } => {
            let mut s = String::from_str("  br label %");
            let l = crate::text::render_u64(*lbl);
            s.append(l.as_str());
            s.append("\n");
            proof {
                assert(s@ =~= spec_inst_text(inst@));
            }
            s
        },
        Inst::Ret { ty, val } => {
            match val {
                Some(v) => {
                    let mut s = String::from_str("  ret ");
                    s.append(render_ty(ty));
                    s.append(" ");
                    let vv = render_val(v);
                    s.append(vv.as_str());
                    s.append("\n");
                    proof {
                        assert(s@ =~= spec_inst_text(inst@));
                    }
                    s
                },
                None => String::from_str("  ret void\n"),
            }
        },
        Inst::Unreachable => String::from_str("  unreachable\n"),
    }
}

/// The full text of a program: each instruction's line in order.
pub open spec fn spec_render(insts: Seq<InstView>) -> Seq<char>
    decreases insts,
{
    if insts.len() == 0 {
        Seq::empty()
    } else {
        spec_inst_text(insts.first()) + spec_render(insts.drop_first())
    }
}

/// Renders the instructions as text.
#[verifier::loop_isolation(false)]
pub fn render(insts: &Vec<Inst>) -> (r: String)
    ensures
        r@ == spec_render(view_insts(insts@)),
{
    let ghost full = view_insts(insts@);
    let mut s = String::new();
    let mut i: usize = 0;
    proof {
        assert(full.skip(0) =~= full);
        assert(Seq::<char>::empty() + spec_render(full) =~= spec_render(full));
    }
    while i < insts.len()
        invariant
            i <= insts@.len(),
            full == view_insts(insts@),
            spec_render(full) == s@ + spec_render(full.skip(i as int)),
        decreases insts@.len() - i,
    {
        proof {
            assert(full.skip(i as int).first() == full[i as int]);
            assert(full.skip(i as int).drop_first() =~= full.skip(i + 1));
        }
        let line = render_inst(&insts[i]);
        s.append(line.as_str());
        i = i + 1;
    }
    proof {
        assert(full.skip(insts@.len() as int) =~= Seq::<InstView>::empty());
        assert(s@ + Seq::<char>::empty() =~= s@);
    }
    s
}

/// Lowers a whole typed tree from a fresh context and renders it, for the
/// chosen target.
pub fn translate(target: Targets, ast: &AbstractBlock) -> (r: Result<String, CodegenError>)
    ensures
        match r {
            Ok(s) => spec_translate(view_ablock(ast@)) matches Ok(insts) && s@ == spec_render(
                insts,
            ),
            Err(e) => spec_translate(view_ablock(ast@)) == Err::<Seq<InstView>, _>(e@),
        },
{
    match target {
        Targets::Llvm => {},
    }
    let mut ctx = CodegenContext::new();
    let mut out: Vec<Inst> = Vec::new();
    proof {
        assert(ctx@.vars =~= Seq::<(Seq<char>, u64)>::empty());
        assert(ctx@.loops =~= Seq::<(u64, u64)>::empty());
        assert(view_insts(out@) =~= Seq::<InstView>::empty());
    }
    match lower_block(&mut ctx, &mut out, ast) {
        Err(e) => Err(e),
        Ok(_) => {
            proof {
                if let Ok(p) = spec_lower_block(
                    CodegenCtx { counter: 0, vars: Seq::empty(), loops: Seq::empty() },
                    view_ablock(ast@),
                ) {
                    assert(Seq::<InstView>::empty() + p.1 =~= p.1);
                }
            }
            Ok(render(&out))
        },
    }
}

} // verus!
