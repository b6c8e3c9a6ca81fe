//! Fully typed trees: what checking gives back for a program without
//! errors. Every type is known; the views show them as partial types.
use vstd::prelude::*;
use crate::annot::{TypedInstr, WithType};
use crate::ast::{BinOp, Ident};
use crate::model::{
    ExprKind, ExprNode, FileNode, FunNode, InstrKind, InstrNode, ItemNode, ParamNode, VarNode,
};
use crate::span::WithSpan;
use crate::types::{Type, from_basic};

verus! {

/// A typed expression.
pub type TExpr = WithType<Expr, Type>;

/// A typed instruction.
pub type TInstr = TypedInstr<Instr, Type>;

#[derive(Debug)]
pub enum Expr {
    Int(i64),
    True,
    False,
    Null,
    Ident(Ident),
    Deref(Box<TExpr>),
    Assign { lhs: Box<TExpr>, rhs: Box<TExpr> },
    Call { name: WithSpan<Ident>, args: Vec<TExpr> },
    PrefixIncr(Box<TExpr>),
    PrefixDecr(Box<TExpr>),
    PostfixIncr(Box<TExpr>),
    PostfixDecr(Box<TExpr>),
    Addr(Box<TExpr>),
    Not(Box<TExpr>),
    Neg(Box<TExpr>),
    Pos(Box<TExpr>),
    Op { op: BinOp, lhs: Box<TExpr>, rhs: Box<TExpr> },
    SizeOf(WithSpan<Type>),
}

#[derive(Debug)]
pub struct VarDecl {
    pub ty: WithSpan<Type>,
    pub name: WithSpan<Ident>,
    pub value: Option<TExpr>,
}

#[derive(Debug)]
pub struct FunDecl {
    pub ty: WithSpan<Type>,
    pub name: WithSpan<Ident>,
    pub params: Vec<(WithSpan<Type>, WithSpan<Ident>)>,
    pub code: TypedInstr<Vec<DeclOrInstr>, Type>,
    pub toplevel: bool,
}

#[derive(Debug)]
pub enum DeclOrInstr {
    Fun(WithSpan<FunDecl>),
    Var(WithSpan<VarDecl>),
    Instr(TInstr),
}

#[derive(Debug)]
pub enum Instr {
    EmptyInstr,
    ExprInstr(TExpr),
    If { cond: TExpr, then_branch: Box<TInstr>, else_branch: Box<Option<TInstr>> },
    While { cond: TExpr, body: Box<TInstr> },
    For {
        loop_var: Option<WithSpan<VarDecl>>,
        cond: Option<TExpr>,
        incr: Vec<TExpr>,
        body: Box<TInstr>,
    },
    Block(Vec<DeclOrInstr>),
    Return(Option<TExpr>),
    Break,
    Continue,
}

#[derive(Debug)]
pub struct File {
    pub fun_decls: Vec<WithSpan<FunDecl>>,
}

pub open spec fn expr_node(w: TExpr) -> ExprNode
    decreases w, 1nat,
{
    ExprNode { inner: Some(expr_kind(w.inner)), ty: from_basic(w.ty), span: w.span }
}

pub open spec fn expr_kind(e: Expr) -> ExprKind
    decreases e, 0nat,
{
    match e {
        Expr::Int(n) => ExprKind::Int(n),
        Expr::True => ExprKind::True,
        Expr::False => ExprKind::False,
        Expr::Null => ExprKind::Null,
        Expr::Ident(x) => ExprKind::Ident(x),
        Expr::Deref(x) => ExprKind::Deref(Box::new(expr_node(*x))),
        Expr::Assign { lhs, rhs } => ExprKind::Assign(
            Box::new(expr_node(*lhs)),
            Box::new(expr_node(*rhs)),
        ),
        Expr::Call { name, args } => ExprKind::Call(
            name.inner,
            name.span,
            Seq::new(
                args@.len(),
                |i: int|
                    if 0 <= i < args@.len() {
                        proof {
                            assert(decreases_to!(e => e->Call_args));
                        }
                        expr_node(args@[i])
                    } else {
                        arbitrary()
                    },
            ),
        ),
        Expr::PrefixIncr(x) => ExprKind::PrefixIncr(Box::new(expr_node(*x))),
        Expr::PrefixDecr(x) => ExprKind::PrefixDecr(Box::new(expr_node(*x))),
        Expr::PostfixIncr(x) => ExprKind::PostfixIncr(Box::new(expr_node(*x))),
        Expr::PostfixDecr(x) => ExprKind::PostfixDecr(Box::new(expr_node(*x))),
        Expr::Addr(x) => ExprKind::Addr(Box::new(expr_node(*x))),
        Expr::Not(x) => ExprKind::Not(Box::new(expr_node(*x))),
        Expr::Neg(x) => ExprKind::Neg(Box::new(expr_node(*x))),
        Expr::Pos(x) => ExprKind::Pos(Box::new(expr_node(*x))),
        Expr::Op { op, lhs, rhs } => ExprKind::Op(
            op,
            Box::new(expr_node(*lhs)),
            Box::new(expr_node(*rhs)),
        ),
        Expr::SizeOf(t) => ExprKind::SizeOf(from_basic(t.inner), t.span),
    }
}

pub open spec fn opt_expr_node(w: Option<TExpr>) -> Option<ExprNode> {
    match w {
        Some(x) => Some(expr_node(x)),
        None => None,
    }
}

pub open spec fn exprs_node(ws: Seq<TExpr>) -> Seq<ExprNode> {
    Seq::new(ws.len(), |i: int| expr_node(ws[i]))
}

pub open spec fn var_node(v: VarDecl) -> VarNode {
    VarNode {
        ty: from_basic(v.ty.inner),
        ty_span: v.ty.span,
        name: v.name.inner,
        name_span: v.name.span,
        value: opt_expr_node(v.value),
    }
}

pub open spec fn instr_node(t: TInstr) -> InstrNode
    decreases t, 1nat,
{
    InstrNode {
        instr: instr_kind(t.instr),
        span: t.span,
        loop_level: t.loop_level,
        ret: from_basic(t.expected_return_type),
    }
}

pub open spec fn instr_kind(i: Instr) -> InstrKind
    decreases i, 0nat,
{
    match i {
        Instr::EmptyInstr => InstrKind::Empty,
        Instr::ExprInstr(e) => InstrKind::ExprInstr(expr_node(e)),
        Instr::If { cond, then_branch, else_branch } => InstrKind::If(
            expr_node(cond),
            Box::new(instr_node(*then_branch)),
            match *else_branch {
                Some(x) => Some(Box::new(instr_node(x))),
                None => None,
            },
        ),
        Instr::While { cond, body } => InstrKind::While(
            expr_node(cond),
            Box::new(instr_node(*body)),
        ),
        Instr::For { loop_var, cond, incr, body } => InstrKind::For(
            match loop_var {
                Some(v) => Some((var_node(v.inner), v.span)),
                None => None,
            },
            opt_expr_node(cond),
            exprs_node(incr@),
            Box::new(instr_node(*body)),
        ),
        Instr::Block(items) => {
            proof {
                assert(decreases_to!(i => i->Block_0));
            }
            InstrKind::Block(items_node(items@))
        },
        Instr::Return(v) => InstrKind::Return(opt_expr_node(v)),
        Instr::Break => InstrKind::Break,
        Instr::Continue => InstrKind::Continue,
    }
}

pub open spec fn items_node(items: Seq<DeclOrInstr>) -> Seq<ItemNode>
    decreases items, 2nat,
{
    Seq::new(
        items.len(),
        |i: int|
            if 0 <= i < items.len() {
                item_node(items[i])
            } else {
                arbitrary()
            },
    )
}

pub open spec fn item_node(d: DeclOrInstr) -> ItemNode
    decreases d, 2nat,
{
    match d {
        DeclOrInstr::Fun(f) => ItemNode::Fun(fun_node(f.inner), f.span),
        DeclOrInstr::Var(v) => ItemNode::Var(var_node(v.inner), v.span),
        DeclOrInstr::Instr(i) => ItemNode::Instr(instr_node(i)),
    }
}

pub open spec fn param_nodes(ps: Seq<(WithSpan<Type>, WithSpan<Ident>)>) -> Seq<ParamNode> {
    Seq::new(
        ps.len(),
        |k: int|
            ParamNode {
                ty: from_basic(ps[k].0.inner),
                ty_span: ps[k].0.span,
                name: ps[k].1.inner,
                name_span: ps[k].1.span,
            },
    )
}

pub open spec fn fun_node(f: FunDecl) -> FunNode
    decreases f, 1nat,
{
    FunNode {
        ty: from_basic(f.ty.inner),
        ty_span: f.ty.span,
        name: f.name.inner,
        name_span: f.name.span,
        params: param_nodes(f.params@),
        code: {
            proof {
                assert(decreases_to!(f => f.code));
                assert(decreases_to!(f.code => f.code.instr));
            }
            items_node(f.code.instr@)
        },
        code_span: f.code.span,
        loop_level: f.code.loop_level,
        ret: from_basic(f.code.expected_return_type),
        toplevel: f.toplevel,
    }
}

pub open spec fn file_node(f: File) -> FileNode {
    Seq::new(f.fun_decls@.len(), |i: int| (fun_node(f.fun_decls@[i].inner), f.fun_decls@[i].span))
}

} // verus!
