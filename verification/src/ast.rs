//! The program as the parser gives it: every node carries its span.
use vstd::prelude::*;
use beans::span::Span;
use crate::span::WithSpan;
use crate::types::{Type, MAX_DECLARED_INDIRECTION};

verus! {

/// An identifier: an index into the table of names.
pub type Ident = usize;

/// Binary operators.
#[derive(Debug, Clone, Copy, PartialEq, Eq, Structural)]
pub enum BinOp {
    Add,
    Sub,
    Mul,
    Div,
    Mod,
    BAnd,
    BOr,
    Eq,
    NEq,
    Lt,
    Le,
    Gt,
    Ge,
}

/// Expressions.
#[derive(Debug)]
pub enum Expr {
    Int(i64),
    True,
    False,
    Null,
    Ident(Ident),
    Deref(Box<WithSpan<Expr>>),
    Assign { lhs: Box<WithSpan<Expr>>, rhs: Box<WithSpan<Expr>> },
    Call { name: WithSpan<Ident>, args: Vec<WithSpan<Expr>> },
    PrefixIncr(Box<WithSpan<Expr>>),
    PrefixDecr(Box<WithSpan<Expr>>),
    PostfixIncr(Box<WithSpan<Expr>>),
    PostfixDecr(Box<WithSpan<Expr>>),
    Addr(Box<WithSpan<Expr>>),
    Not(Box<WithSpan<Expr>>),
    Neg(Box<WithSpan<Expr>>),
    Pos(Box<WithSpan<Expr>>),
    Op { op: BinOp, lhs: Box<WithSpan<Expr>>, rhs: Box<WithSpan<Expr>> },
    SizeOf(WithSpan<Type>),
}

/// A variable declaration, with an optional initial value.
#[derive(Debug)]
pub struct VarDecl {
    pub ty: WithSpan<Type>,
    pub name: WithSpan<Ident>,
    pub value: Option<WithSpan<Expr>>,
}

/// A function declaration.
#[derive(Debug)]
pub struct FunDecl {
    pub ty: WithSpan<Type>,
    pub name: WithSpan<Ident>,
    pub params: Vec<(WithSpan<Type>, WithSpan<Ident>)>,
    pub code: WithSpan<Vec<DeclOrInstr>>,
    pub toplevel: bool,
}

/// An item of a block.
#[derive(Debug)]
pub enum DeclOrInstr {
    Fun(WithSpan<FunDecl>),
    Var(WithSpan<VarDecl>),
    Instr(WithSpan<Instr>),
}

/// Instructions.
#[derive(Debug)]
pub enum Instr {
    EmptyInstr,
    ExprInstr(WithSpan<Expr>),
    If {
        cond: WithSpan<Expr>,
        then_branch: Box<WithSpan<Instr>>,
        else_branch: Box<Option<WithSpan<Instr>>>,
    },
    While { cond: WithSpan<Expr>, body: Box<WithSpan<Instr>> },
    For {
        loop_var: Option<WithSpan<VarDecl>>,
        cond: Option<WithSpan<Expr>>,
        incr: Vec<WithSpan<Expr>>,
        body: Box<WithSpan<Instr>>,
    },
    Block(Vec<DeclOrInstr>),
    Return(Option<WithSpan<Expr>>),
    Break,
    Continue,
}

/// A whole program: its top-level functions.
#[derive(Debug)]
pub struct File {
    pub fun_decls: Vec<WithSpan<FunDecl>>,
}

/// Whether an expression denotes a place in memory.
pub open spec fn is_lvalue(e: Expr) -> bool {
    match e {
        Expr::Ident(_) => true,
        Expr::Deref(_) => true,
        _ => false,
    }
}

impl Expr {
    pub fn is_lvalue(&self) -> (r: bool)
        ensures
            r == is_lvalue(*self),
    {
        match self {
            Expr::Ident(_) => true,
            Expr::Deref(_) => true,
            _ => false,
        }
    }
}

/// The largest depth of nesting accepted in a program. Each level of
/// nesting can add one star to a type (`&x`) and one to a loop depth, and
/// both are counted in a `usize`; together with `MAX_DECLARED_INDIRECTION`
/// this keeps every count below 2^31, within a `usize` on 32-bit machines
/// too. It is a machine limit, far above any program that can be parsed.
pub const MAX_DEPTH: usize = 0x4000_0000;

pub open spec fn wf_type(t: WithSpan<Type>) -> bool {
    t.inner.indirection_count <= MAX_DECLARED_INDIRECTION
}

/// `e` names only identifiers below `n`, declares only types with at most
/// `MAX_DECLARED_INDIRECTION` stars, and is less than `b` levels deep.
pub open spec fn wf_expr(e: WithSpan<Expr>, n: nat, b: nat) -> bool
    decreases e,
{
    b > 0 && match e.inner {
        Expr::Ident(x) => x < n,
        Expr::Deref(x) => wf_expr(*x, n, (b - 1) as nat),
        Expr::Assign { lhs, rhs } => wf_expr(*lhs, n, (b - 1) as nat) && wf_expr(
            *rhs,
            n,
            (b - 1) as nat,
        ),
        Expr::Call { name, args } => name.inner < n && wf_args(args@, n, (b - 1) as nat),
        Expr::PrefixIncr(x) => wf_expr(*x, n, (b - 1) as nat),
        Expr::PrefixDecr(x) => wf_expr(*x, n, (b - 1) as nat),
        Expr::PostfixIncr(x) => wf_expr(*x, n, (b - 1) as nat),
        Expr::PostfixDecr(x) => wf_expr(*x, n, (b - 1) as nat),
        Expr::Addr(x) => wf_expr(*x, n, (b - 1) as nat),
        Expr::Not(x) => wf_expr(*x, n, (b - 1) as nat),
        Expr::Neg(x) => wf_expr(*x, n, (b - 1) as nat),
        Expr::Pos(x) => wf_expr(*x, n, (b - 1) as nat),
        Expr::Op { op, lhs, rhs } => wf_expr(*lhs, n, (b - 1) as nat) && wf_expr(
            *rhs,
            n,
            (b - 1) as nat,
        ),
        Expr::SizeOf(t) => wf_type(t),
        _ => true,
    }
}

/// Each expression of `args` is well formed.
pub open spec fn wf_args(args: Seq<WithSpan<Expr>>, n: nat, b: nat) -> bool
    decreases args,
{
    forall|i: int| 0 <= i < args.len() ==> wf_expr(#[trigger] args[i], n, b)
}

pub open spec fn wf_var(v: WithSpan<VarDecl>, n: nat, b: nat) -> bool {
    &&& b > 0
    &&& wf_type(v.inner.ty)
    &&& v.inner.name.inner < n
    &&& match v.inner.value {
        Some(x) => wf_expr(x, n, (b - 1) as nat),
        None => true,
    }
}

pub open spec fn wf_instr(i: WithSpan<Instr>, n: nat, b: nat) -> bool
    decreases i,
{
    b > 0 && match i.inner {
        Instr::ExprInstr(e) => wf_expr(e, n, (b - 1) as nat),
        Instr::If { cond, then_branch, else_branch } => {
            &&& wf_expr(cond, n, (b - 1) as nat)
            &&& wf_instr(*then_branch, n, (b - 1) as nat)
            &&& match *else_branch {
                Some(x) => wf_instr(x, n, (b - 1) as nat),
                None => true,
            }
        },
        Instr::While { cond, body } => wf_expr(cond, n, (b - 1) as nat) && wf_instr(
            *body,
            n,
            (b - 1) as nat,
        ),
        Instr::For { loop_var, cond, incr, body } => {
            &&& match loop_var {
                Some(v) => wf_var(v, n, (b - 1) as nat),
                None => true,
            }
            &&& match cond {
                Some(c) => wf_expr(c, n, (b - 1) as nat),
                None => true,
            }
            &&& forall|k: int| 0 <= k < incr@.len() ==> wf_expr(#[trigger] incr@[k], n, (b - 1) as nat)
            &&& wf_instr(*body, n, (b - 1) as nat)
        },
        Instr::Block(items) => {
            proof {
                assert(decreases_to!(i => i.inner));
            }
            wf_items(items@, n, (b - 1) as nat)
        },
        Instr::Return(Some(e)) => wf_expr(e, n, (b - 1) as nat),
        _ => true,
    }
}

pub open spec fn wf_items(items: Seq<DeclOrInstr>, n: nat, b: nat) -> bool
    decreases items,
{
    forall|k: int| 0 <= k < items.len() ==> wf_item(#[trigger] items[k], n, b)
}

pub open spec fn wf_item(it: DeclOrInstr, n: nat, b: nat) -> bool
    decreases it,
{
    match it {
        DeclOrInstr::Fun(f) => wf_fun(f, n, b),
        DeclOrInstr::Var(v) => wf_var(v, n, b),
        DeclOrInstr::Instr(i) => wf_instr(i, n, b),
    }
}

pub open spec fn wf_fun(f: WithSpan<FunDecl>, n: nat, b: nat) -> bool
    decreases f,
{
    &&& b > 0
    &&& wf_type(f.inner.ty)
    &&& f.inner.name.inner < n
    &&& forall|k: int|
        0 <= k < f.inner.params@.len() ==> wf_type(#[trigger] f.inner.params@[k].0)
            && f.inner.params@[k].1.inner < n
    &&& {
        proof {
            assert(decreases_to!(f => f.inner));
            assert(decreases_to!(f.inner => f.inner.code));
            assert(decreases_to!(f.inner.code => f.inner.code.inner));
        }
        wf_items(f.inner.code.inner@, n, (b - 1) as nat)
    }
}

/// A program fit for checking: all its identifiers index a table of `n`
/// names, its declared types have at most `MAX_DECLARED_INDIRECTION`
/// stars, and it is less than `MAX_DEPTH` levels deep.
pub open spec fn wf_file(f: File, n: nat) -> bool {
    forall|k: int| 0 <= k < f.fun_decls@.len() ==> #[trigger] wf_fun(f.fun_decls@[k], n, MAX_DEPTH as nat)
}

} // verus!
