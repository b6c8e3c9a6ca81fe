//! The mathematical picture of a typed program, shared by partially
//! typed and fully typed trees: every expression node carries its type
//! (a partial type; a fully typed tree shows its types through
//! `from_basic`) and, unless checking gave up on it, its contents.
use vstd::prelude::*;
use beans::span::Span;
use crate::ast::{BinOp, Ident};
use crate::types::{PartialType, to_basic};

verus! {

pub enum ExprKind {
    Int(i64),
    True,
    False,
    Null,
    Ident(Ident),
    Deref(Box<ExprNode>),
    Assign(Box<ExprNode>, Box<ExprNode>),
    Call(Ident, Span, Seq<ExprNode>),
    PrefixIncr(Box<ExprNode>),
    PrefixDecr(Box<ExprNode>),
    PostfixIncr(Box<ExprNode>),
    PostfixDecr(Box<ExprNode>),
    Addr(Box<ExprNode>),
    Not(Box<ExprNode>),
    Neg(Box<ExprNode>),
    Pos(Box<ExprNode>),
    Op(BinOp, Box<ExprNode>, Box<ExprNode>),
    SizeOf(PartialType, Span),
}

/// An expression with its type; `inner` is `None` where checking could
/// not build the expression (an unknown function, a wrong arity, `sizeof
/// void`).
pub struct ExprNode {
    pub inner: Option<ExprKind>,
    pub ty: PartialType,
    pub span: Span,
}

pub struct VarNode {
    pub ty: PartialType,
    pub ty_span: Span,
    pub name: Ident,
    pub name_span: Span,
    pub value: Option<ExprNode>,
}

pub struct ParamNode {
    pub ty: PartialType,
    pub ty_span: Span,
    pub name: Ident,
    pub name_span: Span,
}

pub enum InstrKind {
    Empty,
    ExprInstr(ExprNode),
    If(ExprNode, Box<InstrNode>, Option<Box<InstrNode>>),
    While(ExprNode, Box<InstrNode>),
    For(Option<(VarNode, Span)>, Option<ExprNode>, Seq<ExprNode>, Box<InstrNode>),
    Block(Seq<ItemNode>),
    Return(Option<ExprNode>),
    Break,
    Continue,
}

/// An instruction with the loop depth and the return type it was checked
/// under.
pub struct InstrNode {
    pub instr: InstrKind,
    pub span: Span,
    pub loop_level: usize,
    pub ret: PartialType,
}

pub struct FunNode {
    pub ty: PartialType,
    pub ty_span: Span,
    pub name: Ident,
    pub name_span: Span,
    pub params: Seq<ParamNode>,
    pub code: Seq<ItemNode>,
    pub code_span: Span,
    pub loop_level: usize,
    pub ret: PartialType,
    pub toplevel: bool,
}

pub enum ItemNode {
    Fun(FunNode, Span),
    Var(VarNode, Span),
    Instr(InstrNode),
}

/// A top-level function with the span of its declaration.
pub type FileNode = Seq<(FunNode, Span)>;

pub open spec fn known(t: PartialType) -> bool {
    to_basic(t) is Some
}

/// Every expression in the node is built and has a known type.
pub open spec fn expr_complete(n: ExprNode) -> bool
    decreases n,
{
    known(n.ty) && match n.inner {
        Some(k) => kind_complete(k),
        None => false,
    }
}

pub open spec fn kind_complete(k: ExprKind) -> bool
    decreases k,
{
    match k {
        ExprKind::Deref(x) => expr_complete(*x),
        ExprKind::Assign(l, r) => expr_complete(*l) && expr_complete(*r),
        ExprKind::Call(_, _, args) => forall|i: int|
            0 <= i < args.len() ==> expr_complete(#[trigger] args[i]),
        ExprKind::PrefixIncr(x) => expr_complete(*x),
        ExprKind::PrefixDecr(x) => expr_complete(*x),
        ExprKind::PostfixIncr(x) => expr_complete(*x),
        ExprKind::PostfixDecr(x) => expr_complete(*x),
        ExprKind::Addr(x) => expr_complete(*x),
        ExprKind::Not(x) => expr_complete(*x),
        ExprKind::Neg(x) => expr_complete(*x),
        ExprKind::Pos(x) => expr_complete(*x),
        ExprKind::Op(_, l, r) => expr_complete(*l) && expr_complete(*r),
        ExprKind::SizeOf(t, _) => known(t),
        _ => true,
    }
}

pub open spec fn var_complete(v: VarNode) -> bool {
    known(v.ty) && match v.value {
        Some(x) => expr_complete(x),
        None => true,
    }
}

pub open spec fn instr_complete(n: InstrNode) -> bool
    decreases n,
{
    known(n.ret) && match n.instr {
        InstrKind::ExprInstr(e) => expr_complete(e),
        InstrKind::If(c, t, e) => expr_complete(c) && instr_complete(*t) && match e {
            Some(x) => instr_complete(*x),
            None => true,
        },
        InstrKind::While(c, b) => expr_complete(c) && instr_complete(*b),
        InstrKind::For(v, c, incr, b) => {
            &&& match v {
                Some(p) => var_complete(p.0),
                None => true,
            }
            &&& match c {
                Some(x) => expr_complete(x),
                None => true,
            }
            &&& forall|i: int| 0 <= i < incr.len() ==> #[trigger] expr_complete(incr[i])
            &&& instr_complete(*b)
        },
        InstrKind::Block(items) => items_complete(items),
        InstrKind::Return(Some(e)) => expr_complete(e),
        _ => true,
    }
}

pub open spec fn items_complete(items: Seq<ItemNode>) -> bool
    decreases items,
{
    forall|i: int| 0 <= i < items.len() ==> item_complete(#[trigger] items[i])
}

pub open spec fn item_complete(it: ItemNode) -> bool
    decreases it,
{
    match it {
        ItemNode::Fun(f, _) => fun_complete(f),
        ItemNode::Var(v, _) => var_complete(v),
        ItemNode::Instr(i) => instr_complete(i),
    }
}

pub open spec fn fun_complete(f: FunNode) -> bool
    decreases f,
{
    &&& known(f.ty)
    &&& known(f.ret)
    &&& forall|i: int| 0 <= i < f.params.len() ==> known(#[trigger] f.params[i].ty)
    &&& items_complete(f.code)
}

// What the conversion to a fully typed tree gives. It fails where a type
// is unknown or an expression is missing, with one exception: the
// initial value of a variable is dropped, not failed on, when a missing
// expression or unknown type sits strictly inside it.
pub open spec fn var_full(v: VarNode) -> Option<VarNode> {
    if !known(v.ty) {
        None
    } else {
        match v.value {
            None => Some(v),
            Some(x) => match x.inner {
                None => None,
                Some(k) => if !known(x.ty) {
                    None
                } else if kind_complete(k) {
                    Some(v)
                } else {
                    Some(VarNode { value: None, ..v })
                },
            },
        }
    }
}

pub open spec fn instr_full(n: InstrNode) -> Option<InstrNode>
    decreases n, 1nat,
{
    if !known(n.ret) {
        None
    } else {
        match instr_kind_full(n.instr) {
            None => None,
            Some(k) => Some(InstrNode { instr: k, ..n }),
        }
    }
}

pub open spec fn instr_kind_full(k: InstrKind) -> Option<InstrKind>
    decreases k, 0nat,
{
    match k {
        InstrKind::ExprInstr(e) => if expr_complete(e) {
            Some(k)
        } else {
            None
        },
        InstrKind::If(c, t, e) => if !expr_complete(c) {
            None
        } else {
            match instr_full(*t) {
                None => None,
                Some(t2) => match e {
                    None => Some(InstrKind::If(c, Box::new(t2), None)),
                    Some(x) => match instr_full(*x) {
                        None => None,
                        Some(x2) => Some(InstrKind::If(c, Box::new(t2), Some(Box::new(x2)))),
                    },
                },
            }
        },
        InstrKind::While(c, b) => if !expr_complete(c) {
            None
        } else {
            match instr_full(*b) {
                None => None,
                Some(b2) => Some(InstrKind::While(c, Box::new(b2))),
            }
        },
        InstrKind::For(v, c, incr, b) => {
            let v2: Option<Option<(VarNode, Span)>> = match v {
                None => Some(None),
                Some(p) => match var_full(p.0) {
                    None => None,
                    Some(x) => Some(Some((x, p.1))),
                },
            };
            let c_ok = match c {
                None => true,
                Some(x) => expr_complete(x),
            };
            let incr_ok = forall|i: int| 0 <= i < incr.len() ==> #[trigger] expr_complete(incr[i]);
            if v2 is None || !c_ok || !incr_ok {
                None
            } else {
                match instr_full(*b) {
                    None => None,
                    Some(b2) => Some(InstrKind::For(v2.unwrap(), c, incr, Box::new(b2))),
                }
            }
        },
        InstrKind::Block(items) => match items_full(items) {
            None => None,
            Some(items2) => Some(InstrKind::Block(items2)),
        },
        InstrKind::Return(Some(e)) => if expr_complete(e) {
            Some(k)
        } else {
            None
        },
        _ => Some(k),
    }
}

pub open spec fn items_full(items: Seq<ItemNode>) -> Option<Seq<ItemNode>>
    decreases items, 2nat,
{
    if forall|i: int| 0 <= i < items.len() ==> item_full(#[trigger] items[i]) is Some {
        Some(
            Seq::new(
                items.len(),
                |i: int|
                    if 0 <= i < items.len() {
                        item_full(items[i]).unwrap()
                    } else {
                        items[i]
                    },
            ),
        )
    } else {
        None
    }
}

pub open spec fn item_full(it: ItemNode) -> Option<ItemNode>
    decreases it, 2nat,
{
    match it {
        ItemNode::Fun(f, s) => match fun_full(f) {
            None => None,
            Some(f2) => Some(ItemNode::Fun(f2, s)),
        },
        ItemNode::Var(v, s) => match var_full(v) {
            None => None,
            Some(v2) => Some(ItemNode::Var(v2, s)),
        },
        ItemNode::Instr(i) => match instr_full(i) {
            None => None,
            Some(i2) => Some(ItemNode::Instr(i2)),
        },
    }
}

pub open spec fn fun_full(f: FunNode) -> Option<FunNode>
    decreases f, 2nat,
{
    if !known(f.ty) || !known(f.ret) || !(forall|i: int|
        0 <= i < f.params.len() ==> known(#[trigger] f.params[i].ty)) {
        None
    } else {
        match items_full(f.code) {
            None => None,
            Some(c) => Some(FunNode { code: c, ..f }),
        }
    }
}

pub open spec fn file_full(f: FileNode) -> Option<FileNode> {
    if forall|i: int| 0 <= i < f.len() ==> #[trigger] fun_full(f[i].0) is Some {
        Some(
            Seq::new(
                f.len(),
                |i: int| (fun_full(f[i].0).unwrap(), f[i].1),
            ),
        )
    } else {
        None
    }
}

} // verus!
