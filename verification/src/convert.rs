//! Turning a partially typed tree into a fully typed one.
use vstd::prelude::*;
use crate::annot::{TypedInstr, WithType};
use crate::full::{self, TExpr, TInstr};
use crate::model::{
    expr_complete, fun_full, instr_full, instr_kind_full, item_full, items_full, kind_complete,
    known, var_full, file_full,
};
use crate::partial::{self, PExpr, PInstr};
use crate::span::WithSpan;
use crate::ast::Ident;
use crate::laws::known_round_trip;
use crate::types::{PartialType, Type, from_basic, to_basic};

verus! {

impl WithSpan<PartialType> {
    /// The same type with its span, when the type is known.
    pub fn to_full(&self) -> (r: Option<WithSpan<Type>>)
        ensures
            r is Some <==> known(self.inner),
            r matches Some(t) ==> from_basic(t.inner) == self.inner && t.span == self.span,
    {
        match self.inner.to_basic() {
            Some(t) => {
                proof {
                    known_round_trip(self.inner);
                }
                Some(WithSpan { inner: t, span: self.span.clone() })
            },
            None => None,
        }
    }
}

impl WithType<Option<partial::Expr>, PartialType> {
    /// The fully typed expression, when it and all its parts are built
    /// and have known types.
    pub fn to_full(&self) -> (r: Option<TExpr>)
        ensures
            r is Some <==> expr_complete(partial::expr_node(*self)),
            r matches Some(t) ==> full::expr_node(t) == partial::expr_node(*self),
        decreases self, 1nat,
    {
        match &self.inner {
            None => None,
            Some(e) => match self.ty.to_basic() {
                None => None,
                Some(ty) => {
                    proof {
                        known_round_trip(self.ty);
                    }
                    match e.to_full() {
                        None => None,
                        Some(k) => Some(WithType { inner: k, ty, span: self.span.clone() }),
                    }
                },
            },
        }
    }
}

fn box_full(x: &Box<PExpr>) -> (r: Option<Box<TExpr>>)
    ensures
        r is Some <==> expr_complete(partial::expr_node(**x)),
        r matches Some(t) ==> full::expr_node(*t) == partial::expr_node(**x),
    decreases x, 2nat,
{
    match x.to_full() {
        Some(t) => Some(Box::new(t)),
        None => None,
    }
}

impl partial::Expr {
    /// The fully typed expression (see `WithType::to_full`).
    pub fn to_full(&self) -> (r: Option<full::Expr>)
        ensures
            r is Some <==> kind_complete(partial::expr_kind(*self)),
            r matches Some(k) ==> full::expr_kind(k) == partial::expr_kind(*self),
        decreases self, 0nat,
    {
        match self {
            partial::Expr::Int(i) => Some(full::Expr::Int(*i)),
            partial::Expr::True => Some(full::Expr::True),
            partial::Expr::False => Some(full::Expr::False),
            partial::Expr::Null => Some(full::Expr::Null),
            partial::Expr::Ident(x) => Some(full::Expr::Ident(*x)),
            partial::Expr::Deref(x) => match box_full(x) {
                Some(t) => Some(full::Expr::Deref(t)),
                None => None,
            },
            partial::Expr::Assign { lhs, rhs } => match (box_full(lhs), box_full(rhs)) {
                (Some(l), Some(r)) => Some(full::Expr::Assign { lhs: l, rhs: r }),
                _ => None,
            },
            partial::Expr::Call { name, args } => {
                let mut out: Vec<TExpr> = Vec::new();
                let mut i: usize = 0;
                while i < args.len()
                    invariant
                        *self == (partial::Expr::Call { name: *name, args: *args }),
                        i <= args@.len(),
                        out@.len() == i,
                        forall|k: int| 0 <= k < i ==> expr_complete(partial::expr_node(#[trigger] args@[k])),
                        forall|k: int|
                            0 <= k < i ==> full::expr_node(#[trigger] out@[k])
                                == partial::expr_node(args@[k]),
                    decreases args@.len() - i,
                {
                    proof {
                        assert(decreases_to!(*self => self->Call_args));
                        assert(decreases_to!(self->Call_args => self->Call_args@));
                        assert(decreases_to!(self->Call_args@ => self->Call_args@[i as int]));
                    }
                    match args[i].to_full() {
                        Some(t) => out.push(t),
                        None => {
                            assert(!kind_complete(partial::expr_kind(*self))) by {
                                let ns = partial::expr_kind(*self)->Call_2;
                                assert(ns[i as int] == partial::expr_node(args@[i as int]));
                            }
                            return None;
                        },
                    }
                    i = i + 1;
                }
                let r = full::Expr::Call { name: WithSpan { inner: name.inner, span: name.span.clone() }, args: out };
                proof {
                    let ns = partial::expr_kind(*self)->Call_2;
                    assert forall|k: int| 0 <= k < ns.len() implies expr_complete(#[trigger] ns[k]) by {
                        assert(ns[k] == partial::expr_node(args@[k]));
                    }
                    assert(full::expr_kind(r)->Call_2 =~= ns);
                }
                Some(r)
            },
            partial::Expr::PrefixIncr(x) => match box_full(x) {
                Some(t) => Some(full::Expr::PrefixIncr(t)),
                None => None,
            },
            partial::Expr::PrefixDecr(x) => match box_full(x) {
                Some(t) => Some(full::Expr::PrefixDecr(t)),
                None => None,
            },
            partial::Expr::PostfixIncr(x) => match box_full(x) {
                Some(t) => Some(full::Expr::PostfixIncr(t)),
                None => None,
            },
            partial::Expr::PostfixDecr(x) => match box_full(x) {
                Some(t) => Some(full::Expr::PostfixDecr(t)),
                None => None,
            },
            partial::Expr::Addr(x) => match box_full(x) {
                Some(t) => Some(full::Expr::Addr(t)),
                None => None,
            },
            partial::Expr::Not(x) => match box_full(x) {
                Some(t) => Some(full::Expr::Not(t)),
                None => None,
            },
            partial::Expr::Neg(x) => match box_full(x) {
                Some(t) => Some(full::Expr::Neg(t)),
                None => None,
            },
            partial::Expr::Pos(x) => match box_full(x) {
                Some(t) => Some(full::Expr::Pos(t)),
                None => None,
            },
            partial::Expr::Op { op, lhs, rhs } => match (box_full(lhs), box_full(rhs)) {
                (Some(l), Some(r)) => Some(full::Expr::Op { op: *op, lhs: l, rhs: r }),
                _ => None,
            },
            partial::Expr::SizeOf(t) => match t.to_full() {
                Some(u) => Some(full::Expr::SizeOf(u)),
                None => None,
            },
        }
    }
}

impl partial::VarDecl {
    /// The fully typed declaration, when its type is known and its
    /// initial value, if any, is built with a known type; an initial value
    /// with a missing part or an unknown type inside it is dropped.
    pub fn to_full(&self) -> (r: Option<full::VarDecl>)
        ensures
            r is Some <==> var_full(partial::var_node(*self)) is Some,
            r matches Some(v) ==> var_full(partial::var_node(*self)) == Some(full::var_node(v)),
    {
        let ty = match self.ty.to_full() {
            Some(t) => t,
            None => return None,
        };
        let value: Option<TExpr> = match &self.value {
            None => None,
            Some(x) => match &x.inner {
                None => return None,
                Some(k) => match x.ty.to_basic() {
                    None => return None,
                    Some(t) => {
                        proof {
                            known_round_trip(x.ty);
                        }
                        match k.to_full() {
                            Some(k2) => Some(WithType { inner: k2, ty: t, span: x.span.clone() }),
                            None => None,
                        }
                    },
                },
            },
        };
        Some(
            full::VarDecl {
                ty,
                name: WithSpan { inner: self.name.inner, span: self.name.span.clone() },
                value,
            },
        )
    }
}

impl TypedInstr<partial::Instr, PartialType> {
    /// The fully typed instruction, when the return type it was checked
    /// under and everything in it is known.
    pub fn to_full(&self) -> (r: Option<TInstr>)
        ensures
            r is Some <==> instr_full(partial::instr_node(*self)) is Some,
            r matches Some(t) ==> instr_full(partial::instr_node(*self)) == Some(
                full::instr_node(t),
            ),
        decreases self, 1nat,
    {
        match self.expected_return_type.to_basic() {
            None => None,
            Some(rt) => {
                proof {
                    known_round_trip(self.expected_return_type);
                }
                match self.instr.to_full() {
                    Some(k) => Some(
                        TypedInstr {
                            instr: k,
                            span: self.span.clone(),
                            loop_level: self.loop_level,
                            expected_return_type: rt,
                        },
                    ),
                    None => None,
                }
            },
        }
    }
}

impl partial::Instr {
    /// The fully typed instruction (see `TypedInstr::to_full`).
    pub fn to_full(&self) -> (r: Option<full::Instr>)
        ensures
            r is Some <==> instr_kind_full(partial::instr_kind(*self)) is Some,
            r matches Some(k) ==> instr_kind_full(partial::instr_kind(*self)) == Some(
                full::instr_kind(k),
            ),
        decreases self, 0nat,
    {
        match self {
            partial::Instr::EmptyInstr => Some(full::Instr::EmptyInstr),
            partial::Instr::ExprInstr(e) => match e.to_full() {
                Some(t) => Some(full::Instr::ExprInstr(t)),
                None => None,
            },
            partial::Instr::If { cond, then_branch, else_branch } => {
                let c = match cond.to_full() {
                    Some(c) => c,
                    None => return None,
                };
                let t = match then_branch.to_full() {
                    Some(t) => t,
                    None => return None,
                };
                let el: Option<TInstr> = match &**else_branch {
                    None => None,
                    Some(x) => match x.to_full() {
                        Some(y) => Some(y),
                        None => return None,
                    },
                };
                Some(full::Instr::If { cond: c, then_branch: Box::new(t), else_branch: Box::new(el) })
            },
            partial::Instr::While { cond, body } => {
                let c = match cond.to_full() {
                    Some(c) => c,
                    None => return None,
                };
                match body.to_full() {
                    Some(b) => Some(full::Instr::While { cond: c, body: Box::new(b) }),
                    None => None,
                }
            },
            partial::Instr::For { loop_var, cond, incr, body } => {
                let lv: Option<WithSpan<full::VarDecl>> = match loop_var {
                    None => None,
                    Some(v) => match v.inner.to_full() {
                        Some(x) => Some(WithSpan { inner: x, span: v.span.clone() }),
                        None => return None,
                    },
                };
                let c: Option<TExpr> = match cond {
                    None => None,
                    Some(x) => match x.to_full() {
                        Some(y) => Some(y),
                        None => return None,
                    },
                };
                let mut out: Vec<TExpr> = Vec::new();
                let mut i: usize = 0;
                while i < incr.len()
                    invariant
                        *self == (partial::Instr::For {
                            loop_var: *loop_var,
                            cond: *cond,
                            incr: *incr,
                            body: *body,
                        }),
                        i <= incr@.len(),
                        out@.len() == i,
                        forall|k: int|
                            0 <= k < i ==> expr_complete(partial::expr_node(#[trigger] incr@[k])),
                        forall|k: int|
                            0 <= k < i ==> full::expr_node(#[trigger] out@[k])
                                == partial::expr_node(incr@[k]),
                    decreases incr@.len() - i,
                {
                    match incr[i].to_full() {
                        Some(t) => out.push(t),
                        None => {
                            assert(!expr_complete(
                                partial::instr_kind(*self)->For_2[i as int],
                            ));
                            return None;
                        },
                    }
                    i = i + 1;
                }
                let b = match body.to_full() {
                    Some(b) => b,
                    None => return None,
                };
                let r = full::Instr::For { loop_var: lv, cond: c, incr: out, body: Box::new(b) };
                proof {
                    assert(full::exprs_node(out@) =~= partial::exprs_node(incr@));
                }
                Some(r)
            },
            partial::Instr::Block(items) => match items_to_full(items) {
                Some(v) => Some(full::Instr::Block(v)),
                None => None,
            },
            partial::Instr::Return(None) => Some(full::Instr::Return(None)),
            partial::Instr::Return(Some(e)) => match e.to_full() {
                Some(t) => Some(full::Instr::Return(Some(t))),
                None => None,
            },
            partial::Instr::Break => Some(full::Instr::Break),
            partial::Instr::Continue => Some(full::Instr::Continue),
        }
    }
}

/// The fully typed items of a block, when each of them can be had.
fn items_to_full(items: &Vec<partial::DeclOrInstr>) -> (r: Option<Vec<full::DeclOrInstr>>)
    ensures
        r is Some <==> items_full(partial::items_node(items@)) is Some,
        r matches Some(v) ==> items_full(partial::items_node(items@)) == Some(
            full::items_node(v@),
        ),
    decreases items, 2nat,
{
    let ghost ns = partial::items_node(items@);
    let mut out: Vec<full::DeclOrInstr> = Vec::new();
    let mut i: usize = 0;
    while i < items.len()
        invariant
            ns == partial::items_node(items@),
            i <= items@.len(),
            out@.len() == i,
            forall|k: int| 0 <= k < i ==> item_full(#[trigger] ns[k]) is Some,
            forall|k: int|
                0 <= k < i ==> item_full(ns[k]) == Some(full::item_node(#[trigger] out@[k])),
        decreases items@.len() - i,
    {
        proof {
            assert(decreases_to!(items => items@));
            assert(decreases_to!(items@ => items@[i as int]));
        }
        assert(ns[i as int] == partial::item_node(items@[i as int]));
        match items[i].to_full() {
            Some(d) => out.push(d),
            None => return None,
        }
        i = i + 1;
    }
    proof {
        let f = full::items_node(out@);
        assert(forall|k: int| 0 <= k < ns.len() ==> #[trigger] item_full(ns[k]) is Some);
        assert(items_full(ns).unwrap() =~= f) by {
            assert forall|k: int| 0 <= k < ns.len() implies items_full(ns).unwrap()[k] == f[k] by {
                assert(item_full(ns[k]) == Some(full::item_node(out@[k])));
            }
        }
    }
    Some(out)
}

impl partial::DeclOrInstr {
    /// The fully typed item (see `TypedInstr::to_full`).
    pub fn to_full(&self) -> (r: Option<full::DeclOrInstr>)
        ensures
            r is Some <==> item_full(partial::item_node(*self)) is Some,
            r matches Some(d) ==> item_full(partial::item_node(*self)) == Some(full::item_node(d)),
        decreases self, 2nat,
    {
        match self {
            partial::DeclOrInstr::Fun(f) => match f.inner.to_full() {
                Some(g) => Some(full::DeclOrInstr::Fun(WithSpan { inner: g, span: f.span.clone() })),
                None => None,
            },
            partial::DeclOrInstr::Var(v) => match v.inner.to_full() {
                Some(w) => Some(full::DeclOrInstr::Var(WithSpan { inner: w, span: v.span.clone() })),
                None => None,
            },
            partial::DeclOrInstr::Instr(i) => match i.to_full() {
                Some(t) => Some(full::DeclOrInstr::Instr(t)),
                None => None,
            },
        }
    }
}

impl partial::FunDecl {
    /// The fully typed function, when its return type, its parameters'
    /// types and everything in its body are known.
    pub fn to_full(&self) -> (r: Option<full::FunDecl>)
        ensures
            r is Some <==> fun_full(partial::fun_node(*self)) is Some,
            r matches Some(f) ==> fun_full(partial::fun_node(*self)) == Some(full::fun_node(f)),
        decreases self, 2nat,
    {
        let ghost fnode = partial::fun_node(*self);
        let ty = match self.ty.to_full() {
            Some(t) => t,
            None => return None,
        };
        let mut params: Vec<(WithSpan<Type>, WithSpan<Ident>)> = Vec::new();
        let mut i: usize = 0;
        while i < self.params.len()
            invariant
                fnode == partial::fun_node(*self),
                i <= self.params@.len(),
                params@.len() == i,
                forall|k: int| 0 <= k < i ==> known(#[trigger] fnode.params[k].ty),
                forall|k: int|
                    0 <= k < i ==> full::param_nodes(params@)[k] == #[trigger] fnode.params[k],
            decreases self.params@.len() - i,
        {
            let p = &self.params[i];
            let ghost before = params@;
            match p.0.to_full() {
                Some(t) => params.push((t, WithSpan { inner: p.1.inner, span: p.1.span.clone() })),
                None => {
                    assert(!known(fnode.params[i as int].ty));
                    return None;
                },
            }
            proof {
                assert forall|k: int| 0 <= k < i + 1 implies full::param_nodes(params@)[k]
                    == #[trigger] fnode.params[k] by {
                    if k < i {
                        assert(params@[k] == before[k]);
                        assert(full::param_nodes(before)[k] == fnode.params[k]);
                    }
                }
            }
            i = i + 1;
        }
        let rt = match self.code.expected_return_type.to_basic() {
            Some(t) => t,
            None => return None,
        };
        proof {
            known_round_trip(self.code.expected_return_type);
            assert(decreases_to!(*self => self.code));
            assert(decreases_to!(self.code => self.code.instr));
        }
        let code = match items_to_full(&self.code.instr) {
            Some(c) => c,
            None => return None,
        };
        let r = full::FunDecl {
            ty,
            name: WithSpan { inner: self.name.inner, span: self.name.span.clone() },
            params,
            code: TypedInstr {
                instr: code,
                span: self.code.span.clone(),
                loop_level: self.code.loop_level,
                expected_return_type: rt,
            },
            toplevel: self.toplevel,
        };
        proof {
            assert(full::param_nodes(params@) =~= fnode.params);
        }
        Some(r)
    }
}

impl partial::File {
    /// The fully typed program, when every function in it can be had.
    pub fn to_full(&self) -> (r: Option<full::File>)
        ensures
            r is Some <==> file_full(partial::file_node(*self)) is Some,
            r matches Some(f) ==> file_full(partial::file_node(*self)) == Some(full::file_node(f)),
    {
        let ghost ns = partial::file_node(*self);
        let mut out: Vec<WithSpan<full::FunDecl>> = Vec::new();
        let mut i: usize = 0;
        while i < self.fun_decls.len()
            invariant
                ns == partial::file_node(*self),
                i <= self.fun_decls@.len(),
                out@.len() == i,
                forall|k: int| 0 <= k < i ==> #[trigger] fun_full(ns[k].0) is Some,
                forall|k: int|
                    0 <= k < i ==> fun_full(ns[k].0) == Some(fun_node_of(#[trigger] out@[k])),
                forall|k: int| 0 <= k < i ==> (#[trigger] out@[k]).span == ns[k].1,
            decreases self.fun_decls@.len() - i,
        {
            let d = &self.fun_decls[i];
            assert(ns[i as int].0 == partial::fun_node(d.inner));
            match d.inner.to_full() {
                Some(g) => out.push(WithSpan { inner: g, span: d.span.clone() }),
                None => return None,
            }
            i = i + 1;
        }
        let r = full::File { fun_decls: out };
        proof {
            let f = full::file_node(r);
            assert(file_full(ns).unwrap() =~= f) by {
                assert forall|k: int| 0 <= k < ns.len() implies file_full(ns).unwrap()[k] == f[k] by {
                    assert(fun_full(ns[k].0) == Some(fun_node_of(out@[k])));
                }
            }
        }
        Some(r)
    }
}

spec fn fun_node_of(w: WithSpan<full::FunDecl>) -> crate::model::FunNode {
    full::fun_node(w.inner)
}

} // verus!
