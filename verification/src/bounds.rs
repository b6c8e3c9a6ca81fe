//! Facts about the rules that checking relies on: the scope only ever
//! holds known types of bounded depth, so no type grows past what a
//! `usize` can count.
use vstd::prelude::*;
use crate::ast::{DeclOrInstr, Expr, FunDecl, Ident, Instr, wf_expr, wf_fun, wf_instr, wf_item, wf_items, wf_type, wf_var};
use crate::env::{BindingV, EnvV, fun_lookup, var_lookup};
use crate::model::known;
use crate::rules::{
    BlockState, Saved, add_outcome, builtin_env, decls_fold, deref_outcome, expr_result,
    for_result, fun_binding, fun_result, instr_result, item_step, items_fold, params_fold,
    param_types, restore, start, sub_outcome, var_step,
};
use crate::span::WithSpan;
use crate::types::{MAX_DECLARED_INDIRECTION, PartialType, Type, error_t, from_basic, int_t};

verus! {

/// A type that can stand in the scope: known, and of bounded depth.
pub open spec fn type_ok(t: PartialType) -> bool {
    known(t) && t.indirection_count <= MAX_DECLARED_INDIRECTION
}

pub open spec fn binding_ok(b: BindingV) -> bool {
    match b {
        BindingV::Var(t) => type_ok(t),
        BindingV::Fun(r, ps) => type_ok(r) && forall|i: int| 0 <= i < ps.len() ==> type_ok(#[trigger] ps[i]),
    }
}

/// Every name in scope stands for known types of bounded depth.
pub open spec fn env_ok(env: EnvV) -> bool {
    forall|k: usize| env.contains_key(k) ==> binding_ok(#[trigger] env[k].0)
}

pub proof fn lemma_lookup_ok(env: EnvV, x: usize)
    requires
        env_ok(env),
    ensures
        var_lookup(env, x) matches Some(t) ==> type_ok(t),
        fun_lookup(env, x) matches Some(f) ==> type_ok(f.0) && forall|i: int|
            0 <= i < f.1.len() ==> type_ok(#[trigger] f.1[i]),
{
    if env.contains_key(x) {
        assert(binding_ok(env[x].0));
    }
}

pub proof fn lemma_add_outcome(t1: PartialType, t2: PartialType, span: beans::span::Span)
    ensures
        add_outcome(t1, t2, span).0 == t1 || add_outcome(t1, t2, span).0 == t2
            || add_outcome(t1, t2, span).0 == int_t() || add_outcome(t1, t2, span).0 == error_t(),
{
}

pub proof fn lemma_sub_outcome(t1: PartialType, t2: PartialType, span: beans::span::Span)
    ensures
        sub_outcome(t1, t2, span).0 == t1 || sub_outcome(t1, t2, span).0 == int_t()
            || sub_outcome(t1, t2, span).0 == error_t(),
{
}

pub proof fn lemma_deref_outcome(t: PartialType, span: beans::span::Span)
    ensures
        deref_outcome(t, span).0.indirection_count <= t.indirection_count,
{
}

/// A well-formed expression of depth at most `b` has a type with at most
/// `MAX_DECLARED_INDIRECTION + b` stars.
pub proof fn lemma_expr_bound(e: WithSpan<Expr>, env: EnvV, names: Seq<Seq<char>>, n: nat, b: nat)
    requires
        wf_expr(e, n, b),
        env_ok(env),
    ensures
        expr_result(e, env, names).0.ty.indirection_count <= MAX_DECLARED_INDIRECTION + b,
    decreases e,
{
    reveal_with_fuel(expr_result, 1);
    let bb = (b - 1) as nat;
    match e.inner {
        Expr::Ident(x) => {
            lemma_lookup_ok(env, x);
        },
        Expr::Call { name, args } => {
            lemma_lookup_ok(env, name.inner);
        },
        Expr::Deref(x) => {
            lemma_expr_bound(*x, env, names, n, bb);
            let r = expr_result(*x, env, names).0;
            lemma_deref_outcome(r.ty, r.span);
        },
        Expr::Assign { lhs, rhs } => {
            lemma_expr_bound(*lhs, env, names, n, bb);
            lemma_expr_bound(*rhs, env, names, n, bb);
        },
        Expr::PrefixIncr(x) => {
            lemma_expr_bound(*x, env, names, n, bb);
        },
        Expr::PrefixDecr(x) => {
            lemma_expr_bound(*x, env, names, n, bb);
        },
        Expr::PostfixIncr(x) => {
            lemma_expr_bound(*x, env, names, n, bb);
        },
        Expr::PostfixDecr(x) => {
            lemma_expr_bound(*x, env, names, n, bb);
        },
        Expr::Addr(x) => {
            lemma_expr_bound(*x, env, names, n, bb);
        },
        Expr::Op { op, lhs, rhs } => {
            lemma_expr_bound(*lhs, env, names, n, bb);
            lemma_expr_bound(*rhs, env, names, n, bb);
            let l = expr_result(*lhs, env, names).0;
            let r = expr_result(*rhs, env, names).0;
            lemma_add_outcome(l.ty, r.ty, e.span);
            lemma_sub_outcome(l.ty, r.ty, e.span);
        },
        _ => {},
    }
}


pub open spec fn saved_ok(saved: Seq<Saved>) -> bool {
    forall|i: int| 0 <= i < saved.len() ==> ((#[trigger] saved[i]).old matches Some(b) ==> binding_ok(b))
}

/// The scope, and what the block saved of it, hold only known types of
/// bounded depth.
pub open spec fn state_ok(st: BlockState) -> bool {
    env_ok(st.env) && saved_ok(st.saved)
}

pub proof fn lemma_declared_ok(t: Type)
    requires
        t.indirection_count <= MAX_DECLARED_INDIRECTION,
    ensures
        type_ok(from_basic(t)),
{
}

pub proof fn lemma_fun_binding_ok(f: FunDecl)
    requires
        f.ty.inner.indirection_count <= MAX_DECLARED_INDIRECTION,
        forall|k: int| 0 <= k < f.params@.len() ==> wf_type(#[trigger] f.params@[k].0),
    ensures
        binding_ok(fun_binding(f)),
{
    let ps = param_types(f.params@);
    assert forall|i: int| 0 <= i < ps.len() implies type_ok(#[trigger] ps[i]) by {
        assert(wf_type(f.params@[i].0));
    }
}

pub proof fn lemma_insert_ok(env: EnvV, x: Ident, b: BindingV, s: Option<beans::span::Span>)
    requires
        env_ok(env),
        binding_ok(b),
    ensures
        env_ok(env.insert(x, (b, s))),
{
    let e2 = env.insert(x, (b, s));
    assert forall|k: usize| e2.contains_key(k) implies binding_ok(#[trigger] e2[k].0) by {
        if k != x {
            assert(binding_ok(env[k].0));
        }
    }
}

pub proof fn lemma_remove_ok(env: EnvV, x: Ident)
    requires
        env_ok(env),
    ensures
        env_ok(env.remove(x)),
{
    let e2 = env.remove(x);
    assert forall|k: usize| e2.contains_key(k) implies binding_ok(#[trigger] e2[k].0) by {
        assert(binding_ok(env[k].0));
    }
}

pub proof fn lemma_saved_push(saved: Seq<Saved>, env: EnvV, x: Ident, span: beans::span::Span)
    requires
        saved_ok(saved),
        env_ok(env),
    ensures
        saved_ok(saved.push(Saved { name: x, span, old: crate::env::binding_of(env, x) })),
{
    let s2 = saved.push(Saved { name: x, span, old: crate::env::binding_of(env, x) });
    assert forall|i: int| 0 <= i < s2.len() implies ((#[trigger] s2[i]).old matches Some(b) ==> binding_ok(b)) by {
        if i < saved.len() {
            assert(s2[i] == saved[i]);
        } else if env.contains_key(x) {
            assert(binding_ok(env[x].0));
        }
    }
}

pub proof fn lemma_restore_ok(env: EnvV, saved: Seq<Saved>)
    requires
        env_ok(env),
        saved_ok(saved),
    ensures
        env_ok(restore(env, saved)),
    decreases saved.len(),
{
    if saved.len() > 0 {
        let d = saved.drop_last();
        assert forall|i: int| 0 <= i < d.len() implies ((#[trigger] d[i]).old matches Some(b) ==> binding_ok(b)) by {
            assert(d[i] == saved[i]);
        }
        lemma_restore_ok(env, d);
        let e = restore(env, d);
        let s = saved.last();
        assert(s == saved[saved.len() - 1]);
        match s.old {
            Some(b) => lemma_insert_ok(e, s.name, b, Some(s.span)),
            None => lemma_remove_ok(e, s.name),
        }
    }
}

pub proof fn lemma_var_step_ok(
    st: BlockState,
    ty: WithSpan<Type>,
    name: WithSpan<Ident>,
    value: Option<WithSpan<Expr>>,
    span: beans::span::Span,
    names: Seq<Seq<char>>,
)
    requires
        state_ok(st),
        wf_type(ty),
    ensures
        state_ok(var_step(st, ty, name, value, span, names)),
{
    reveal_with_fuel(var_step, 1);
    lemma_saved_push(st.saved, st.env, name.inner, span);
    lemma_insert_ok(st.env, name.inner, BindingV::Var(from_basic(ty.inner)), Some(span));
}

pub proof fn lemma_params_ok(
    ps: Seq<(WithSpan<Type>, WithSpan<Ident>)>,
    st: BlockState,
    names: Seq<Seq<char>>,
)
    requires
        state_ok(st),
        forall|k: int| 0 <= k < ps.len() ==> wf_type(#[trigger] ps[k].0),
    ensures
        state_ok(params_fold(ps, st, names)),
    decreases ps.len(),
{
    if ps.len() > 0 {
        let d = ps.drop_last();
        assert forall|k: int| 0 <= k < d.len() implies wf_type(#[trigger] d[k].0) by {
            assert(d[k] == ps[k]);
        }
        lemma_params_ok(d, st, names);
        let p = ps.last();
        assert(wf_type(ps[ps.len() - 1].0));
        lemma_var_step_ok(
            params_fold(d, st, names),
            p.0,
            p.1,
            None,
            crate::span::span_sup(p.0.span, p.1.span),
            names,
        );
    }
}

/// Checking an instruction keeps the scope free of unknown or too deep
/// types.
pub proof fn lemma_instr_ok(
    i: WithSpan<Instr>,
    lvl: usize,
    ret: PartialType,
    env: EnvV,
    names: Seq<Seq<char>>,
    n: nat,
    b: nat,
)
    requires
        wf_instr(i, n, b),
        env_ok(env),
    ensures
        env_ok(instr_result(i, lvl, ret, env, names).2),
    decreases i, 0nat,
{
    let bb = (b - 1) as nat;
    match i.inner {
        Instr::If { cond, then_branch, else_branch } => {
            lemma_instr_ok(*then_branch, lvl, ret, env, names, n, bb);
            let env1 = instr_result(*then_branch, lvl, ret, env, names).2;
            match *else_branch {
                Some(x) => lemma_instr_ok(x, lvl, ret, env1, names, n, bb),
                None => {},
            }
        },
        Instr::While { cond, body } => {
            lemma_instr_ok(*body, (lvl + 1) as usize, ret, env, names, n, bb);
        },
        Instr::For { loop_var: None, cond, incr, body } => {
            lemma_for_ok(cond, incr@, *body, i.span, lvl, ret, env, names, n, bb);
        },
        Instr::For { loop_var: Some(decl), cond, incr, body } => {
            let st0 = start(env);
            assert(state_ok(st0));
            lemma_var_step_ok(st0, decl.inner.ty, decl.inner.name, decl.inner.value, decl.span, names);
            let st1 = var_step(st0, decl.inner.ty, decl.inner.name, decl.inner.value, decl.span, names);
            lemma_for_ok(cond, incr@, *body, i.span, lvl, ret, st1.env, names, n, bb);
            let env2 = for_result(cond, incr@, *body, i.span, lvl, ret, st1.env, names).2;
            lemma_restore_ok(env2, st1.saved);
        },
        Instr::Block(items) => {
            let st0 = start(env);
            assert(state_ok(st0));
            lemma_fold_ok(items@, lvl, ret, st0, names, n, bb);
            let st = items_fold(items@, lvl, ret, st0, names);
            lemma_restore_ok(st.env, st.saved);
        },
        _ => {},
    }
}

pub proof fn lemma_for_ok(
    cond: Option<WithSpan<Expr>>,
    incr: Seq<WithSpan<Expr>>,
    body: WithSpan<Instr>,
    span: beans::span::Span,
    lvl: usize,
    ret: PartialType,
    env: EnvV,
    names: Seq<Seq<char>>,
    n: nat,
    b: nat,
)
    requires
        wf_instr(body, n, b),
        env_ok(env),
    ensures
        env_ok(for_result(cond, incr, body, span, lvl, ret, env, names).2),
    decreases body, 1nat,
{
    lemma_instr_ok(body, (lvl + 1) as usize, ret, env, names, n, b);
}

pub proof fn lemma_fold_ok(
    items: Seq<DeclOrInstr>,
    lvl: usize,
    ret: PartialType,
    st: BlockState,
    names: Seq<Seq<char>>,
    n: nat,
    b: nat,
)
    requires
        wf_items(items, n, b),
        state_ok(st),
    ensures
        state_ok(items_fold(items, lvl, ret, st, names)),
    decreases items, 0nat,
{
    if items.len() > 0 {
        let d = items.drop_last();
        assert forall|k: int| 0 <= k < d.len() implies wf_item(#[trigger] d[k], n, b) by {
            assert(d[k] == items[k]);
        }
        lemma_fold_ok(d, lvl, ret, st, names, n, b);
        assert(wf_item(items[items.len() - 1], n, b));
        lemma_step_ok(items_fold(d, lvl, ret, st, names), items.last(), lvl, ret, names, n, b);
    }
}

pub proof fn lemma_step_ok(
    st: BlockState,
    it: DeclOrInstr,
    lvl: usize,
    ret: PartialType,
    names: Seq<Seq<char>>,
    n: nat,
    b: nat,
)
    requires
        wf_item(it, n, b),
        state_ok(st),
    ensures
        state_ok(item_step(st, it, lvl, ret, names)),
    decreases it, 0nat,
{
    match it {
        DeclOrInstr::Fun(fd) => {
            lemma_fun_ok(fd, st.env, names, n, b);
            let env1 = fun_result(fd, st.env, names).2;
            lemma_fun_binding_ok(fd.inner);
            lemma_saved_push(st.saved, st.env, fd.inner.name.inner, fd.span);
            lemma_insert_ok(env1, fd.inner.name.inner, fun_binding(fd.inner), Some(fd.span));
            let st2 = item_step(st, it, lvl, ret, names);
            assert(st2.env == env1.insert(fd.inner.name.inner, (fun_binding(fd.inner), Some(fd.span))));
            assert(env_ok(st2.env));
            assert(saved_ok(st2.saved));
        },
        DeclOrInstr::Var(vd) => {
            lemma_var_step_ok(st, vd.inner.ty, vd.inner.name, vd.inner.value, vd.span, names);
        },
        DeclOrInstr::Instr(i) => {
            lemma_instr_ok(i, lvl, ret, st.env, names, n, b);
        },
    }
}

/// Checking a function keeps the scope free of unknown or too deep types.
pub proof fn lemma_fun_ok(fd: WithSpan<FunDecl>, env: EnvV, names: Seq<Seq<char>>, n: nat, b: nat)
    requires
        wf_fun(fd, n, b),
        env_ok(env),
    ensures
        env_ok(fun_result(fd, env, names).2),
    decreases fd, 0nat,
{
    let f = fd.inner;
    lemma_fun_binding_ok(f);
    lemma_insert_ok(env, f.name.inner, fun_binding(f), Some(fd.span));
    let env1 = env.insert(f.name.inner, (fun_binding(f), Some(fd.span)));
    let st0 = start(env1);
    assert(state_ok(st0));
    lemma_params_ok(f.params@, st0, names);
    let st1 = params_fold(f.params@, st0, names);
    lemma_fold_ok(f.code.inner@, 0, from_basic(f.ty.inner), st1, names, n, (b - 1) as nat);
    let st2 = items_fold(f.code.inner@, 0, from_basic(f.ty.inner), st1, names);
    lemma_restore_ok(st2.env, st2.saved);
}

/// The node of an instruction records its span, loop depth and return
/// type as given.
pub proof fn lemma_instr_shape(
    i: WithSpan<Instr>,
    lvl: usize,
    ret: PartialType,
    env: EnvV,
    names: Seq<Seq<char>>,
)
    ensures
        instr_result(i, lvl, ret, env, names).0.span == i.span,
        instr_result(i, lvl, ret, env, names).0.loop_level == lvl,
        instr_result(i, lvl, ret, env, names).0.ret == ret,
{
    match i.inner {
        Instr::For { loop_var: None, cond, incr, body } => {
            let r = for_result(cond, incr@, *body, i.span, lvl, ret, env, names);
            assert(r.0.loop_level == lvl && r.0.ret == ret);
        },
        _ => {},
    }
}

} // verus!
