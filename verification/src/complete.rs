//! A program checked without errors is fully typed: each expression in
//! its tree is built and each type is known, so turning the tree into a
//! fully typed one succeeds and changes nothing.
use vstd::prelude::*;
use crate::ast::{MAX_DEPTH, DeclOrInstr, Expr, File, FunDecl, Ident, Instr, wf_expr, wf_fun, wf_instr, wf_item, wf_items, wf_type, wf_file};
use crate::bounds::{
    env_ok, lemma_declared_ok, lemma_fun_binding_ok, lemma_fun_ok, lemma_insert_ok,
    lemma_instr_ok, lemma_lookup_ok, lemma_params_ok, lemma_var_step_ok, state_ok, binding_ok,
};
use crate::env::{BindingV, EnvV, fun_lookup};
use crate::model::{
    ItemNode, expr_complete, file_full, fun_full, instr_full, item_full, items_full, known,
    var_full,
};
use crate::rules::{
    BlockState, args_result, builtin_env, decls_fold, expr_result, exprs_result, file_result,
    for_result, fun_binding, fun_result, instr_result, item_step, items_fold, params_fold, start,
    var_step,
};
use crate::span::WithSpan;
use crate::types::{PartialType, Type, from_basic};

verus! {

/// An expression checked without errors is built and typed throughout.
#[verifier::rlimit(60)]
#[verifier::spinoff_prover]
pub proof fn lemma_expr_complete(e: WithSpan<Expr>, env: EnvV, names: Seq<Seq<char>>)
    requires
        env_ok(env),
        expr_result(e, env, names).1.len() == 0,
    ensures
        expr_complete(expr_result(e, env, names).0),
    decreases e,
{
    reveal_with_fuel(expr_result, 1);
    match e.inner {
        Expr::Ident(x) => {
            lemma_lookup_ok(env, x);
        },
        Expr::Call { name, args } => {
            lemma_lookup_ok(env, name.inner);
            match fun_lookup(env, name.inner) {
                Some(f) => {
                    if args@.len() == f.1.len() {
                        assert(decreases_to!(e => e.inner));
                        lemma_args_complete(args@, f.1, env, names);
                    }
                },
                None => {},
            }
        },
        Expr::Deref(x) => lemma_expr_complete(*x, env, names),
        Expr::Assign { lhs, rhs } => {
            lemma_expr_complete(*lhs, env, names);
            lemma_expr_complete(*rhs, env, names);
        },
        Expr::PrefixIncr(x) => lemma_expr_complete(*x, env, names),
        Expr::PrefixDecr(x) => lemma_expr_complete(*x, env, names),
        Expr::PostfixIncr(x) => lemma_expr_complete(*x, env, names),
        Expr::PostfixDecr(x) => lemma_expr_complete(*x, env, names),
        Expr::Addr(x) => lemma_expr_complete(*x, env, names),
        Expr::Not(x) => lemma_expr_complete(*x, env, names),
        Expr::Neg(x) => lemma_expr_complete(*x, env, names),
        Expr::Pos(x) => lemma_expr_complete(*x, env, names),
        Expr::Op { op, lhs, rhs } => {
            lemma_expr_complete(*lhs, env, names);
            lemma_expr_complete(*rhs, env, names);
        },
        _ => {},
    }
}

/// The arguments of a call checked without errors are each complete.
pub proof fn lemma_args_complete(
    args: Seq<WithSpan<Expr>>,
    params: Seq<PartialType>,
    env: EnvV,
    names: Seq<Seq<char>>,
)
    requires
        env_ok(env),
        args_result(args, params, env, names).1.len() == 0,
    ensures
        args_result(args, params, env, names).0.len() == args.len(),
        forall|i: int|
            0 <= i < args.len() ==> expr_complete(
                #[trigger] args_result(args, params, env, names).0[i],
            ),
    decreases args,
{
    if args.len() > 0 {
        reveal_with_fuel(expr_result, 1);
        reveal_with_fuel(args_result, 1);
        let k = args.len() - 1;
        lemma_args_complete(args.drop_last(), params, env, names);
        lemma_expr_complete(args[k], env, names);
        let ns = args_result(args.drop_last(), params, env, names).0;
        let r = args_result(args, params, env, names).0;
        assert forall|i: int| 0 <= i < args.len() implies expr_complete(#[trigger] r[i]) by {
            if i < k {
                assert(r[i] == ns[i]);
            }
        }
    }
}

/// A list of expressions checked without errors is complete.
pub proof fn lemma_exprs_complete(es: Seq<WithSpan<Expr>>, env: EnvV, names: Seq<Seq<char>>)
    requires
        env_ok(env),
        exprs_result(es, env, names).1.len() == 0,
    ensures
        exprs_result(es, env, names).0.len() == es.len(),
        forall|i: int|
            0 <= i < es.len() ==> expr_complete(#[trigger] exprs_result(es, env, names).0[i]),
    decreases es.len(),
{
    if es.len() > 0 {
        lemma_exprs_complete(es.drop_last(), env, names);
        lemma_expr_complete(es.last(), env, names);
        let ns = exprs_result(es.drop_last(), env, names).0;
        let r = exprs_result(es, env, names).0;
        assert forall|i: int| 0 <= i < es.len() implies expr_complete(#[trigger] r[i]) by {
            if i < es.len() - 1 {
                assert(r[i] == ns[i]);
            }
        }
    }
}

/// Every item of `s` is already fully typed.
pub open spec fn out_full(s: Seq<ItemNode>) -> bool {
    forall|i: int| 0 <= i < s.len() ==> item_full(#[trigger] s[i]) == Some(s[i])
}

pub proof fn lemma_items_full(s: Seq<ItemNode>)
    requires
        out_full(s),
    ensures
        items_full(s) == Some(s),
{
    assert(forall|i: int| 0 <= i < s.len() ==> #[trigger] item_full(s[i]) is Some);
    assert(items_full(s).unwrap() =~= s);
}

pub proof fn lemma_out_push(s: Seq<ItemNode>, x: ItemNode)
    requires
        out_full(s),
        item_full(x) == Some(x),
    ensures
        out_full(s.push(x)),
{
    let t = s.push(x);
    assert forall|i: int| 0 <= i < t.len() implies item_full(#[trigger] t[i]) == Some(t[i]) by {
        if i < s.len() {
            assert(t[i] == s[i]);
        }
    }
}

/// Declaring a variable without errors adds a fully typed declaration.
pub proof fn lemma_var_step_complete(
    st: BlockState,
    ty: WithSpan<Type>,
    name: WithSpan<Ident>,
    value: Option<WithSpan<Expr>>,
    span: beans::span::Span,
    names: Seq<Seq<char>>,
)
    requires
        env_ok(st.env),
        wf_type(ty),
        out_full(st.out),
        var_step(st, ty, name, value, span, names).errs.len() == 0,
    ensures
        out_full(var_step(st, ty, name, value, span, names).out),
        st.errs.len() == 0,
{
    reveal_with_fuel(var_step, 1);
    let t = from_basic(ty.inner);
    let env1 = st.env.insert(name.inner, (BindingV::Var(t), Some(span)));
    lemma_declared_ok(ty.inner);
    lemma_insert_ok(st.env, name.inner, BindingV::Var(t), Some(span));
    match value {
        Some(x) => {
            lemma_expr_complete(x, env1, names);
        },
        None => {},
    }
    let st2 = var_step(st, ty, name, value, span, names);
    let last = st2.out.last();
    assert(st2.out == st.out.push(last));
    assert(item_full(last) == Some(last));
    lemma_out_push(st.out, last);
}

/// Declaring parameters adds fully typed declarations.
pub proof fn lemma_params_complete(
    ps: Seq<(WithSpan<Type>, WithSpan<Ident>)>,
    st: BlockState,
    names: Seq<Seq<char>>,
)
    requires
        out_full(st.out),
    ensures
        out_full(params_fold(ps, st, names).out),
    decreases ps.len(),
{
    if ps.len() > 0 {
        reveal_with_fuel(var_step, 1);
        lemma_params_complete(ps.drop_last(), st, names);
        let p = ps.last();
        let st1 = params_fold(ps.drop_last(), st, names);
        let st2 = params_fold(ps, st, names);
        let last = st2.out.last();
        assert(st2.out == st1.out.push(last));
        assert(item_full(last) == Some(last));
        lemma_out_push(st1.out, last);
    }
}

/// An instruction checked without errors is fully typed.
#[verifier::rlimit(60)]
#[verifier::spinoff_prover]
pub proof fn lemma_instr_complete(
    i: WithSpan<Instr>,
    lvl: usize,
    ret: PartialType,
    env: EnvV,
    names: Seq<Seq<char>>,
    n: nat,
    b: nat,
)
    requires
        wf_instr(i, n, b),
        env_ok(env),
        known(ret),
        instr_result(i, lvl, ret, env, names).1.len() == 0,
    ensures
        instr_full(instr_result(i, lvl, ret, env, names).0) == Some(
            instr_result(i, lvl, ret, env, names).0,
        ),
    decreases i, 0nat,
{
    let bb = (b - 1) as nat;
    match i.inner {
        Instr::ExprInstr(e) => {
            lemma_expr_complete(e, env, names);
        },
        Instr::If { cond, then_branch, else_branch } => {
            lemma_expr_complete(cond, env, names);
            lemma_instr_complete(*then_branch, lvl, ret, env, names, n, bb);
            lemma_instr_ok(*then_branch, lvl, ret, env, names, n, bb);
            let env1 = instr_result(*then_branch, lvl, ret, env, names).2;
            match *else_branch {
                Some(x) => lemma_instr_complete(x, lvl, ret, env1, names, n, bb),
                None => {},
            }
        },
        Instr::While { cond, body } => {
            lemma_expr_complete(cond, env, names);
            lemma_instr_complete(*body, (lvl + 1) as usize, ret, env, names, n, bb);
        },
        Instr::For { loop_var: None, cond, incr, body } => {
            lemma_for_complete(cond, incr@, *body, i.span, lvl, ret, env, names, n, bb);
        },
        Instr::For { loop_var: Some(decl), cond, incr, body } => {
            let st0 = start(env);
            assert(state_ok(st0));
            let st1 = var_step(st0, decl.inner.ty, decl.inner.name, decl.inner.value, decl.span, names);
            lemma_var_step_ok(st0, decl.inner.ty, decl.inner.name, decl.inner.value, decl.span, names);
            lemma_var_step_complete(st0, decl.inner.ty, decl.inner.name, decl.inner.value, decl.span, names);
            lemma_for_complete(cond, incr@, *body, i.span, lvl, ret, st1.env, names, n, bb);
            let f = for_result(cond, incr@, *body, i.span, lvl, ret, st1.env, names).0;
            assert(item_full(ItemNode::Instr(f)) == Some(ItemNode::Instr(f)));
            lemma_out_push(st1.out, ItemNode::Instr(f));
            lemma_items_full(st1.out.push(ItemNode::Instr(f)));
        },
        Instr::Block(items) => {
            let st0 = start(env);
            assert(state_ok(st0));
            assert(out_full(st0.out));
            lemma_fold_complete(items@, lvl, ret, st0, names, n, bb);
            lemma_items_full(items_fold(items@, lvl, ret, st0, names).out);
        },
        Instr::Return(Some(e)) => {
            lemma_expr_complete(e, env, names);
        },
        _ => {},
    }
}

pub proof fn lemma_for_complete(
    cond: Option<WithSpan<Expr>>,
    incr: Seq<WithSpan<Expr>>,
    body: WithSpan<Instr>,
    span: beans::span::Span,
    lvl: usize,
    ret: PartialType,
    env: EnvV,
    names: Seq<Seq<char>>,
    n: nat,
    b: nat,
)
    requires
        wf_instr(body, n, b),
        env_ok(env),
        known(ret),
        for_result(cond, incr, body, span, lvl, ret, env, names).1.len() == 0,
    ensures
        instr_full(for_result(cond, incr, body, span, lvl, ret, env, names).0) == Some(
            for_result(cond, incr, body, span, lvl, ret, env, names).0,
        ),
    decreases body, 1nat,
{
    match cond {
        Some(x) => lemma_expr_complete(x, env, names),
        None => {},
    }
    lemma_exprs_complete(incr, env, names);
    lemma_instr_complete(body, (lvl + 1) as usize, ret, env, names, n, b);
}

/// The items of a block checked without errors are fully typed.
pub proof fn lemma_fold_complete(
    items: Seq<DeclOrInstr>,
    lvl: usize,
    ret: PartialType,
    st: BlockState,
    names: Seq<Seq<char>>,
    n: nat,
    b: nat,
)
    requires
        wf_items(items, n, b),
        state_ok(st),
        known(ret),
        out_full(st.out),
        items_fold(items, lvl, ret, st, names).errs.len() == 0,
    ensures
        out_full(items_fold(items, lvl, ret, st, names).out),
    decreases items, 0nat,
{
    if items.len() > 0 {
        let d = items.drop_last();
        assert forall|k: int| 0 <= k < d.len() implies wf_item(#[trigger] d[k], n, b) by {
            assert(d[k] == items[k]);
        }
        let st1 = items_fold(d, lvl, ret, st, names);
        assert(wf_item(items[items.len() - 1], n, b));
        crate::bounds::lemma_fold_ok(d, lvl, ret, st, names, n, b);
        lemma_step_complete(st1, items.last(), lvl, ret, names, n, b);
        lemma_fold_complete(d, lvl, ret, st, names, n, b);
    }
}

/// One item checked without errors adds a fully typed item, and comes
/// after no error.
pub proof fn lemma_step_complete(
    st: BlockState,
    it: DeclOrInstr,
    lvl: usize,
    ret: PartialType,
    names: Seq<Seq<char>>,
    n: nat,
    b: nat,
)
    requires
        wf_item(it, n, b),
        state_ok(st),
        known(ret),
        item_step(st, it, lvl, ret, names).errs.len() == 0,
    ensures
        st.errs.len() == 0,
        out_full(st.out) ==> out_full(item_step(st, it, lvl, ret, names).out),
    decreases it, 0nat,
{
    match it {
        DeclOrInstr::Fun(fd) => {
            lemma_fun_complete(fd, st.env, names, n, b);
            let f = fun_result(fd, st.env, names).0;
            assert(item_full(ItemNode::Fun(f, fd.span)) == Some(ItemNode::Fun(f, fd.span)));
            if out_full(st.out) {
                lemma_out_push(st.out, ItemNode::Fun(f, fd.span));
            }
        },
        DeclOrInstr::Var(vd) => {
            if out_full(st.out) {
                lemma_var_step_complete(st, vd.inner.ty, vd.inner.name, vd.inner.value, vd.span, names);
            } else {
                reveal_with_fuel(var_step, 1);
            }
        },
        DeclOrInstr::Instr(i) => {
            lemma_instr_complete(i, lvl, ret, st.env, names, n, b);
            let x = instr_result(i, lvl, ret, st.env, names).0;
            if out_full(st.out) {
                lemma_out_push(st.out, ItemNode::Instr(x));
            }
        },
    }
}

/// A function checked without errors is fully typed.
pub proof fn lemma_fun_complete(fd: WithSpan<FunDecl>, env: EnvV, names: Seq<Seq<char>>, n: nat, b: nat)
    requires
        wf_fun(fd, n, b),
        env_ok(env),
        fun_result(fd, env, names).1.len() == 0,
    ensures
        fun_full(fun_result(fd, env, names).0) == Some(fun_result(fd, env, names).0),
    decreases fd, 0nat,
{
    let f = fd.inner;
    let rt = from_basic(f.ty.inner);
    lemma_fun_binding_ok(f);
    lemma_insert_ok(env, f.name.inner, fun_binding(f), Some(fd.span));
    let env1 = env.insert(f.name.inner, (fun_binding(f), Some(fd.span)));
    let st0 = start(env1);
    assert(state_ok(st0));
    assert(out_full(st0.out));
    lemma_params_ok(f.params@, st0, names);
    lemma_params_complete(f.params@, st0, names);
    let st1 = params_fold(f.params@, st0, names);
    assert(decreases_to!(fd => fd.inner));
    assert(decreases_to!(fd.inner => fd.inner.code));
    assert(decreases_to!(fd.inner.code => fd.inner.code.inner));
    lemma_fold_complete(f.code.inner@, 0, rt, st1, names, n, (b - 1) as nat);
    let st2 = items_fold(f.code.inner@, 0, rt, st1, names);
    lemma_params_len(f.params@, st0, names);
    lemma_fold_len(f.code.inner@, 0, rt, st1, names);
    let code = st2.out.skip(f.params@.len() as int);
    assert(out_full(code)) by {
        assert forall|i: int| 0 <= i < code.len() implies item_full(#[trigger] code[i]) == Some(code[i]) by {
            assert(code[i] == st2.out[i + f.params@.len()]);
        }
    }
    lemma_items_full(code);
    let r = fun_result(fd, env, names).0;
    assert(forall|i: int| 0 <= i < r.params.len() ==> known(#[trigger] r.params[i].ty));
}

/// Declaring parameters adds one item each.
pub proof fn lemma_params_len(
    ps: Seq<(WithSpan<Type>, WithSpan<Ident>)>,
    st: BlockState,
    names: Seq<Seq<char>>,
)
    ensures
        params_fold(ps, st, names).out.len() == st.out.len() + ps.len(),
    decreases ps.len(),
{
    if ps.len() > 0 {
        reveal_with_fuel(var_step, 1);
        lemma_params_len(ps.drop_last(), st, names);
    }
}

/// Checking the items of a block adds one item each.
pub proof fn lemma_fold_len(
    items: Seq<DeclOrInstr>,
    lvl: usize,
    ret: PartialType,
    st: BlockState,
    names: Seq<Seq<char>>,
)
    ensures
        items_fold(items, lvl, ret, st, names).out.len() == st.out.len() + items.len(),
    decreases items.len(),
{
    if items.len() > 0 {
        lemma_fold_len(items.drop_last(), lvl, ret, st, names);
        lemma_step_len(items_fold(items.drop_last(), lvl, ret, st, names), items.last(), lvl, ret, names);
    }
}

pub proof fn lemma_step_len(
    st: BlockState,
    it: DeclOrInstr,
    lvl: usize,
    ret: PartialType,
    names: Seq<Seq<char>>,
)
    ensures
        item_step(st, it, lvl, ret, names).out.len() == st.out.len() + 1,
{
    reveal_with_fuel(var_step, 1);
    match it {
        DeclOrInstr::Fun(fd) => {},
        DeclOrInstr::Var(vd) => {},
        DeclOrInstr::Instr(i) => {},
    }
}

pub proof fn lemma_builtin_ok()
    ensures
        env_ok(builtin_env()),
{
    let e = builtin_env();
    assert forall|k: usize| e.contains_key(k) implies binding_ok(#[trigger] e[k].0) by {
        if k == 0 {
            assert(e[k].0 == BindingV::Fun(crate::types::void_ptr_t(), seq![crate::types::int_t()]));
        } else {
            assert(e[k].0 == BindingV::Fun(crate::types::int_t(), seq![crate::types::int_t()]));
        }
    }
}

/// Checking top-level functions keeps the scope free of unknown or too
/// deep types, and gives one typed function per declaration.
pub proof fn lemma_decls_ok(ds: Seq<WithSpan<FunDecl>>, names: Seq<Seq<char>>, n: nat)
    requires
        forall|k: int| 0 <= k < ds.len() ==> #[trigger] wf_fun(ds[k], n, MAX_DEPTH as nat),
    ensures
        env_ok(decls_fold(ds, names).0),
        decls_fold(ds, names).1.len() == ds.len(),
    decreases ds.len(),
{
    if ds.len() == 0 {
        lemma_builtin_ok();
    } else {
        let d = ds.drop_last();
        assert forall|k: int| 0 <= k < d.len() implies #[trigger] wf_fun(d[k], n, MAX_DEPTH as nat) by {
            assert(d[k] == ds[k]);
        }
        lemma_decls_ok(d, names, n);
        assert(wf_fun(ds[ds.len() - 1], n, MAX_DEPTH as nat));
        lemma_fun_ok(ds.last(), decls_fold(d, names).0, names, n, MAX_DEPTH as nat);
    }
}

/// Top-level functions checked without errors are fully typed.
pub proof fn lemma_decls_complete(ds: Seq<WithSpan<FunDecl>>, names: Seq<Seq<char>>, n: nat)
    requires
        forall|k: int| 0 <= k < ds.len() ==> #[trigger] wf_fun(ds[k], n, MAX_DEPTH as nat),
        decls_fold(ds, names).2.len() == 0,
    ensures
        forall|i: int|
            0 <= i < decls_fold(ds, names).1.len() ==> fun_full(
                #[trigger] decls_fold(ds, names).1[i].0,
            ) == Some(decls_fold(ds, names).1[i].0),
    decreases ds.len(),
{
    if ds.len() > 0 {
        let d = ds.drop_last();
        assert forall|k: int| 0 <= k < d.len() implies #[trigger] wf_fun(d[k], n, MAX_DEPTH as nat) by {
            assert(d[k] == ds[k]);
        }
        lemma_decls_complete(d, names, n);
        lemma_decls_ok(d, names, n);
        assert(wf_fun(ds[ds.len() - 1], n, MAX_DEPTH as nat));
        lemma_fun_complete(ds.last(), decls_fold(d, names).0, names, n, MAX_DEPTH as nat);
        let o = decls_fold(d, names).1;
        let r = decls_fold(ds, names).1;
        assert forall|i: int| 0 <= i < r.len() implies fun_full(#[trigger] r[i].0) == Some(r[i].0) by {
            if i < o.len() {
                assert(r[i] == o[i]);
            }
        }
    }
}

/// A program checked without errors is fully typed: turning its typed
/// tree into a fully typed one succeeds and gives back the same tree.
pub proof fn lemma_no_errors_complete(f: File, names: Seq<Seq<char>>)
    requires
        wf_file(f, names.len()),
        file_result(f, names).1.len() == 0,
    ensures
        file_full(file_result(f, names).0) == Some(file_result(f, names).0),
{
    let ds = f.fun_decls@;
    assert forall|k: int| 0 <= k < ds.len() implies #[trigger] wf_fun(ds[k], names.len(), MAX_DEPTH as nat) by {
        assert(wf_fun(f.fun_decls@[k], names.len(), MAX_DEPTH as nat));
    }
    lemma_decls_complete(ds, names, names.len());
    let out = file_result(f, names).0;
    assert(forall|i: int| 0 <= i < out.len() ==> #[trigger] fun_full(out[i].0) is Some);
    assert(file_full(out).unwrap() =~= out);
}

} // verus!
