//! Leaving a block gives back the scope it was entered with.
use vstd::prelude::*;
use crate::ast::{DeclOrInstr, Expr, FunDecl, Ident, Instr, VarDecl};
use crate::error::{KindV, plain};
use crate::model::{ExprKind, ExprNode, InstrKind, InstrNode, ItemNode};
use crate::env::{BindingV, EnvV, binding_of};
use crate::rules::{
    expr_result, name_of, BlockState, Saved, for_result, fun_binding, fun_result, instr_result, item_step, items_fold,
    params_fold, restore, start, var_step,
};
use crate::span::WithSpan;
use crate::types::{PartialType, Type, error_t, from_basic, full_void};

verus! {

/// The two scopes bind the same names to the same things; where each was
/// declared may differ.
pub open spec fn same_bindings(a: EnvV, b: EnvV) -> bool {
    &&& a.dom() == b.dom()
    &&& forall|k: Ident| a.contains_key(k) ==> #[trigger] a[k].0 == b[k].0
}

/// The names of the parameters, in order.
pub open spec fn param_names(ps: Seq<(WithSpan<crate::types::Type>, WithSpan<Ident>)>) -> Seq<Ident> {
    Seq::new(ps.len(), |k: int| ps[k].1.inner)
}

/// The names that `items` declare directly (variables and functions), in
/// order.
pub open spec fn declared_names(items: Seq<DeclOrInstr>) -> Seq<Ident>
    decreases items.len(),
{
    if items.len() == 0 {
        Seq::empty()
    } else {
        let rest = declared_names(items.drop_last());
        match items.last() {
            DeclOrInstr::Var(v) => rest.push(v.inner.name.inner),
            DeclOrInstr::Fun(f) => rest.push(f.inner.name.inner),
            DeclOrInstr::Instr(_) => rest,
        }
    }
}

/// No block in `i` declares a name twice, and no function declared in it
/// has two parameters, or a parameter and a name its body declares, with
/// the same name.
pub open spec fn distinct_declarations(i: WithSpan<Instr>) -> bool
    decreases i, 1nat,
{
    match i.inner {
        Instr::If { cond, then_branch, else_branch } => distinct_declarations(*then_branch)
            && match *else_branch {
            Some(x) => distinct_declarations(x),
            None => true,
        },
        Instr::While { cond, body } => distinct_declarations(*body),
        Instr::For { loop_var, cond, incr, body } => distinct_declarations(*body),
        Instr::Block(items) => {
            &&& {
                proof {
                    assert(decreases_to!(i => i.inner));
                }
                items_distinct(items@)
            }
            &&& declared_names(items@).no_duplicates()
        },
        _ => true,
    }
}

/// `distinct_declarations` holds of everything inside `items`.
pub open spec fn items_distinct(items: Seq<DeclOrInstr>) -> bool
    decreases items, 0nat,
{
    forall|k: int| 0 <= k < items.len() ==> item_distinct(#[trigger] items[k])
}

pub open spec fn item_distinct(it: DeclOrInstr) -> bool
    decreases it, 0nat,
{
    match it {
        DeclOrInstr::Fun(fd) => fun_distinct(fd),
        DeclOrInstr::Var(_) => true,
        DeclOrInstr::Instr(i) => distinct_declarations(i),
    }
}

/// The parameters of `fd` and the names its body declares directly are
/// pairwise distinct, and `distinct_declarations` holds inside its body.
pub open spec fn fun_distinct(fd: WithSpan<FunDecl>) -> bool
    decreases fd, 0nat,
{
    proof {
        assert(decreases_to!(fd => fd.inner));
        assert(decreases_to!(fd.inner => fd.inner.code));
        assert(decreases_to!(fd.inner.code => fd.inner.code.inner));
    }
    &&& items_distinct(fd.inner.code.inner@)
    &&& (param_names(fd.inner.params@) + declared_names(fd.inner.code.inner@)).no_duplicates()
}

proof fn lemma_same_trans(a: EnvV, b: EnvV, c: EnvV)
    requires
        same_bindings(a, b),
        same_bindings(b, c),
    ensures
        same_bindings(a, c),
{
    assert forall|k: Ident| a.contains_key(k) implies #[trigger] a[k].0 == c[k].0 by {
        assert(b.contains_key(k));
        assert(b[k].0 == c[k].0);
    }
}

pub open spec fn saved_names(saved: Seq<Saved>) -> Seq<Ident> {
    Seq::new(saved.len(), |i: int| saved[i].name)
}

/// Restoring saved names, each saved once, sets each of them back to
/// what it was saved with and leaves every other name as it was.
proof fn lemma_restore(e: EnvV, saved: Seq<Saved>)
    requires
        saved_names(saved).no_duplicates(),
    ensures
        forall|i: int|
            0 <= i < saved.len() ==> match (#[trigger] saved[i]).old {
                Some(b) => restore(e, saved).contains_key(saved[i].name) && restore(
                    e,
                    saved,
                )[saved[i].name].0 == b,
                None => !restore(e, saved).contains_key(saved[i].name),
            },
        forall|k: Ident|
            !saved_names(saved).contains(k) ==> (#[trigger] restore(e, saved).contains_key(k)
                == e.contains_key(k) && (e.contains_key(k) ==> restore(e, saved)[k] == e[k])),
    decreases saved.len(),
{
    if saved.len() > 0 {
        let d = saved.drop_last();
        assert(saved_names(d) =~= saved_names(saved).drop_last());
        lemma_restore(e, d);
        let r = restore(e, saved);
        let rd = restore(e, d);
        let s = saved.last();
        assert forall|i: int| 0 <= i < saved.len() implies match (#[trigger] saved[i]).old {
            Some(b) => r.contains_key(saved[i].name) && r[saved[i].name].0 == b,
            None => !r.contains_key(saved[i].name),
        } by {
            if i < saved.len() - 1 {
                assert(saved[i] == d[i]);
                assert(saved_names(saved)[i] != saved_names(saved)[saved.len() - 1]);
            }
        }
        assert forall|k: Ident| !saved_names(saved).contains(k) implies (#[trigger] r.contains_key(k)
            == e.contains_key(k) && (e.contains_key(k) ==> r[k] == e[k])) by {
            assert(saved_names(saved)[saved.len() - 1] == s.name);
            if saved_names(d).contains(k) {
                let j = choose|j: int| 0 <= j < saved_names(d).len() && saved_names(d)[j] == k;
                assert(saved_names(saved)[j] == k);
            }
        }
    }
}

/// Leaving a scope in which one name `x` was declared over `env`, and in
/// which nothing else changed, gives back `env`.
proof fn lemma_restore_one(env: EnvV, env1: EnvV, env2: EnvV, saved: Seq<Saved>, x: Ident)
    requires
        saved.len() == 1,
        saved[0].name == x,
        saved[0].old == binding_of(env, x),
        forall|k: Ident| k != x ==> #[trigger] env1.contains_key(k) == env.contains_key(k),
        forall|k: Ident| k != x && env.contains_key(k) ==> #[trigger] env1[k].0 == env[k].0,
        same_bindings(env2, env1),
    ensures
        same_bindings(restore(env2, saved), env),
{
    assert(saved_names(saved) =~= seq![x]);
    lemma_restore(env2, saved);
    let r = restore(env2, saved);
    assert forall|k: Ident| #[trigger] r.contains_key(k) == env.contains_key(k) && (
    env.contains_key(k) ==> r[k].0 == env[k].0) by {
        if k == x {
            assert(saved[0].old == binding_of(env, x));
            if env.contains_key(x) {
                assert(r.contains_key(x) && r[x].0 == env[x].0);
            } else {
                assert(!r.contains_key(x));
            }
        } else {
            assert(!saved_names(saved).contains(k)) by {
                if saved_names(saved).contains(k) {
                    let j = choose|j: int| 0 <= j < saved_names(saved).len() && saved_names(saved)[j] == k;
                    assert(j == 0);
                }
            }
            assert(r.contains_key(k) == env2.contains_key(k));
            assert(env2.contains_key(k) == env1.contains_key(k));
            if env.contains_key(k) {
                assert(r[k] == env2[k]);
                assert(env2[k].0 == env1[k].0);
            }
        }
    }
    assert(r.dom() =~= env.dom());
}

/// Leaving a block whose state tracks `env` gives back `env`.
proof fn lemma_leave_block(st: BlockState, env: EnvV, declared: Seq<Ident>)
    requires
        tracks(st, env, declared),
        declared.no_duplicates(),
    ensures
        same_bindings(restore(st.env, st.saved), env),
{
    lemma_restore(st.env, st.saved);
    let r = restore(st.env, st.saved);
    assert forall|k: Ident| #[trigger] r.contains_key(k) == env.contains_key(k) && (
    env.contains_key(k) ==> r[k].0 == env[k].0) by {
        if declared.contains(k) {
            let j = choose|j: int| 0 <= j < declared.len() && declared[j] == k;
            assert(saved_names(st.saved)[j] == k);
            assert(st.saved[j].name == k);
            assert(st.saved[j].old == binding_of(env, k));
            if env.contains_key(k) {
                assert(r.contains_key(k) && r[k].0 == env[k].0);
            } else {
                assert(!r.contains_key(k));
            }
        } else {
            assert(r.contains_key(k) == st.env.contains_key(k));
            if env.contains_key(k) {
                assert(r[k] == st.env[k]);
            }
        }
    }
    assert(r.dom() =~= env.dom());
}

/// Where checking a block stands with respect to the scope `env0` it was
/// entered with: the names declared so far were saved once each, with
/// what they stood for in `env0`; every other name stands for what it
/// stood for in `env0`.
pub open spec fn tracks(st: BlockState, env0: EnvV, declared: Seq<Ident>) -> bool {
    &&& saved_names(st.saved) == declared
    &&& forall|i: int|
        0 <= i < st.saved.len() ==> (#[trigger] st.saved[i]).old == binding_of(env0, st.saved[i].name)
    &&& forall|k: Ident|
        !declared.contains(k) ==> (#[trigger] st.env.contains_key(k) == env0.contains_key(k) && (
        env0.contains_key(k) ==> st.env[k].0 == env0[k].0))
}

proof fn lemma_push_no_dups(t: Seq<Ident>, x: Ident)
    requires
        t.push(x).no_duplicates(),
    ensures
        t.no_duplicates(),
        !t.contains(x),
{
    let s = t.push(x);
    assert forall|a: int, b: int| 0 <= a < b < t.len() implies t[a] != t[b] by {
        assert(s[a] == t[a] && s[b] == t[b]);
    }
    if t.contains(x) {
        let j = choose|j: int| 0 <= j < t.len() && t[j] == x;
        assert(s[j] == s[t.len() as int]);
    }
}

proof fn lemma_prefix_no_dups(a: Seq<Ident>, b: Seq<Ident>)
    requires
        (a + b).no_duplicates(),
    ensures
        a.no_duplicates(),
{
    let s = a + b;
    assert forall|i: int, j: int| 0 <= i < j < a.len() implies a[i] != a[j] by {
        assert(s[i] == a[i] && s[j] == a[j]);
    }
}

/// Declaring a name not declared before in the block, saving what it
/// stood for, keeps track of the scope the block was entered with, when
/// every other name keeps standing for what it stood for.
proof fn lemma_push_tracks(
    st: BlockState,
    st2: BlockState,
    env0: EnvV,
    declared: Seq<Ident>,
    sv: Saved,
)
    requires
        tracks(st, env0, declared),
        !declared.contains(sv.name),
        sv.old == binding_of(st.env, sv.name),
        st2.saved == st.saved.push(sv),
        forall|k: Ident| k != sv.name ==> #[trigger] st2.env.contains_key(k) == st.env.contains_key(k),
        forall|k: Ident| k != sv.name && st.env.contains_key(k) ==> #[trigger] st2.env[k].0 == st.env[k].0,
    ensures
        tracks(st2, env0, declared.push(sv.name)),
{
    let x = sv.name;
    assert(saved_names(st2.saved) =~= declared.push(x));
    assert forall|i: int| 0 <= i < st2.saved.len() implies (#[trigger] st2.saved[i]).old
        == binding_of(env0, st2.saved[i].name) by {
        if i < st.saved.len() {
            assert(st2.saved[i] == st.saved[i]);
        } else {
            assert(st2.saved[i] == sv);
            assert(st.env.contains_key(x) == env0.contains_key(x));
        }
    }
    assert forall|k: Ident| !declared.push(x).contains(k) implies (#[trigger] st2.env.contains_key(
        k,
    ) == env0.contains_key(k) && (env0.contains_key(k) ==> st2.env[k].0 == env0[k].0)) by {
        assert(declared.push(x)[declared.len() as int] == x);
        if declared.contains(k) {
            let j = choose|j: int| 0 <= j < declared.len() && declared[j] == k;
            assert(declared.push(x)[j] == k);
        }
    }
}

/// Declaring a variable not declared before in the block keeps track of
/// the scope the block was entered with.
proof fn lemma_declare_tracks(
    st: BlockState,
    env0: EnvV,
    declared: Seq<Ident>,
    ty: WithSpan<crate::types::Type>,
    name: WithSpan<Ident>,
    value: Option<WithSpan<crate::ast::Expr>>,
    span: beans::span::Span,
    names: Seq<Seq<char>>,
)
    requires
        tracks(st, env0, declared),
        !declared.contains(name.inner),
    ensures
        tracks(var_step(st, ty, name, value, span, names), env0, declared.push(name.inner)),
{
    reveal_with_fuel(var_step, 1);
    let st2 = var_step(st, ty, name, value, span, names);
    lemma_push_tracks(st, st2, env0, declared, st2.saved.last());
}

proof fn lemma_params_tracks(
    ps: Seq<(WithSpan<crate::types::Type>, WithSpan<Ident>)>,
    st: BlockState,
    env0: EnvV,
    declared: Seq<Ident>,
    names: Seq<Seq<char>>,
)
    requires
        tracks(st, env0, declared),
        (declared + param_names(ps)).no_duplicates(),
    ensures
        tracks(params_fold(ps, st, names), env0, declared + param_names(ps)),
    decreases ps.len(),
{
    if ps.len() == 0 {
        assert(declared + param_names(ps) =~= declared);
    } else {
        let d = ps.drop_last();
        let p = ps.last();
        assert(declared + param_names(ps) =~= (declared + param_names(d)).push(p.1.inner));
        lemma_push_no_dups(declared + param_names(d), p.1.inner);
        lemma_params_tracks(d, st, env0, declared, names);
        lemma_declare_tracks(
            params_fold(d, st, names),
            env0,
            declared + param_names(d),
            p.0,
            p.1,
            None,
            crate::span::span_sup(p.0.span, p.1.span),
            names,
        );
    }
}

proof fn lemma_fold_tracks(
    items: Seq<DeclOrInstr>,
    lvl: usize,
    ret: PartialType,
    st: BlockState,
    env0: EnvV,
    declared: Seq<Ident>,
    names: Seq<Seq<char>>,
)
    requires
        items_distinct(items),
        tracks(st, env0, declared),
        (declared + declared_names(items)).no_duplicates(),
    ensures
        tracks(items_fold(items, lvl, ret, st, names), env0, declared + declared_names(items)),
    decreases items, 0nat,
{
    if items.len() == 0 {
        assert(declared + declared_names(items) =~= declared);
    } else {
        let d = items.drop_last();
        assert forall|k: int| 0 <= k < d.len() implies item_distinct(#[trigger] d[k]) by {
            assert(d[k] == items[k]);
        }
        let vd = declared + declared_names(d);
        let it = items.last();
        assert(item_distinct(items[items.len() - 1]));
        let st1 = items_fold(d, lvl, ret, st, names);
        assert(items_fold(items, lvl, ret, st, names) == item_step(st1, it, lvl, ret, names));
        match it {
            DeclOrInstr::Var(v) => {
                let x = v.inner.name.inner;
                assert(item_step(st1, it, lvl, ret, names) == var_step(
                    st1,
                    v.inner.ty,
                    v.inner.name,
                    v.inner.value,
                    v.span,
                    names,
                ));
                assert(declared + declared_names(items) =~= vd.push(x));
                lemma_push_no_dups(vd, x);
                lemma_fold_tracks(d, lvl, ret, st, env0, declared, names);
                lemma_declare_tracks(st1, env0, vd, v.inner.ty, v.inner.name, v.inner.value, v.span, names);
            },
            DeclOrInstr::Instr(i) => {
                assert(declared + declared_names(items) =~= vd);
                lemma_fold_tracks(d, lvl, ret, st, env0, declared, names);
                lemma_scope_restored(i, lvl, ret, st1.env, names);
                let st2 = item_step(st1, it, lvl, ret, names);
                let e1 = instr_result(i, lvl, ret, st1.env, names).2;
                assert(st2.saved == st1.saved);
                assert(st2.env == e1);
                assert forall|k: Ident| !vd.contains(k) implies (#[trigger] st2.env.contains_key(k)
                    == env0.contains_key(k) && (env0.contains_key(k) ==> st2.env[k].0
                    == env0[k].0)) by {
                    assert(e1.contains_key(k) == st1.env.contains_key(k));
                    if env0.contains_key(k) {
                        assert(e1[k].0 == st1.env[k].0);
                    }
                }
            },
            DeclOrInstr::Fun(fd) => {
                let x = fd.inner.name.inner;
                assert(declared + declared_names(items) =~= vd.push(x));
                lemma_push_no_dups(vd, x);
                lemma_fold_tracks(d, lvl, ret, st, env0, declared, names);
                lemma_fun_adds_itself(fd, st1.env, names);
                let st2 = item_step(st1, it, lvl, ret, names);
                let e1 = fun_result(fd, st1.env, names).2;
                let fb = (fun_binding(fd.inner), Some(fd.span));
                assert(st2.env == e1.insert(x, fb));
                assert forall|k: Ident| k != x implies #[trigger] st2.env.contains_key(k)
                    == st1.env.contains_key(k) by {
                    assert(e1.contains_key(k) == st1.env.insert(x, fb).contains_key(k));
                }
                assert forall|k: Ident| k != x && st1.env.contains_key(k) implies #[trigger] st2.env[k].0
                    == st1.env[k].0 by {
                    assert(st1.env.insert(x, fb).contains_key(k));
                    assert(e1[k].0 == st1.env.insert(x, fb)[k].0);
                }
                lemma_push_tracks(st1, st2, env0, vd, st2.saved.last());
            },
        }
    }
}

/// Checking a function declaration puts the function in scope and
/// changes nothing else, when its parameters and the names its body
/// declares are distinct and no block inside declares a name twice.
pub proof fn lemma_fun_adds_itself(fd: WithSpan<FunDecl>, env: EnvV, names: Seq<Seq<char>>)
    requires
        fun_distinct(fd),
    ensures
        same_bindings(
            fun_result(fd, env, names).2,
            env.insert(fd.inner.name.inner, (fun_binding(fd.inner), Some(fd.span))),
        ),
    decreases fd, 0nat,
{
    let f = fd.inner;
    assert(decreases_to!(fd => fd.inner));
    assert(decreases_to!(fd.inner => fd.inner.code));
    assert(decreases_to!(fd.inner.code => fd.inner.code.inner));
    let env1 = env.insert(f.name.inner, (fun_binding(f), Some(fd.span)));
    let st0 = start(env1);
    let e = Seq::<Ident>::empty();
    assert(saved_names(st0.saved) =~= e);
    assert(e + param_names(f.params@) =~= param_names(f.params@));
    lemma_prefix_no_dups(param_names(f.params@), declared_names(f.code.inner@));
    lemma_params_tracks(f.params@, st0, env1, e, names);
    let st1 = params_fold(f.params@, st0, names);
    let pn = param_names(f.params@);
    lemma_fold_tracks(f.code.inner@, 0, from_basic(f.ty.inner), st1, env1, pn, names);
    let st2 = items_fold(f.code.inner@, 0, from_basic(f.ty.inner), st1, names);
    lemma_leave_block(st2, env1, pn + declared_names(f.code.inner@));
}

/// Checking an instruction in which no block declares a name twice (and
/// no function declared inside gives a parameter the name of another
/// parameter or of a name its body declares) leaves every name standing
/// for what it stood for before: the names that its blocks and `for`
/// loops declare, functions included, leave the scope again, or get back
/// what they stood for.
pub proof fn lemma_scope_restored(
    i: WithSpan<Instr>,
    lvl: usize,
    ret: PartialType,
    env: EnvV,
    names: Seq<Seq<char>>,
)
    requires
        distinct_declarations(i),
    ensures
        same_bindings(instr_result(i, lvl, ret, env, names).2, env),
    decreases i, 1nat,
{
    match i.inner {
        Instr::If { cond, then_branch, else_branch } => {
            lemma_scope_restored(*then_branch, lvl, ret, env, names);
            let env1 = instr_result(*then_branch, lvl, ret, env, names).2;
            match *else_branch {
                Some(x) => {
                    lemma_scope_restored(x, lvl, ret, env1, names);
                    lemma_same_trans(instr_result(x, lvl, ret, env1, names).2, env1, env);
                    assert(instr_result(i, lvl, ret, env, names).2 == instr_result(
                        x,
                        lvl,
                        ret,
                        env1,
                        names,
                    ).2);
                },
                None => {
                    assert(instr_result(i, lvl, ret, env, names).2 == env1);
                },
            }
        },
        Instr::While { cond, body } => {
            lemma_scope_restored(*body, (lvl + 1) as usize, ret, env, names);
        },
        Instr::For { loop_var: None, cond, incr, body } => {
            lemma_scope_restored(*body, (lvl + 1) as usize, ret, env, names);
            assert(for_result(cond, incr@, *body, i.span, lvl, ret, env, names).2 == instr_result(
                *body,
                (lvl + 1) as usize,
                ret,
                env,
                names,
            ).2);
        },
        Instr::For { loop_var: Some(decl), cond, incr, body } => {
            reveal_with_fuel(var_step, 1);
            let st1 = var_step(
                start(env),
                decl.inner.ty,
                decl.inner.name,
                decl.inner.value,
                decl.span,
                names,
            );
            lemma_scope_restored(*body, (lvl + 1) as usize, ret, st1.env, names);
            let env2 = for_result(cond, incr@, *body, i.span, lvl, ret, st1.env, names).2;
            assert(env2 == instr_result(*body, (lvl + 1) as usize, ret, st1.env, names).2);
            let x = decl.inner.name.inner;
            assert(st1.saved.len() == 1);
            assert(st1.saved[0].name == x);
            assert(saved_names(st1.saved) =~= seq![x]);
            lemma_restore_one(env, st1.env, env2, st1.saved, x);
            let r = restore(env2, st1.saved);
            assert(r.dom() =~= env.dom());
        },
        Instr::Block(items) => {
            let e = Seq::<Ident>::empty();
            assert(saved_names(start(env).saved) =~= e);
            assert(e + declared_names(items@) =~= declared_names(items@));
            lemma_fold_tracks(items@, lvl, ret, start(env), env, e, names);
            let st = items_fold(items@, lvl, ret, start(env), names);
            lemma_leave_block(st, env, declared_names(items@));
        },
        _ => {},
    }
}

/// A `for` loop that declares its variable is checked exactly as the
/// block made of that declaration followed by the same loop without it:
/// the variable is in scope in the loop and leaves the scope after it.
pub proof fn lemma_for_declaration_is_a_block(
    d: WithSpan<VarDecl>,
    cond: Option<WithSpan<Expr>>,
    incr: Vec<WithSpan<Expr>>,
    body: Box<WithSpan<Instr>>,
    span: beans::span::Span,
    items: Vec<DeclOrInstr>,
    lvl: usize,
    ret: PartialType,
    env: EnvV,
    names: Seq<Seq<char>>,
)
    requires
        items@ == seq![
            DeclOrInstr::Var(d),
            DeclOrInstr::Instr(
                WithSpan { inner: Instr::For { loop_var: None, cond, incr, body }, span },
            ),
        ],
    ensures
        instr_result(
            WithSpan { inner: Instr::For { loop_var: Some(d), cond, incr, body }, span },
            lvl,
            ret,
            env,
            names,
        ) == instr_result(WithSpan { inner: Instr::Block(items), span }, lvl, ret, env, names),
{
    let s = items@;
    let inner = WithSpan { inner: Instr::For { loop_var: None, cond, incr, body }, span };
    assert(s.drop_last() =~= seq![DeclOrInstr::Var(d)]);
    assert(s.drop_last().drop_last() =~= Seq::<DeclOrInstr>::empty());
    let st0 = start(env);
    assert(items_fold(s.drop_last().drop_last(), lvl, ret, st0, names) == st0);
    let st1 = item_step(st0, DeclOrInstr::Var(d), lvl, ret, names);
    assert(items_fold(s.drop_last(), lvl, ret, st0, names) == st1);
    assert(st1 == var_step(st0, d.inner.ty, d.inner.name, d.inner.value, d.span, names));
    let st2 = item_step(st1, DeclOrInstr::Instr(inner), lvl, ret, names);
    assert(items_fold(s, lvl, ret, st0, names) == st2);
    assert(instr_result(inner, lvl, ret, st1.env, names) == for_result(
        cond,
        incr@,
        *body,
        span,
        lvl,
        ret,
        st1.env,
        names,
    ));
}

/// Using name `x` as an instruction of its own.
pub open spec fn use_of(x: Ident, use_span: beans::span::Span, instr_span: beans::span::Span) -> DeclOrInstr {
    DeclOrInstr::Instr(
        WithSpan {
            inner: Instr::ExprInstr(WithSpan { inner: Expr::Ident(x), span: use_span }),
            span: instr_span,
        },
    )
}

/// Declaring a variable `x` of type `ty` without an initial value.
pub open spec fn declaration_of(x: Ident, ty: WithSpan<Type>, name_span: beans::span::Span, span: beans::span::Span) -> DeclOrInstr {
    DeclOrInstr::Var(
        WithSpan {
            inner: VarDecl { ty, name: WithSpan { inner: x, span: name_span }, value: None },
            span,
        },
    )
}

/// The typed item of a use of `x` of type `t`.
pub open spec fn typed_use(
    x: Ident,
    t: PartialType,
    use_span: beans::span::Span,
    instr_span: beans::span::Span,
    lvl: usize,
    ret: PartialType,
) -> ItemNode {
    ItemNode::Instr(
        InstrNode {
            instr: InstrKind::ExprInstr(
                ExprNode { inner: Some(ExprKind::Ident(x)), ty: t, span: use_span },
            ),
            span: instr_span,
            loop_level: lvl,
            ret,
        },
    )
}

/// In a block, a declaration is in scope for the items after it and not
/// for those before it: of a name that was not in scope, a use before its
/// declaration is an unknown name of the error type, and a use after it
/// has the declared type and no error.
pub proof fn lemma_declaration_visible_after(
    x: Ident,
    ty: WithSpan<Type>,
    name_span: beans::span::Span,
    decl_span: beans::span::Span,
    use_span: beans::span::Span,
    instr_span: beans::span::Span,
    lvl: usize,
    ret: PartialType,
    env: EnvV,
    names: Seq<Seq<char>>,
)
    requires
        !env.contains_key(x),
        ty.inner != full_void(),
    ensures
        ({
            let b = items_fold(
                seq![use_of(x, use_span, instr_span), declaration_of(x, ty, name_span, decl_span)],
                lvl,
                ret,
                start(env),
                names,
            );
            &&& b.out[0] == typed_use(x, error_t(), use_span, instr_span, lvl, ret)
            &&& b.errs == seq![
                plain(KindV::NameError { name: name_of(names, x), span: use_span }),
            ]
        }),
        ({
            let b = items_fold(
                seq![declaration_of(x, ty, name_span, decl_span), use_of(x, use_span, instr_span)],
                lvl,
                ret,
                start(env),
                names,
            );
            &&& b.out[1] == typed_use(x, from_basic(ty.inner), use_span, instr_span, lvl, ret)
            &&& b.errs.len() == 0
        }),
{
    let u = use_of(x, use_span, instr_span);
    let dv = declaration_of(x, ty, name_span, decl_span);
    let st0 = start(env);
    let ne = seq![plain(KindV::NameError { name: name_of(names, x), span: use_span })];
    // Use, then declaration.
    let s1 = seq![u, dv];
    assert(s1.drop_last() =~= seq![u]);
    assert(s1.drop_last().drop_last() =~= Seq::<DeclOrInstr>::empty());
    assert(items_fold(s1.drop_last().drop_last(), lvl, ret, st0, names) == st0);
    assert(s1.drop_last().last() == u);
    lemma_use_step(st0, x, use_span, instr_span, lvl, ret, names);
    let a1 = item_step(st0, u, lvl, ret, names);
    assert(items_fold(s1.drop_last(), lvl, ret, st0, names) == a1);
    lemma_declaration_step(a1, x, ty, name_span, decl_span, lvl, ret, names);
    let a2 = item_step(a1, dv, lvl, ret, names);
    assert(items_fold(s1, lvl, ret, st0, names) == a2);
    assert(a2.out[0] == a1.out[0]);
    assert(a1.errs =~= ne);
    // Declaration, then use.
    let s2 = seq![dv, u];
    assert(s2.drop_last() =~= seq![dv]);
    assert(s2.drop_last().drop_last() =~= Seq::<DeclOrInstr>::empty());
    assert(items_fold(s2.drop_last().drop_last(), lvl, ret, st0, names) == st0);
    assert(s2.drop_last().last() == dv);
    lemma_declaration_step(st0, x, ty, name_span, decl_span, lvl, ret, names);
    let c1 = item_step(st0, dv, lvl, ret, names);
    assert(items_fold(s2.drop_last(), lvl, ret, st0, names) == c1);
    lemma_use_step(c1, x, use_span, instr_span, lvl, ret, names);
    let c2 = item_step(c1, u, lvl, ret, names);
    assert(items_fold(s2, lvl, ret, st0, names) == c2);
    assert(crate::env::var_lookup(c1.env, x) == Some(from_basic(ty.inner)));
}

/// A use of `x` as an instruction: typed with the variable's type and no
/// error when `x` is a variable in scope, else typed with the error type
/// and reported as an unknown name.
proof fn lemma_use_step(
    st: BlockState,
    x: Ident,
    use_span: beans::span::Span,
    instr_span: beans::span::Span,
    lvl: usize,
    ret: PartialType,
    names: Seq<Seq<char>>,
)
    ensures
        ({
            let r = item_step(st, use_of(x, use_span, instr_span), lvl, ret, names);
            &&& r.env == st.env
            &&& r.saved == st.saved
            &&& match crate::env::var_lookup(st.env, x) {
                Some(t) => r.out == st.out.push(typed_use(x, t, use_span, instr_span, lvl, ret))
                    && r.errs == st.errs,
                None => r.out == st.out.push(typed_use(x, error_t(), use_span, instr_span, lvl, ret))
                    && r.errs == st.errs + seq![
                    plain(KindV::NameError { name: name_of(names, x), span: use_span }),
                ],
            }
        }),
{
    reveal_with_fuel(expr_result, 1);
    let ue = WithSpan { inner: Expr::Ident(x), span: use_span };
    let ui = WithSpan { inner: Instr::ExprInstr(ue), span: instr_span };
    let r = item_step(st, use_of(x, use_span, instr_span), lvl, ret, names);
    assert(r.errs == st.errs + instr_result(ui, lvl, ret, st.env, names).1);
    match crate::env::var_lookup(st.env, x) {
        Some(t) => {
            assert(instr_result(ui, lvl, ret, st.env, names).1 =~= Seq::<crate::error::ErrorV>::empty());
            assert(r.errs =~= st.errs);
        },
        None => {},
    }
}

/// Declaring `x`, not yet declared in the block, with a type other than
/// `void` and no initial value: no error, and `x` is a variable of that
/// type from then on.
proof fn lemma_declaration_step(
    st: BlockState,
    x: Ident,
    ty: WithSpan<Type>,
    name_span: beans::span::Span,
    decl_span: beans::span::Span,
    lvl: usize,
    ret: PartialType,
    names: Seq<Seq<char>>,
)
    requires
        ty.inner != full_void(),
        crate::rules::first_def(st.saved, x) is None,
    ensures
        ({
            let r = item_step(st, declaration_of(x, ty, name_span, decl_span), lvl, ret, names);
            &&& r.env == st.env.insert(
                x,
                (BindingV::Var(from_basic(ty.inner)), Some(decl_span)),
            )
            &&& r.errs == st.errs
            &&& r.out.len() == st.out.len() + 1
            &&& forall|i: int| 0 <= i < st.out.len() ==> #[trigger] r.out[i] == st.out[i]
        }),
{
    reveal_with_fuel(var_step, 1);
    let r = item_step(st, declaration_of(x, ty, name_span, decl_span), lvl, ret, names);
    assert(r.errs =~= st.errs);
}

} // verus!
