//! Checking instructions, blocks, functions and whole programs.
use vstd::prelude::*;
use beans::span::Span;
use crate::annot::TypedInstr;
use crate::ast::{
    DeclOrInstr, Expr, File, FunDecl, Ident, Instr, MAX_DEPTH, wf_file, wf_expr, wf_fun, wf_instr, wf_item,
    wf_items, wf_type, wf_var,
};
use crate::bounds::{
    binding_ok, env_ok, lemma_fold_ok, lemma_for_ok, lemma_fun_binding_ok, lemma_fun_ok,
    lemma_instr_ok, lemma_instr_shape, lemma_params_ok, lemma_restore_ok, lemma_step_ok,
    lemma_var_step_ok, saved_ok, state_ok,
};
use crate::check::{clone_opt_span, get_fun, name_string, names_view, report, type_expr};
use crate::complete::{lemma_builtin_ok, lemma_no_errors_complete};
use crate::model::FileNode;
use crate::env::{Binding, BindingV, Environment};
use crate::full;
use crate::error::{Error, ErrorKind, Note, errors_view};
use crate::partial::{self, PExpr, PInstr, expr_node, exprs_node, instr_node, items_node};
use crate::rules::{
    builtin_env, decls_fold, file_result, first_main, main_errs, main_name, name_of, exprs_result, cond_errs, void_errs, BlockState, Saved, first_def, for_result, fun_binding, fun_result, instr_result, item_step,
    items_fold, params_fold, redef_errs, restore, start, var_step,
};
use crate::span::{WithSpan, sup};
use crate::types::{PartialBasisType, PartialType, Type, from_basic};

verus! {

/// A name declared in a block, and what it stood for before.
pub type SavedBinding = (WithSpan<Ident>, Option<Binding>);

pub open spec fn saved_view(s: Seq<SavedBinding>) -> Seq<Saved> {
    Seq::new(
        s.len(),
        |i: int|
            Saved {
                name: s[i].0.inner,
                span: s[i].0.span,
                old: match s[i].1 {
                    Some(b) => Some(b@),
                    None => None,
                },
            },
    )
}

pub open spec fn state_view(
    env: Environment,
    saved: Seq<SavedBinding>,
    out: Seq<partial::DeclOrInstr>,
    errs: Seq<Error>,
) -> BlockState {
    BlockState {
        env: env@,
        saved: saved_view(saved),
        out: items_node(out),
        errs: errors_view(errs),
    }
}

fn append_errors(errs: &mut Vec<Error>, more: Vec<Error>)
    ensures
        errors_view(final(errs)@) == errors_view(old(errs)@) + errors_view(more@),
{
    let mut more = more;
    let ghost m = more@;
    errs.append(&mut more);
    assert(errors_view(errs@) =~= errors_view(old(errs)@) + errors_view(m));
}

fn copy_types(v: &Vec<PartialType>) -> (r: Vec<PartialType>)
    ensures
        r@ == v@,
{
    let mut r: Vec<PartialType> = Vec::new();
    let mut i: usize = 0;
    while i < v.len()
        invariant
            i <= v@.len(),
            r@ == v@.take(i as int),
        decreases v@.len() - i,
    {
        r.push(v[i]);
        proof {
            assert(v@.take(i + 1) =~= v@.take(i as int).push(v@[i as int]));
        }
        i = i + 1;
    }
    proof {
        assert(v@.take(v@.len() as int) =~= v@);
    }
    r
}

fn copy_binding(b: &Binding) -> (r: Binding)
    ensures
        r@ == b@,
{
    match b {
        Binding::Var(t) => Binding::Var(*t),
        Binding::Fun(f) => Binding::Fun((f.0, copy_types(&f.1))),
    }
}

/// Where `x` was first declared among the saved names, if it was.
fn first_definition(saved: &Vec<SavedBinding>, x: Ident) -> (r: Option<Span>)
    ensures
        r == first_def(saved_view(saved@), x),
{
    let ghost sv = saved_view(saved@);
    let mut i: usize = 0;
    assert(sv.subrange(0, sv.len() as int) =~= sv);
    while i < saved.len()
        invariant
            i <= saved@.len(),
            sv == saved_view(saved@),
            first_def(sv, x) == first_def(sv.subrange(i as int, sv.len() as int), x),
        decreases saved@.len() - i,
    {
        assert(sv.subrange(i as int, sv.len() as int)[0] == sv[i as int]);
        if saved[i].0.inner == x {
            return Some(saved[i].0.span.clone());
        }
        assert(sv.subrange(i as int, sv.len() as int).drop_first() =~= sv.subrange(
            i + 1,
            sv.len() as int,
        ));
        i = i + 1;
    }
    assert(sv.subrange(i as int, sv.len() as int).len() == 0);
    None
}

/// Reports a second declaration of `x` in the same block.
fn check_redefinition(
    saved: &Vec<SavedBinding>,
    x: Ident,
    span: &Span,
    names: &[String],
    errs: &mut Vec<Error>,
)
    requires
        x < names@.len(),
    ensures
        errors_view(final(errs)@) == errors_view(old(errs)@) + redef_errs(
            saved_view(saved@),
            x,
            *span,
            names_view(names@),
        ),
{
    match first_definition(saved, x) {
        Some(first) => {
            report(
                errs,
                Error::new(
                    ErrorKind::SymbolDefinedTwice {
                        first_definition: first,
                        second_definition: span.clone(),
                        name: name_string(names, x),
                    },
                ),
            );
        },
        None => {
            assert(errors_view(errs@) =~= errors_view(old(errs)@) + Seq::<
                crate::error::ErrorV,
            >::empty());
        },
    }
}

/// Gives each name declared in a block back what it stood for before.
fn restore_bindings(env: &mut Environment, saved: &Vec<SavedBinding>)
    ensures
        final(env)@ == restore(old(env)@, saved_view(saved@)),
{
    let ghost sv = saved_view(saved@);
    let ghost env0 = env@;
    let mut i: usize = 0;
    while i < saved.len()
        invariant
            i <= saved@.len(),
            sv == saved_view(saved@),
            env@ == restore(env0, sv.take(i as int)),
        decreases saved@.len() - i,
    {
        assert(sv.take(i + 1).drop_last() =~= sv.take(i as int));
        assert(sv.take(i + 1).last() == sv[i as int]);
        let name = &saved[i].0;
        match &saved[i].1 {
            Some(b) => {
                env.insert(name.inner, (copy_binding(b), Some(name.span.clone())));
            },
            None => {
                env.remove(name.inner);
            },
        }
        i = i + 1;
    }
    assert(sv.take(saved@.len() as int) =~= sv);
}

/// Declares a variable in the current block (see `var_step`).
fn var_item(
    ty: &WithSpan<Type>,
    name: &WithSpan<Ident>,
    value: &Option<WithSpan<Expr>>,
    span: &Span,
    env: &mut Environment,
    saved: &mut Vec<SavedBinding>,
    out: &mut Vec<partial::DeclOrInstr>,
    names: &[String],
    errs: &mut Vec<Error>,
    Ghost(b): Ghost<nat>,
)
    requires
        wf_type(*ty),
        name.inner < names@.len(),
        *value matches Some(x) ==> wf_expr(x, names@.len() as nat, b),
        b <= MAX_DEPTH,
        state_ok(state_view(*old(env), old(saved)@, old(out)@, old(errs)@)),
    ensures
        state_view(*final(env), final(saved)@, final(out)@, final(errs)@) == var_step(
            state_view(*old(env), old(saved)@, old(out)@, old(errs)@),
            *ty,
            *name,
            *value,
            *span,
            names_view(names@),
        ),
        state_ok(state_view(*final(env), final(saved)@, final(out)@, final(errs)@)),
        final(out)@.len() == old(out)@.len() + 1,
{
    proof {
        reveal_with_fuel(var_step, 1);
    }
    let ghost st = state_view(*env, saved@, out@, errs@);
    let ghost nv = names_view(names@);
    proof {
        lemma_var_step_ok(st, *ty, *name, *value, *span, nv);
    }
    if ty.inner == Type::void_type() {
        report(
            errs,
            Error::new(ErrorKind::VoidVariable { span: span.clone(), name: name_string(names, name.inner) }),
        );
    }
    check_redefinition(saved, name.inner, span, names, errs);
    let old_binding = match env.remove(name.inner) {
        Some(x) => Some(x.0),
        None => None,
    };
    saved.push((WithSpan { inner: name.inner, span: span.clone() }, old_binding));
    let t = ty.inner.from_basic();
    env.insert(name.inner, (Binding::Var(t), Some(span.clone())));
    assert(env@ =~= st.env.insert(name.inner, (BindingV::Var(t), Some(*span))));
    let typed_value = match value {
        Some(v) => {
            let val = type_expr(v, env, names, errs, Ghost(b));
            if !PartialBasisType::is_eq(&val.ty, &t) {
                report(
                    errs,
                    Error::new(
                        ErrorKind::VariableTypeMismatch {
                            expected_type: t,
                            found_type: val.ty,
                            span: val.span.clone(),
                            definition_span: sup(&ty.span, &name.span),
                            variable_name: name_string(names, name.inner),
                        },
                    ),
                );
            }
            Some(val)
        },
        None => None,
    };
    out.push(
        partial::DeclOrInstr::Var(
            WithSpan {
                inner: partial::VarDecl {
                    ty: WithSpan { inner: t, span: ty.span.clone() },
                    name: WithSpan { inner: name.inner, span: name.span.clone() },
                    value: typed_value,
                },
                span: span.clone(),
            },
        ),
    );
    proof {
        let st2 = var_step(st, *ty, *name, *value, *span, nv);
        assert(env@ == st2.env);
        assert(errors_view(errs@) == st2.errs);
        assert(items_node(out@) == st2.out);
        assert(saved_view(saved@) =~= st.saved.push(
            Saved { name: name.inner, span: *span, old: crate::env::binding_of(st.env, name.inner) },
        ));
        assert(items_node(out@) =~= st.out.push(items_node(out@).last()));
    }
}


/// Checks the expressions of a list one after the other.
fn type_exprs(
    es: &Vec<WithSpan<Expr>>,
    env: &Environment,
    names: &[String],
    errs: &mut Vec<Error>,
    Ghost(b): Ghost<nat>,
) -> (r: Vec<PExpr>)
    requires
        forall|k: int| 0 <= k < es@.len() ==> wf_expr(#[trigger] es@[k], names@.len() as nat, b),
        b <= MAX_DEPTH,
        env_ok(env@),
    ensures
        exprs_node(r@) == exprs_result(es@, env@, names_view(names@)).0,
        errors_view(final(errs)@) == errors_view(old(errs)@) + exprs_result(
            es@,
            env@,
            names_view(names@),
        ).1,
{
    let ghost nv = names_view(names@);
    let ghost start = errors_view(errs@);
    let mut r: Vec<PExpr> = Vec::new();
    let mut i: usize = 0;
    while i < es.len()
        invariant
            i <= es@.len(),
            forall|k: int| 0 <= k < es@.len() ==> wf_expr(#[trigger] es@[k], names@.len() as nat, b),
            b <= MAX_DEPTH,
            env_ok(env@),
            nv == names_view(names@),
            exprs_node(r@) == exprs_result(es@.take(i as int), env@, nv).0,
            errors_view(errs@) == start + exprs_result(es@.take(i as int), env@, nv).1,
        decreases es@.len() - i,
    {
        assert(wf_expr(es@[i as int], names@.len() as nat, b));
        let x = type_expr(&es[i], env, names, errs, Ghost(b));
        r.push(x);
        proof {
            assert(es@.take(i + 1).drop_last() =~= es@.take(i as int));
            assert(es@.take(i + 1).last() == es@[i as int]);
            assert(exprs_node(r@) =~= exprs_node(r@.drop_last()).push(expr_node(x)));
        }
        i = i + 1;
    }
    assert(es@.take(es@.len() as int) =~= es@);
    r
}

/// Checks a `for` loop without a declaration (see `for_result`).
fn typecheck_for(
    cond: &Option<WithSpan<Expr>>,
    incr: &Vec<WithSpan<Expr>>,
    body: &WithSpan<Instr>,
    span: &Span,
    loop_level: usize,
    expected_return_type: PartialType,
    env: &mut Environment,
    names: &[String],
    errs: &mut Vec<Error>,
    Ghost(b): Ghost<nat>,
) -> (r: PInstr)
    requires
        *cond matches Some(c) ==> wf_expr(c, names@.len() as nat, b),
        forall|k: int| 0 <= k < incr@.len() ==> wf_expr(#[trigger] incr@[k], names@.len() as nat, b),
        wf_instr(*body, names@.len() as nat, b),
        loop_level + 1 + b <= MAX_DEPTH,
        env_ok(old(env)@),
    ensures
        instr_node(r) == for_result(
            *cond,
            incr@,
            *body,
            *span,
            loop_level,
            expected_return_type,
            old(env)@,
            names_view(names@),
        ).0,
        errors_view(final(errs)@) == errors_view(old(errs)@) + for_result(
            *cond,
            incr@,
            *body,
            *span,
            loop_level,
            expected_return_type,
            old(env)@,
            names_view(names@),
        ).1,
        final(env)@ == for_result(
            *cond,
            incr@,
            *body,
            *span,
            loop_level,
            expected_return_type,
            old(env)@,
            names_view(names@),
        ).2,
        env_ok(final(env)@),
    decreases body, 3nat,
{
    let ghost nv = names_view(names@);
    proof {
        lemma_for_ok(*cond, incr@, *body, *span, loop_level, expected_return_type, env@, nv, names@.len() as nat, b);
    }
    let typed_cond = match cond {
        Some(c) => Some(type_expr(c, env, names, errs, Ghost(b))),
        None => None,
    };
    let typed_incr = type_exprs(incr, env, names, errs, Ghost(b));
    let typed_body = typecheck_instr(
        body,
        loop_level + 1,
        expected_return_type,
        env,
        names,
        errs,
        Ghost(b),
    );
    proof {
        lemma_instr_shape(*body, (loop_level + 1) as usize, expected_return_type, old(env)@, nv);
    }
    match &typed_cond {
        Some(c) => {
            if c.ty.is_void() {
                report(errs, Error::new(ErrorKind::VoidExpression { span: c.span.clone() }));
            }
        },
        None => {},
    }
    if typed_body.expected_return_type != expected_return_type {
        report(
            errs,
            Error::new(
                ErrorKind::TypeMismatch {
                    expected_type: expected_return_type,
                    found_type: typed_body.expected_return_type,
                    span: typed_body.span.clone(),
                },
            ).add_help(Note::ShouldNotHappen),
        );
    }
    TypedInstr {
        instr: partial::Instr::For {
            loop_var: None,
            cond: typed_cond,
            incr: typed_incr,
            body: Box::new(typed_body),
        },
        span: span.clone(),
        loop_level,
        expected_return_type,
    }
}

/// Checks an instruction at loop depth `loop_level` in a function
/// returning `expected_return_type` (see `instr_result`).
pub(crate) fn typecheck_instr(
    instr: &WithSpan<Instr>,
    loop_level: usize,
    expected_return_type: PartialType,
    env: &mut Environment,
    names: &[String],
    errs: &mut Vec<Error>,
    Ghost(b): Ghost<nat>,
) -> (r: PInstr)
    requires
        wf_instr(*instr, names@.len() as nat, b),
        loop_level + b <= MAX_DEPTH,
        env_ok(old(env)@),
    ensures
        instr_node(r) == instr_result(
            *instr,
            loop_level,
            expected_return_type,
            old(env)@,
            names_view(names@),
        ).0,
        errors_view(final(errs)@) == errors_view(old(errs)@) + instr_result(
            *instr,
            loop_level,
            expected_return_type,
            old(env)@,
            names_view(names@),
        ).1,
        final(env)@ == instr_result(
            *instr,
            loop_level,
            expected_return_type,
            old(env)@,
            names_view(names@),
        ).2,
        env_ok(final(env)@),
    decreases instr, 2nat,
{
    let ghost nv = names_view(names@);
    let ghost n = names@.len() as nat;
    let ghost bb = (b - 1) as nat;
    proof {
        lemma_instr_ok(*instr, loop_level, expected_return_type, env@, nv, n, b);
    }
    match &instr.inner {
        Instr::EmptyInstr => TypedInstr {
            instr: partial::Instr::EmptyInstr,
            span: instr.span.clone(),
            loop_level,
            expected_return_type,
        },
        Instr::ExprInstr(e) => TypedInstr {
            instr: partial::Instr::ExprInstr(type_expr(e, env, names, errs, Ghost(bb))),
            span: instr.span.clone(),
            loop_level,
            expected_return_type,
        },
        Instr::If { .. } => typecheck_if(instr, loop_level, expected_return_type, env, names, errs, Ghost(b)),
        Instr::While { .. } => typecheck_while(instr, loop_level, expected_return_type, env, names, errs, Ghost(b)),
        Instr::For { loop_var: None, cond, incr, body } => typecheck_for(
            cond,
            incr,
            body,
            &instr.span,
            loop_level,
            expected_return_type,
            env,
            names,
            errs,
            Ghost(bb),
        ),
        Instr::For { loop_var: Some(_), .. } => typecheck_for_decl(instr, loop_level, expected_return_type, env, names, errs, Ghost(b)),
        Instr::Block(_) => typecheck_block(instr, loop_level, expected_return_type, env, names, errs, Ghost(b)),
        Instr::Return(None) => {
            if !expected_return_type.is_void() {
                report(
                    errs,
                    Error::new(
                        ErrorKind::TypeMismatch {
                            span: instr.span.clone(),
                            expected_type: expected_return_type,
                            found_type: PartialType::void_type(),
                        },
                    ).reason(Note::ReturnNeedsVoid).add_help(Note::AddReturnValue(expected_return_type)),
                );
            }
            TypedInstr {
                instr: partial::Instr::Return(None),
                span: instr.span.clone(),
                loop_level,
                expected_return_type,
            }
        },
        Instr::Return(Some(e)) => {
            let e = type_expr(e, env, names, errs, Ghost(bb));
            if !PartialBasisType::is_eq(&e.ty, &expected_return_type) {
                report(
                    errs,
                    Error::new(
                        ErrorKind::TypeMismatch {
                            span: instr.span.clone(),
                            expected_type: expected_return_type,
                            found_type: e.ty,
                        },
                    ),
                );
            }
            TypedInstr {
                instr: partial::Instr::Return(Some(e)),
                span: instr.span.clone(),
                loop_level,
                expected_return_type,
            }
        },
        Instr::Break | Instr::Continue => {
            if loop_level == 0 {
                report(
                    errs,
                    Error::new(ErrorKind::BreakContinueOutsideLoop { span: instr.span.clone() }),
                );
            }
            TypedInstr {
                instr: partial::Instr::Break,
                span: instr.span.clone(),
                loop_level,
                expected_return_type,
            }
        },
    }
}

/// Checks `if`: the condition may not be `void`; then each branch.
fn typecheck_if(
    instr: &WithSpan<Instr>,
    loop_level: usize,
    expected_return_type: PartialType,
    env: &mut Environment,
    names: &[String],
    errs: &mut Vec<Error>,
    Ghost(b): Ghost<nat>,
) -> (r: PInstr)
    requires
        instr.inner is If,
        wf_instr(*instr, names@.len() as nat, b),
        loop_level + b <= MAX_DEPTH,
        env_ok(old(env)@),
    ensures
        instr_node(r) == instr_result(
            *instr,
            loop_level,
            expected_return_type,
            old(env)@,
            names_view(names@),
        ).0,
        errors_view(final(errs)@) == errors_view(old(errs)@) + instr_result(
            *instr,
            loop_level,
            expected_return_type,
            old(env)@,
            names_view(names@),
        ).1,
        final(env)@ == instr_result(
            *instr,
            loop_level,
            expected_return_type,
            old(env)@,
            names_view(names@),
        ).2,
        env_ok(final(env)@),
    decreases instr, 1nat,
{
    let ghost nv = names_view(names@);
    let ghost n = names@.len() as nat;
    let ghost bb = (b - 1) as nat;
    proof {
        lemma_instr_ok(*instr, loop_level, expected_return_type, env@, nv, n, b);
    }
    match &instr.inner {
        Instr::If { cond, then_branch, else_branch } => {
            let cond = type_expr(cond, env, names, errs, Ghost(bb));
            let ghost env0 = env@;
            let then_branch = typecheck_instr(
                then_branch,
                loop_level,
                expected_return_type,
                env,
                names,
                errs,
                Ghost(bb),
            );
            proof {
                lemma_instr_shape(*instr.inner->If_then_branch, loop_level, expected_return_type, env0, nv);
            }
            let ghost env1 = env@;
            let else_branch = match &**else_branch {
                Some(x) => {
                    let t = typecheck_instr(x, loop_level, expected_return_type, env, names, errs, Ghost(bb));
                    proof {
                        lemma_instr_shape(*x, loop_level, expected_return_type, env1, nv);
                    }
                    Some(t)
                },
                None => None,
            };
            if cond.ty.is_void() {
                report(errs, Error::new(ErrorKind::VoidExpression { span: cond.span.clone() }));
            }
            if then_branch.expected_return_type != expected_return_type {
                report(
                    errs,
                    Error::new(
                        ErrorKind::TypeMismatch {
                            span: then_branch.span.clone(),
                            expected_type: expected_return_type,
                            found_type: then_branch.expected_return_type,
                        },
                    ).add_help(Note::ShouldNotHappen),
                );
            }
            match &else_branch {
                Some(e) => {
                    if e.expected_return_type != expected_return_type {
                        report(
                            errs,
                            Error::new(
                                ErrorKind::TypeMismatch {
                                    span: e.span.clone(),
                                    expected_type: expected_return_type,
                                    found_type: e.expected_return_type,
                                },
                            ).add_help(Note::ShouldNotHappen),
                        );
                    }
                },
                None => {},
            }
            TypedInstr {
                instr: partial::Instr::If {
                    cond,
                    then_branch: Box::new(then_branch),
                    else_branch: Box::new(else_branch),
                },
                span: instr.span.clone(),
                loop_level,
                expected_return_type,
            }
        },
        _ => {
            proof {
                assert(false);
            }
            TypedInstr {
                instr: partial::Instr::EmptyInstr,
                span: instr.span.clone(),
                loop_level,
                expected_return_type,
            }
        },
    }
}

/// Checks `while`: the condition may not be `void`; the body is one loop deeper.
fn typecheck_while(
    instr: &WithSpan<Instr>,
    loop_level: usize,
    expected_return_type: PartialType,
    env: &mut Environment,
    names: &[String],
    errs: &mut Vec<Error>,
    Ghost(b): Ghost<nat>,
) -> (r: PInstr)
    requires
        instr.inner is While,
        wf_instr(*instr, names@.len() as nat, b),
        loop_level + b <= MAX_DEPTH,
        env_ok(old(env)@),
    ensures
        instr_node(r) == instr_result(
            *instr,
            loop_level,
            expected_return_type,
            old(env)@,
            names_view(names@),
        ).0,
        errors_view(final(errs)@) == errors_view(old(errs)@) + instr_result(
            *instr,
            loop_level,
            expected_return_type,
            old(env)@,
            names_view(names@),
        ).1,
        final(env)@ == instr_result(
            *instr,
            loop_level,
            expected_return_type,
            old(env)@,
            names_view(names@),
        ).2,
        env_ok(final(env)@),
    decreases instr, 1nat,
{
    let ghost nv = names_view(names@);
    let ghost n = names@.len() as nat;
    let ghost bb = (b - 1) as nat;
    proof {
        lemma_instr_ok(*instr, loop_level, expected_return_type, env@, nv, n, b);
    }
    match &instr.inner {
        Instr::While { cond, body } => {
            let cond = type_expr(cond, env, names, errs, Ghost(bb));
            let ghost env0 = env@;
            let body = typecheck_instr(
                body,
                loop_level + 1,
                expected_return_type,
                env,
                names,
                errs,
                Ghost(bb),
            );
            proof {
                lemma_instr_shape(*instr.inner->While_body, (loop_level + 1) as usize, expected_return_type, env0, nv);
            }
            if cond.ty.is_void() {
                report(errs, Error::new(ErrorKind::VoidExpression { span: cond.span.clone() }));
            }
            if body.expected_return_type != expected_return_type {
                report(
                    errs,
                    Error::new(
                        ErrorKind::TypeMismatch {
                            expected_type: expected_return_type,
                            found_type: body.expected_return_type,
                            span: body.span.clone(),
                        },
                    ).add_help(Note::ShouldNotHappen),
                );
            }
            TypedInstr {
                instr: partial::Instr::While { cond, body: Box::new(body) },
                span: instr.span.clone(),
                loop_level,
                expected_return_type,
            }
        },
        _ => {
            proof {
                assert(false);
            }
            TypedInstr {
                instr: partial::Instr::EmptyInstr,
                span: instr.span.clone(),
                loop_level,
                expected_return_type,
            }
        },
    }
}

/// Checks a `for` loop that declares a variable, as a block of the declaration and the loop.
fn typecheck_for_decl(
    instr: &WithSpan<Instr>,
    loop_level: usize,
    expected_return_type: PartialType,
    env: &mut Environment,
    names: &[String],
    errs: &mut Vec<Error>,
    Ghost(b): Ghost<nat>,
) -> (r: PInstr)
    requires
        instr.inner matches Instr::For { loop_var: Some(_), .. },
        wf_instr(*instr, names@.len() as nat, b),
        loop_level + b <= MAX_DEPTH,
        env_ok(old(env)@),
    ensures
        instr_node(r) == instr_result(
            *instr,
            loop_level,
            expected_return_type,
            old(env)@,
            names_view(names@),
        ).0,
        errors_view(final(errs)@) == errors_view(old(errs)@) + instr_result(
            *instr,
            loop_level,
            expected_return_type,
            old(env)@,
            names_view(names@),
        ).1,
        final(env)@ == instr_result(
            *instr,
            loop_level,
            expected_return_type,
            old(env)@,
            names_view(names@),
        ).2,
        env_ok(final(env)@),
    decreases instr, 1nat,
{
    let ghost nv = names_view(names@);
    let ghost n = names@.len() as nat;
    let ghost bb = (b - 1) as nat;
    proof {
        lemma_instr_ok(*instr, loop_level, expected_return_type, env@, nv, n, b);
    }
    match &instr.inner {
        Instr::For { loop_var: Some(decl), cond, incr, body } => {
            let mut saved: Vec<SavedBinding> = Vec::new();
            let mut out: Vec<partial::DeclOrInstr> = Vec::new();
            let mut berrs: Vec<Error> = Vec::new();
            let ghost st0 = state_view(*env, saved@, out@, berrs@);
            assert(st0.saved =~= start(env@).saved);
            assert(st0.out =~= start(env@).out);
            assert(st0.errs =~= start(env@).errs);
            assert(st0 == start(env@));
            assert(state_ok(st0));
            var_item(
                &decl.inner.ty,
                &decl.inner.name,
                &decl.inner.value,
                &decl.span,
                env,
                &mut saved,
                &mut out,
                names,
                &mut berrs,
                Ghost((bb - 1) as nat),
            );
            let ghost st1 = state_view(*env, saved@, out@, berrs@);
            let ghost o1 = out@;
            let f = typecheck_for(
                cond,
                incr,
                body,
                &instr.span,
                loop_level,
                expected_return_type,
                env,
                names,
                &mut berrs,
                Ghost(bb),
            );
            let ghost fnode = instr_node(f);
            out.push(partial::DeclOrInstr::Instr(f));
            restore_bindings(env, &saved);
            append_errors(errs, berrs);
            proof {
                assert(out@.drop_last() =~= o1);
                assert(items_node(out@) =~= st1.out.push(crate::model::ItemNode::Instr(fnode)));
            }
            TypedInstr {
                instr: partial::Instr::Block(out),
                span: instr.span.clone(),
                loop_level,
                expected_return_type,
            }
        },
        _ => {
            proof {
                assert(false);
            }
            TypedInstr {
                instr: partial::Instr::EmptyInstr,
                span: instr.span.clone(),
                loop_level,
                expected_return_type,
            }
        },
    }
}

/// Checks a block: its items in order, then the names it declared get back what they stood for.
fn typecheck_block(
    instr: &WithSpan<Instr>,
    loop_level: usize,
    expected_return_type: PartialType,
    env: &mut Environment,
    names: &[String],
    errs: &mut Vec<Error>,
    Ghost(b): Ghost<nat>,
) -> (r: PInstr)
    requires
        instr.inner is Block,
        wf_instr(*instr, names@.len() as nat, b),
        loop_level + b <= MAX_DEPTH,
        env_ok(old(env)@),
    ensures
        instr_node(r) == instr_result(
            *instr,
            loop_level,
            expected_return_type,
            old(env)@,
            names_view(names@),
        ).0,
        errors_view(final(errs)@) == errors_view(old(errs)@) + instr_result(
            *instr,
            loop_level,
            expected_return_type,
            old(env)@,
            names_view(names@),
        ).1,
        final(env)@ == instr_result(
            *instr,
            loop_level,
            expected_return_type,
            old(env)@,
            names_view(names@),
        ).2,
        env_ok(final(env)@),
    decreases instr, 1nat,
{
    let ghost nv = names_view(names@);
    let ghost n = names@.len() as nat;
    let ghost bb = (b - 1) as nat;
    proof {
        lemma_instr_ok(*instr, loop_level, expected_return_type, env@, nv, n, b);
    }
    match &instr.inner {
        Instr::Block(items) => {
            let mut saved: Vec<SavedBinding> = Vec::new();
            let mut out: Vec<partial::DeclOrInstr> = Vec::new();
            let mut berrs: Vec<Error> = Vec::new();
            let ghost st0 = state_view(*env, saved@, out@, berrs@);
            assert(st0.saved =~= start(env@).saved);
            assert(st0.out =~= start(env@).out);
            assert(st0.errs =~= start(env@).errs);
            assert(state_ok(st0));
            proof {
                assert(decreases_to!(*instr => instr.inner));
            }
            check_block_items(
                items,
                loop_level,
                expected_return_type,
                env,
                &mut saved,
                &mut out,
                names,
                &mut berrs,
                Ghost(bb),
            );
            restore_bindings(env, &saved);
            append_errors(errs, berrs);
            TypedInstr {
                instr: partial::Instr::Block(out),
                span: instr.span.clone(),
                loop_level,
                expected_return_type,
            }
        },
        _ => {
            proof {
                assert(false);
            }
            TypedInstr {
                instr: partial::Instr::EmptyInstr,
                span: instr.span.clone(),
                loop_level,
                expected_return_type,
            }
        },
    }
}

/// Checks the items of a block one after the other (see `items_fold`).
fn check_block_items(
    items: &Vec<DeclOrInstr>,
    loop_level: usize,
    expected_return_type: PartialType,
    env: &mut Environment,
    saved: &mut Vec<SavedBinding>,
    out: &mut Vec<partial::DeclOrInstr>,
    names: &[String],
    errs: &mut Vec<Error>,
    Ghost(b): Ghost<nat>,
)
    requires
        wf_items(items@, names@.len() as nat, b),
        loop_level + b <= MAX_DEPTH,
        state_ok(state_view(*old(env), old(saved)@, old(out)@, old(errs)@)),
    ensures
        state_view(*final(env), final(saved)@, final(out)@, final(errs)@) == items_fold(
            items@,
            loop_level,
            expected_return_type,
            state_view(*old(env), old(saved)@, old(out)@, old(errs)@),
            names_view(names@),
        ),
        state_ok(state_view(*final(env), final(saved)@, final(out)@, final(errs)@)),
        final(out)@.len() == old(out)@.len() + items@.len(),
    decreases items, 0nat,
{
    let ghost nv = names_view(names@);
    let ghost st0 = state_view(*env, saved@, out@, errs@);
    let ghost out0 = out@.len();
    let mut i: usize = 0;
    while i < items.len()
        invariant
            i <= items@.len(),
            wf_items(items@, names@.len() as nat, b),
            loop_level + b <= MAX_DEPTH,
            nv == names_view(names@),
            state_view(*env, saved@, out@, errs@) == items_fold(
                items@.take(i as int),
                loop_level,
                expected_return_type,
                st0,
                nv,
            ),
            state_ok(state_view(*env, saved@, out@, errs@)),
            out@.len() == out0 + i,
        decreases items@.len() - i,
    {
        proof {
            assert(decreases_to!(*items => items@));
            assert(decreases_to!(items@ => items@[i as int]));
            assert(wf_item(items@[i as int], names@.len() as nat, b));
            assert(items@.take(i + 1).drop_last() =~= items@.take(i as int));
            assert(items@.take(i + 1).last() == items@[i as int]);
        }
        block_item(&items[i], loop_level, expected_return_type, env, saved, out, names, errs, Ghost(b));
        i = i + 1;
    }
    assert(items@.take(items@.len() as int) =~= items@);
}

/// Checks one item of a block (see `item_step`).
fn block_item(
    item: &DeclOrInstr,
    loop_level: usize,
    expected_return_type: PartialType,
    env: &mut Environment,
    saved: &mut Vec<SavedBinding>,
    out: &mut Vec<partial::DeclOrInstr>,
    names: &[String],
    errs: &mut Vec<Error>,
    Ghost(b): Ghost<nat>,
)
    requires
        wf_item(*item, names@.len() as nat, b),
        loop_level + b <= MAX_DEPTH,
        state_ok(state_view(*old(env), old(saved)@, old(out)@, old(errs)@)),
    ensures
        state_view(*final(env), final(saved)@, final(out)@, final(errs)@) == item_step(
            state_view(*old(env), old(saved)@, old(out)@, old(errs)@),
            *item,
            loop_level,
            expected_return_type,
            names_view(names@),
        ),
        state_ok(state_view(*final(env), final(saved)@, final(out)@, final(errs)@)),
        final(out)@.len() == old(out)@.len() + 1,
    decreases item, 0nat,
{
    let ghost nv = names_view(names@);
    let ghost st = state_view(*env, saved@, out@, errs@);
    proof {
        lemma_step_ok(st, *item, loop_level, expected_return_type, nv, names@.len() as nat, b);
    }
    match item {
        DeclOrInstr::Fun(fun_decl) => {
            let x = fun_decl.inner.name.inner;
            check_redefinition(saved, x, &fun_decl.span, names, errs);
            let old_binding = match env.get(x) {
                Some(v) => Some(copy_binding(&v.0)),
                None => None,
            };
            let fd = typecheck_fun(fun_decl, env, names, errs, Ghost(b));
            saved.push((WithSpan { inner: x, span: fd.span.clone() }, old_binding));
            let mut ptys: Vec<PartialType> = Vec::new();
            let mut k: usize = 0;
            while k < fd.inner.params.len()
                invariant
                    k <= fd.inner.params@.len(),
                    ptys@ =~= Seq::new(k as nat, |j: int| fd.inner.params@[j].0.inner),
                decreases fd.inner.params@.len() - k,
            {
                ptys.push(fd.inner.params[k].0.inner);
                k = k + 1;
            }
            env.insert(x, (Binding::Fun((fd.inner.ty.inner, ptys)), Some(fd.span.clone())));
            out.push(partial::DeclOrInstr::Fun(fd));
            proof {
                let fr = fun_result(*fun_decl, st.env, nv).0;
                assert(partial::fun_node(fd.inner) == fr);
                assert(partial::param_nodes(fd.inner.params@) == fr.params);
                assert(fd.inner.params@.len() == fun_decl.inner.params@.len());
                assert forall|j: int| 0 <= j < ptys@.len() implies ptys@[j] == crate::rules::param_types(
                    fun_decl.inner.params@,
                )[j] by {
                    assert(partial::param_nodes(fd.inner.params@)[j] == fr.params[j]);
                }
                assert(ptys@ =~= crate::rules::param_types(fun_decl.inner.params@));
                let st2 = item_step(st, *item, loop_level, expected_return_type, nv);
                assert(env@ == st2.env);
                assert(errors_view(errs@) == st2.errs);
                assert(saved_view(saved@) == st2.saved);
                assert(items_node(out@) == st2.out);
                assert(saved_view(saved@) =~= saved_view(old(saved)@).push(saved_view(saved@).last()));
                assert(items_node(out@) =~= items_node(old(out)@).push(items_node(out@).last()));
            }
        },
        DeclOrInstr::Var(var_decl) => {
            var_item(
                &var_decl.inner.ty,
                &var_decl.inner.name,
                &var_decl.inner.value,
                &var_decl.span,
                env,
                saved,
                out,
                names,
                errs,
                Ghost((b - 1) as nat),
            );
        },
        DeclOrInstr::Instr(instr) => {
            let t = typecheck_instr(instr, loop_level, expected_return_type, env, names, errs, Ghost(b));
            out.push(partial::DeclOrInstr::Instr(t));
            proof {
                assert(items_node(out@) =~= items_node(old(out)@).push(items_node(out@).last()));
            }
        },
    }
}

/// The types of a function's parameters.
fn declared_param_types(params: &Vec<(WithSpan<Type>, WithSpan<Ident>)>) -> (r: Vec<PartialType>)
    ensures
        r@ == crate::rules::param_types(params@),
{
    let mut ptys: Vec<PartialType> = Vec::new();
    let mut k: usize = 0;
    while k < params.len()
        invariant
            k <= params@.len(),
            ptys@ =~= crate::rules::param_types(params@).take(k as int),
        decreases params@.len() - k,
    {
        ptys.push(params[k].0.inner.from_basic());
        k = k + 1;
    }
    assert(ptys@ =~= crate::rules::param_types(params@));
    ptys
}

/// Checks a function declaration (see `fun_result`).
pub(crate) fn typecheck_fun(
    decl: &WithSpan<FunDecl>,
    env: &mut Environment,
    names: &[String],
    errs: &mut Vec<Error>,
    Ghost(b): Ghost<nat>,
) -> (r: WithSpan<partial::FunDecl>)
    requires
        wf_fun(*decl, names@.len() as nat, b),
        b <= MAX_DEPTH,
        env_ok(old(env)@),
    ensures
        r.span == decl.span,
        partial::fun_node(r.inner) == fun_result(*decl, old(env)@, names_view(names@)).0,
        errors_view(final(errs)@) == errors_view(old(errs)@) + fun_result(
            *decl,
            old(env)@,
            names_view(names@),
        ).1,
        final(env)@ == fun_result(*decl, old(env)@, names_view(names@)).2,
        env_ok(final(env)@),
    decreases decl, 0nat,
{
    let ghost nv = names_view(names@);
    let ghost env_in = env@;
    proof {
        lemma_fun_ok(*decl, env@, nv, names@.len() as nat, b);
        lemma_fun_binding_ok(decl.inner);
    }
    let f = &decl.inner;
    let rt = f.ty.inner.from_basic();
    let ptys = declared_param_types(&f.params);
    env.insert(f.name.inner, (Binding::Fun((rt, ptys)), Some(decl.span.clone())));
    let ghost env1 = env@;
    assert(env1 == env_in.insert(f.name.inner, (fun_binding(*f), Some(decl.span))));
    let mut saved: Vec<SavedBinding> = Vec::new();
    let mut out: Vec<partial::DeclOrInstr> = Vec::new();
    let mut berrs: Vec<Error> = Vec::new();
    let ghost st0 = state_view(*env, saved@, out@, berrs@);
    assert(st0.saved =~= start(env1).saved);
    assert(st0.out =~= start(env1).out);
    assert(st0.errs =~= start(env1).errs);
    assert(st0 == start(env1));
    proof {
        crate::bounds::lemma_insert_ok(env_in, f.name.inner, fun_binding(*f), Some(decl.span));
    }
    assert(state_ok(st0));
    let no_value: Option<WithSpan<Expr>> = None;
    let mut k: usize = 0;
    assert(f.params@.take(0) =~= Seq::<(WithSpan<Type>, WithSpan<Ident>)>::empty());
    while k < f.params.len()
        invariant
            k <= f.params@.len(),
            *f == decl.inner,
            wf_fun(*decl, names@.len() as nat, b),
            b <= MAX_DEPTH,
            no_value is None,
            nv == names_view(names@),
            state_view(*env, saved@, out@, berrs@) == params_fold(f.params@.take(k as int), st0, nv),
            state_ok(state_view(*env, saved@, out@, berrs@)),
            out@.len() == k,
        decreases f.params@.len() - k,
    {
        let p = &f.params[k];
        assert(wf_type(f.params@[k as int].0));
        assert(f.params@[k as int].1.inner < names@.len());
        let sp = sup(&p.0.span, &p.1.span);
        var_item(&p.0, &p.1, &no_value, &sp, env, &mut saved, &mut out, names, &mut berrs, Ghost(b));
        proof {
            assert(f.params@.take(k + 1).drop_last() =~= f.params@.take(k as int));
            assert(f.params@.take(k + 1).last() == f.params@[k as int]);
        }
        k = k + 1;
    }
    assert(f.params@.take(f.params@.len() as int) =~= f.params@);
    let ghost st1 = state_view(*env, saved@, out@, berrs@);
    proof {
        assert(decreases_to!(*decl => decl.inner));
        assert(decreases_to!(decl.inner => decl.inner.code));
        assert(decreases_to!(decl.inner.code => decl.inner.code.inner));
    }
    check_block_items(
        &f.code.inner,
        0,
        rt,
        env,
        &mut saved,
        &mut out,
        names,
        &mut berrs,
        Ghost((b - 1) as nat),
    );
    let ghost st2 = state_view(*env, saved@, out@, berrs@);
    restore_bindings(env, &saved);
    let ghost all_out = out@;
    let code = out.split_off(f.params.len());
    append_errors(errs, berrs);
    let mut tparams: Vec<(WithSpan<PartialType>, WithSpan<Ident>)> = Vec::new();
    let ghost pn = Seq::new(
        f.params@.len(),
        |j: int|
            crate::model::ParamNode {
                ty: from_basic(f.params@[j].0.inner),
                ty_span: f.params@[j].0.span,
                name: f.params@[j].1.inner,
                name_span: f.params@[j].1.span,
            },
    );
    let mut k: usize = 0;
    #[verifier::loop_isolation(false)]
    while k < f.params.len()
        invariant
            k <= f.params@.len(),
            partial::param_nodes(tparams@) =~= pn.take(k as int),
        decreases f.params@.len() - k,
    {
        let p = &f.params[k];
        let ghost t0 = tparams@;
        tparams.push(
            (
                WithSpan { inner: p.0.inner.from_basic(), span: p.0.span.clone() },
                WithSpan { inner: p.1.inner, span: p.1.span.clone() },
            ),
        );
        proof {
            assert(tparams@.drop_last() =~= t0);
            assert(partial::param_nodes(tparams@)[k as int] == pn[k as int]);
            assert forall|j: int| 0 <= j < k implies partial::param_nodes(tparams@)[j]
                == partial::param_nodes(t0)[j] by {
                assert(tparams@[j] == t0[j]);
            }
        }
        k = k + 1;
    }
    let r = WithSpan {
        inner: partial::FunDecl {
            ty: WithSpan { inner: rt, span: f.ty.span.clone() },
            name: WithSpan { inner: f.name.inner, span: f.name.span.clone() },
            params: tparams,
            code: TypedInstr {
                instr: code,
                span: f.code.span.clone(),
                loop_level: 0,
                expected_return_type: rt,
            },
            toplevel: f.toplevel,
        },
        span: decl.span.clone(),
    };
    proof {
        let fr = fun_result(*decl, env_in, nv);
        assert(pn.take(f.params@.len() as int) =~= pn);
        assert(pn =~= fr.0.params);
        assert(partial::param_nodes(r.inner.params@) =~= fr.0.params);
        assert(items_node(code@) =~= items_node(all_out).skip(f.params@.len() as int));
    }
    r
}

/// Whether `s` is the name `main`.
fn is_main(s: &String) -> (r: bool)
    ensures
        r == (s@ == main_name()),
{
    let t = s.as_str();
    if t.unicode_len() != 4 {
        return false;
    }
    let r = t.get_char(0) == 'm' && t.get_char(1) == 'a' && t.get_char(2) == 'i' && t.get_char(3)
        == 'n';
    proof {
        if r {
            assert(s@ =~= main_name());
        }
    }
    r
}

pub(crate) proof fn lemma_first_main(ds: Seq<WithSpan<FunDecl>>, names: Seq<Seq<char>>, k: int)
    requires
        0 <= k <= ds.len(),
        forall|j: int| 0 <= j < k ==> name_of(names, (#[trigger] ds[j]).inner.name.inner) != main_name(),
    ensures
        k < ds.len() && name_of(names, ds[k].inner.name.inner) == main_name() ==> first_main(ds, names)
            == Some(k),
        k == ds.len() ==> first_main(ds, names) is None,
    decreases k,
{
    if k > 0 {
        let d = ds.drop_first();
        assert forall|j: int| 0 <= j < k - 1 implies name_of(names, (#[trigger] d[j]).inner.name.inner)
            != main_name() by {
            assert(d[j] == ds[j + 1]);
        }
        lemma_first_main(d, names, k - 1);
        assert(name_of(names, ds[0].inner.name.inner) != main_name());
        if k < ds.len() {
            assert(d[k - 1] == ds[k]);
        }
    }
}

/// The index of the first top-level function named `main`.
fn find_main(ds: &Vec<WithSpan<FunDecl>>, names: &[String]) -> (r: Option<usize>)
    requires
        forall|k: int| 0 <= k < ds@.len() ==> (#[trigger] ds@[k]).inner.name.inner < names@.len(),
    ensures
        match r {
            Some(k) => k < ds@.len() && first_main(ds@, names_view(names@)) == Some(k as int),
            None => first_main(ds@, names_view(names@)) is None,
        },
{
    let ghost nv = names_view(names@);
    let mut k: usize = 0;
    while k < ds.len()
        invariant
            k <= ds@.len(),
            nv == names_view(names@),
            forall|k: int| 0 <= k < ds@.len() ==> (#[trigger] ds@[k]).inner.name.inner < names@.len(),
            forall|j: int| 0 <= j < k ==> name_of(nv, (#[trigger] ds@[j]).inner.name.inner) != main_name(),
        decreases ds@.len() - k,
    {
        let x = ds[k].inner.name.inner;
        if is_main(&names[x]) {
            proof {
                lemma_first_main(ds@, nv, k as int);
            }
            return Some(k);
        }
        k = k + 1;
    }
    proof {
        lemma_first_main(ds@, nv, k as int);
    }
    None
}

/// Reports a `main` function that is missing, or that does not take
/// nothing and return `int`.
fn check_main(ds: &Vec<WithSpan<FunDecl>>, names: &[String], errs: &mut Vec<Error>)
    requires
        forall|k: int| 0 <= k < ds@.len() ==> (#[trigger] ds@[k]).inner.name.inner < names@.len(),
    ensures
        errors_view(final(errs)@) == errors_view(old(errs)@) + main_errs(ds@, names_view(names@)),
{
    match find_main(ds, names) {
        Some(k) => {
            let d = &ds[k];
            if d.inner.ty.inner != Type::int_type() || d.inner.params.len() != 0 {
                let params = declared_param_types(&d.inner.params);
                report(
                    errs,
                    Error::new(
                        ErrorKind::IncorrectMainFunctionType {
                            ty: d.inner.ty.inner,
                            params,
                            span: d.span.clone(),
                        },
                    ),
                );
            } else {
                assert(errors_view(errs@) =~= errors_view(old(errs)@) + main_errs(
                    ds@,
                    names_view(names@),
                ));
            }
        },
        None => report(errs, Error::new(ErrorKind::NoMainFunction)),
    }
}

/// The typed functions, each with the span of its declaration.
pub open spec fn fun_nodes(out: Seq<WithSpan<partial::FunDecl>>) -> FileNode {
    Seq::new(out.len(), |i: int| (partial::fun_node(out[i].inner), out[i].span))
}

/// Checks a whole program (see `file_result`): a `main` function taking
/// nothing and returning `int` must exist, no top-level function may be
/// defined twice, and each function is checked in the scope that the
/// built-in functions and the functions before it make. A program without
/// errors comes back fully typed; otherwise every error comes back, in the
/// order in which it was found.
pub fn typecheck(file: File, name_of: &[String]) -> (r: Result<full::File, Vec<Error>>)
    requires
        wf_file(file, name_of@.len() as nat),
    ensures
        r is Ok <==> file_result(file, names_view(name_of@)).1.len() == 0,
        r matches Ok(t) ==> full::file_node(t) == file_result(file, names_view(name_of@)).0,
        r matches Err(es) ==> errors_view(es@) == file_result(file, names_view(name_of@)).1,
{
    let ghost nv = names_view(name_of@);
    let ghost ds = file.fun_decls@;
    let ghost n = name_of@.len() as nat;
    assert forall|k: int| 0 <= k < ds.len() implies (#[trigger] ds[k]).inner.name.inner < name_of@.len() by {
        assert(wf_fun(file.fun_decls@[k], n, MAX_DEPTH as nat));
    }
    let mut errs: Vec<Error> = Vec::new();
    check_main(&file.fun_decls, name_of, &mut errs);
    assert(errors_view(errs@) =~= main_errs(ds, nv));
    let mut env = Environment::new();
    let int_t = PartialType::int_type();
    let mut alloc_params: Vec<PartialType> = Vec::new();
    alloc_params.push(int_t);
    let mut other_params: Vec<PartialType> = Vec::new();
    other_params.push(int_t);
    assert(alloc_params@ =~= seq![crate::types::int_t()]);
    assert(other_params@ =~= seq![crate::types::int_t()]);
    env.insert(0, (Binding::Fun((PartialType::void_type().ptr(), alloc_params)), None));
    env.insert(1, (Binding::Fun((int_t, other_params)), None));
    assert(env@ =~= builtin_env());
    proof {
        lemma_builtin_ok();
    }
    let mut out: Vec<WithSpan<partial::FunDecl>> = Vec::new();
    let mut i: usize = 0;
    assert(ds.take(0) =~= Seq::<WithSpan<FunDecl>>::empty());
    assert(fun_nodes(out@) =~= decls_fold(ds.take(0), nv).1);
    while i < file.fun_decls.len()
        invariant
            ds == file.fun_decls@,
            i <= ds.len(),
            wf_file(file, n),
            n == name_of@.len(),
            nv == names_view(name_of@),
            env@ == decls_fold(ds.take(i as int), nv).0,
            fun_nodes(out@) == decls_fold(ds.take(i as int), nv).1,
            errors_view(errs@) == main_errs(ds, nv) + decls_fold(ds.take(i as int), nv).2,
            env_ok(env@),
        decreases ds.len() - i,
    {
        let d = &file.fun_decls[i];
        assert(wf_fun(ds[i as int], n, MAX_DEPTH as nat));
        let ghost env0 = env@;
        let ghost errs0 = errors_view(errs@);
        if let Ok((_, first_definition)) = get_fun(
            &env,
            WithSpan { inner: d.inner.name.inner, span: d.span.clone() },
            name_of,
        ) {
            report(
                &mut errs,
                Error::new(
                    ErrorKind::FunctionDefinedTwice {
                        first_definition: clone_opt_span(first_definition),
                        second_definition: d.span.clone(),
                        name: name_string(name_of, d.inner.name.inner),
                    },
                ),
            );
        }
        let ghost errs1 = errors_view(errs@);
        let f = typecheck_fun(d, &mut env, name_of, &mut errs, Ghost(MAX_DEPTH as nat));
        let ghost o0 = out@;
        out.push(f);
        proof {
            let t = ds.take(i + 1);
            assert(t.drop_last() =~= ds.take(i as int));
            assert(t.last() == ds[i as int]);
            let prev = decls_fold(ds.take(i as int), nv);
            let dup = errs1.subrange(errs0.len() as int, errs1.len() as int);
            assert(errs1 =~= errs0 + dup);
            assert(fun_nodes(out@) =~= fun_nodes(o0).push(
                (partial::fun_node(f.inner), f.span),
            ));
            assert(errors_view(errs@) =~= main_errs(ds, nv) + decls_fold(t, nv).2);
        }
        i = i + 1;
    }
    assert(ds.take(ds.len() as int) =~= ds);
    if errs.len() == 0 {
        let pf = partial::File { fun_decls: out };
        assert(partial::file_node(pf) =~= fun_nodes(out@));
        proof {
            lemma_no_errors_complete(file, nv);
        }
        let t = pf.to_full();
        Ok(t.unwrap())
    } else {
        Err(errs)
    }
}

} // verus!
