//! Checking expressions.
use vstd::prelude::*;
use beans::span::Span;
use crate::annot::{TypedInstr, WithType};
use crate::ast::{BinOp, DeclOrInstr, Expr, File, FunDecl, Ident, Instr, VarDecl, wf_args, wf_expr};
use crate::bounds::{env_ok, lemma_expr_bound};
use crate::env::{Binding, Environment, fun_lookup, var_lookup};
use crate::error::{Error, ErrorKind, KindV, Note, errors_view, plain};
use crate::partial::{self, PExpr, expr_kind, expr_node};
use crate::rules::{args_result, expr_result};
use crate::span::WithSpan;
use crate::types::{MAX_DECLARED_INDIRECTION, PartialBasisType, PartialType, Type};
use crate::ast::MAX_DEPTH;

verus! {

/// The names as character sequences.
pub open spec fn names_view(names: Seq<String>) -> Seq<Seq<char>> {
    Seq::new(names.len(), |i: int| names[i]@)
}

pub(crate) fn report(errs: &mut Vec<Error>, e: Error)
    ensures
        errors_view(final(errs)@) == errors_view(old(errs)@) + seq![e@],
{
    let ghost v = e@;
    errs.push(e);
    assert(errors_view(errs@) =~= errors_view(old(errs)@) + seq![v]);
}

pub(crate) fn clone_opt_span(o: &Option<Span>) -> (r: Option<Span>)
    ensures
        r == *o,
{
    match o {
        Some(s) => Some(s.clone()),
        None => None,
    }
}

pub(crate) fn name_string(names: &[String], x: Ident) -> (s: String)
    requires
        x < names@.len(),
    ensures
        s@ == names_view(names@)[x as int],
{
    names[x].clone()
}

/// The type of the variable `ident` names, or the error for a name that
/// is not a variable in scope.
pub(crate) fn get_var(env: &Environment, ident: WithSpan<Ident>, names: &[String]) -> (r: Result<
    PartialType,
    Error,
>)
    requires
        ident.inner < names@.len(),
    ensures
        match r {
            Ok(t) => var_lookup(env@, ident.inner) == Some(t),
            Err(e) => var_lookup(env@, ident.inner) is None && e@ == plain(
                KindV::NameError { name: names_view(names@)[ident.inner as int], span: ident.span },
            ),
        },
{
    match env.get(ident.inner) {
        Some(entry) => match &entry.0 {
            Binding::Var(t) => {
                return Ok(*t);
            },
            _ => {},
        },
        None => {},
    }
    Err(Error::new(ErrorKind::NameError { name: name_string(names, ident.inner), span: ident.span }))
}

/// The return and parameter types of the function `ident` names, with
/// where it was defined, or the error for a name that is not a function
/// in scope.
pub(crate) fn get_fun<'a>(env: &'a Environment, ident: WithSpan<Ident>, names: &[String]) -> (r:
    Result<(&'a (PartialType, Vec<PartialType>), &'a Option<Span>), Error>)
    requires
        ident.inner < names@.len(),
    ensures
        match r {
            Ok(f) => fun_lookup(env@, ident.inner) == Some((f.0.0, f.0.1@, *f.1)),
            Err(e) => fun_lookup(env@, ident.inner) is None && e@ == plain(
                KindV::NameError { name: names_view(names@)[ident.inner as int], span: ident.span },
            ),
        },
{
    match env.get(ident.inner) {
        Some(entry) => match &entry.0 {
            Binding::Fun(f) => {
                return Ok((f, &entry.1));
            },
            _ => {},
        },
        None => {},
    }
    Err(Error::new(ErrorKind::NameError { name: name_string(names, ident.inner), span: ident.span }))
}

/// Checks an expression in scope `env`, reporting its errors into `errs`.
pub(crate) fn type_expr(
    e: &WithSpan<Expr>,
    env: &Environment,
    names: &[String],
    errs: &mut Vec<Error>,
    Ghost(b): Ghost<nat>,
) -> (r: PExpr)
    requires
        wf_expr(*e, names@.len() as nat, b),
        b <= MAX_DEPTH,
        env_ok(env@),
    ensures
        expr_node(r) == expr_result(*e, env@, names_view(names@)).0,
        errors_view(final(errs)@) == errors_view(old(errs)@) + expr_result(
            *e,
            env@,
            names_view(names@),
        ).1,
    decreases e, 1nat,
{
    proof {
        reveal_with_fuel(expr_result, 1);
    }
    let ghost nv = names_view(names@);
    let ghost n = names@.len() as nat;
    let ghost bb = (b - 1) as nat;
    match &e.inner {
        Expr::True => WithType::new(Some(partial::Expr::True), PartialType::bool_type(), e.span.clone()),
        Expr::False => WithType::new(
            Some(partial::Expr::False),
            PartialType::bool_type(),
            e.span.clone(),
        ),
        Expr::Null => WithType::new(
            Some(partial::Expr::Null),
            PartialType::void_type().ptr(),
            e.span.clone(),
        ),
        Expr::Int(k) => WithType::new(Some(partial::Expr::Int(*k)), PartialType::int_type(), e.span.clone()),
        Expr::Ident(x) => {
            let ty = match get_var(env, WithSpan { inner: *x, span: e.span.clone() }, names) {
                Ok(t) => t,
                Err(error) => {
                    report(errs, error);
                    PartialType::error_type()
                },
            };
            WithType::new(Some(partial::Expr::Ident(*x)), ty, e.span.clone())
        },
        Expr::SizeOf(ty) => {
            let value = if !(ty.inner == Type::void_type()) {
                Some(
                    partial::Expr::SizeOf(
                        WithSpan { inner: ty.inner.from_basic(), span: ty.span.clone() },
                    ),
                )
            } else {
                report(errs, Error::new(ErrorKind::SizeofVoid { span: e.span.clone() }));
                None
            };
            WithType::new(value, PartialType::int_type(), ty.span.clone())
        },
        Expr::Addr(_) => type_addr(e, env, names, errs, Ghost(b)),
        Expr::Deref(_) => type_deref(e, env, names, errs, Ghost(b)),
        Expr::PrefixIncr(_) => type_prefix_incr(e, env, names, errs, Ghost(b)),
        Expr::PrefixDecr(_) => type_prefix_decr(e, env, names, errs, Ghost(b)),
        Expr::PostfixIncr(_) => type_postfix_incr(e, env, names, errs, Ghost(b)),
        Expr::PostfixDecr(_) => type_postfix_decr(e, env, names, errs, Ghost(b)),
        Expr::Pos(_) => type_pos(e, env, names, errs, Ghost(b)),
        Expr::Neg(_) => type_neg(e, env, names, errs, Ghost(b)),
        Expr::Not(_) => type_not(e, env, names, errs, Ghost(b)),
        Expr::Assign { .. } => type_assign(e, env, names, errs, Ghost(b)),
        Expr::Op { .. } => type_op(e, env, names, errs, Ghost(b)),
        Expr::Call { .. } => type_call(e, env, names, errs, Ghost(b)),
    }
}

/// Checks `&x`: `x` should be a place; the type is a pointer to its type.
fn type_addr(
    e: &WithSpan<Expr>,
    env: &Environment,
    names: &[String],
    errs: &mut Vec<Error>,
    Ghost(b): Ghost<nat>,
) -> (r: PExpr)
    requires
        e.inner is Addr,
        wf_expr(*e, names@.len() as nat, b),
        b <= MAX_DEPTH,
        env_ok(env@),
    ensures
        expr_node(r) == expr_result(*e, env@, names_view(names@)).0,
        errors_view(final(errs)@) == errors_view(old(errs)@) + expr_result(
            *e,
            env@,
            names_view(names@),
        ).1,
    decreases e, 0nat,
{
    proof {
        reveal_with_fuel(expr_result, 1);
    }
    let ghost nv = names_view(names@);
    let ghost n = names@.len() as nat;
    let ghost bb = (b - 1) as nat;
    match &e.inner {
        Expr::Addr(x) => {
            if !x.inner.is_lvalue() {
                report(
                    errs,
                    Error::new(
                        ErrorKind::AddressOfRvalue {
                            span: e.span.clone(),
                            expression_span: x.span.clone(),
                        },
                    ).add_help(Note::AllocateRvalue),
                );
            }
            proof {
                lemma_expr_bound(**x, env@, nv, n, bb);
            }
            let inner = type_expr(x, env, names, errs, Ghost(bb));
            let ty = inner.ty.ptr();
            WithType::new(Some(partial::Expr::Addr(Box::new(inner))), ty, e.span.clone())
        },
        _ => {
            proof {
                assert(false);
            }
            WithType::new(None, PartialType::error_type(), e.span.clone())
        },
    }
}

/// Checks `*x`: `x` should be a pointer, not `void*`.
fn type_deref(
    e: &WithSpan<Expr>,
    env: &Environment,
    names: &[String],
    errs: &mut Vec<Error>,
    Ghost(b): Ghost<nat>,
) -> (r: PExpr)
    requires
        e.inner is Deref,
        wf_expr(*e, names@.len() as nat, b),
        b <= MAX_DEPTH,
        env_ok(env@),
    ensures
        expr_node(r) == expr_result(*e, env@, names_view(names@)).0,
        errors_view(final(errs)@) == errors_view(old(errs)@) + expr_result(
            *e,
            env@,
            names_view(names@),
        ).1,
    decreases e, 0nat,
{
    proof {
        reveal_with_fuel(expr_result, 1);
    }
    let ghost nv = names_view(names@);
    let ghost n = names@.len() as nat;
    let ghost bb = (b - 1) as nat;
    match &e.inner {
        Expr::Deref(x) => {
            let inner = type_expr(x, env, names, errs, Ghost(bb));
            let ty: PartialType = match inner.ty.deref_ptr() {
                Some(t) => {
                    if t.is_void() {
                        report(
                            errs,
                            Error::new(ErrorKind::DerefVoidPointer { span: inner.span.clone() }),
                        );
                        PartialType::error_type()
                    } else {
                        t
                    }
                },
                None => {
                    match inner.ty.to_basic() {
                        Some(t) => {
                            report(
                                errs,
                                Error::new(
                                    ErrorKind::DerefNonPointer { ty: t, span: inner.span.clone() },
                                ),
                            );
                        },
                        None => {},
                    }
                    PartialType::error_type()
                },
            };
            WithType::new(Some(partial::Expr::Deref(Box::new(inner))), ty, e.span.clone())
        },
        _ => {
            proof {
                assert(false);
            }
            WithType::new(None, PartialType::error_type(), e.span.clone())
        },
    }
}

/// Checks `++x`: `x` should be a place.
fn type_prefix_incr(
    e: &WithSpan<Expr>,
    env: &Environment,
    names: &[String],
    errs: &mut Vec<Error>,
    Ghost(b): Ghost<nat>,
) -> (r: PExpr)
    requires
        e.inner is PrefixIncr,
        wf_expr(*e, names@.len() as nat, b),
        b <= MAX_DEPTH,
        env_ok(env@),
    ensures
        expr_node(r) == expr_result(*e, env@, names_view(names@)).0,
        errors_view(final(errs)@) == errors_view(old(errs)@) + expr_result(
            *e,
            env@,
            names_view(names@),
        ).1,
    decreases e, 0nat,
{
    proof {
        reveal_with_fuel(expr_result, 1);
    }
    let ghost nv = names_view(names@);
    let ghost n = names@.len() as nat;
    let ghost bb = (b - 1) as nat;
    match &e.inner {
        Expr::PrefixIncr(x) => {
            if !x.inner.is_lvalue() {
                report(
                    errs,
                    Error::new(
                        ErrorKind::IncrOrDecrRvalue {
                            span: e.span.clone(),
                            expression_span: x.span.clone(),
                        },
                    ),
                );
            }
            let inner = type_expr(x, env, names, errs, Ghost(bb));
            let ty = inner.ty;
            WithType::new(Some(partial::Expr::PrefixIncr(Box::new(inner))), ty, e.span.clone())
        },
        _ => {
            proof {
                assert(false);
            }
            WithType::new(None, PartialType::error_type(), e.span.clone())
        },
    }
}

/// Checks `--x`: `x` should be a place.
fn type_prefix_decr(
    e: &WithSpan<Expr>,
    env: &Environment,
    names: &[String],
    errs: &mut Vec<Error>,
    Ghost(b): Ghost<nat>,
) -> (r: PExpr)
    requires
        e.inner is PrefixDecr,
        wf_expr(*e, names@.len() as nat, b),
        b <= MAX_DEPTH,
        env_ok(env@),
    ensures
        expr_node(r) == expr_result(*e, env@, names_view(names@)).0,
        errors_view(final(errs)@) == errors_view(old(errs)@) + expr_result(
            *e,
            env@,
            names_view(names@),
        ).1,
    decreases e, 0nat,
{
    proof {
        reveal_with_fuel(expr_result, 1);
    }
    let ghost nv = names_view(names@);
    let ghost n = names@.len() as nat;
    let ghost bb = (b - 1) as nat;
    match &e.inner {
        Expr::PrefixDecr(x) => {
            if !x.inner.is_lvalue() {
                report(
                    errs,
                    Error::new(
                        ErrorKind::IncrOrDecrRvalue {
                            span: e.span.clone(),
                            expression_span: x.span.clone(),
                        },
                    ),
                );
            }
            let inner = type_expr(x, env, names, errs, Ghost(bb));
            let ty = inner.ty;
            WithType::new(Some(partial::Expr::PrefixDecr(Box::new(inner))), ty, e.span.clone())
        },
        _ => {
            proof {
                assert(false);
            }
            WithType::new(None, PartialType::error_type(), e.span.clone())
        },
    }
}

/// Checks `x++`: `x` should be a place.
fn type_postfix_incr(
    e: &WithSpan<Expr>,
    env: &Environment,
    names: &[String],
    errs: &mut Vec<Error>,
    Ghost(b): Ghost<nat>,
) -> (r: PExpr)
    requires
        e.inner is PostfixIncr,
        wf_expr(*e, names@.len() as nat, b),
        b <= MAX_DEPTH,
        env_ok(env@),
    ensures
        expr_node(r) == expr_result(*e, env@, names_view(names@)).0,
        errors_view(final(errs)@) == errors_view(old(errs)@) + expr_result(
            *e,
            env@,
            names_view(names@),
        ).1,
    decreases e, 0nat,
{
    proof {
        reveal_with_fuel(expr_result, 1);
    }
    let ghost nv = names_view(names@);
    let ghost n = names@.len() as nat;
    let ghost bb = (b - 1) as nat;
    match &e.inner {
        Expr::PostfixIncr(x) => {
            if !x.inner.is_lvalue() {
                report(
                    errs,
                    Error::new(
                        ErrorKind::IncrOrDecrRvalue {
                            span: e.span.clone(),
                            expression_span: x.span.clone(),
                        },
                    ),
                );
            }
            let inner = type_expr(x, env, names, errs, Ghost(bb));
            let ty = inner.ty;
            WithType::new(Some(partial::Expr::PostfixIncr(Box::new(inner))), ty, e.span.clone())
        },
        _ => {
            proof {
                assert(false);
            }
            WithType::new(None, PartialType::error_type(), e.span.clone())
        },
    }
}

/// Checks `x--`: `x` should be a place.
fn type_postfix_decr(
    e: &WithSpan<Expr>,
    env: &Environment,
    names: &[String],
    errs: &mut Vec<Error>,
    Ghost(b): Ghost<nat>,
) -> (r: PExpr)
    requires
        e.inner is PostfixDecr,
        wf_expr(*e, names@.len() as nat, b),
        b <= MAX_DEPTH,
        env_ok(env@),
    ensures
        expr_node(r) == expr_result(*e, env@, names_view(names@)).0,
        errors_view(final(errs)@) == errors_view(old(errs)@) + expr_result(
            *e,
            env@,
            names_view(names@),
        ).1,
    decreases e, 0nat,
{
    proof {
        reveal_with_fuel(expr_result, 1);
    }
    let ghost nv = names_view(names@);
    let ghost n = names@.len() as nat;
    let ghost bb = (b - 1) as nat;
    match &e.inner {
        Expr::PostfixDecr(x) => {
            if !x.inner.is_lvalue() {
                report(
                    errs,
                    Error::new(
                        ErrorKind::IncrOrDecrRvalue {
                            span: e.span.clone(),
                            expression_span: x.span.clone(),
                        },
                    ),
                );
            }
            let inner = type_expr(x, env, names, errs, Ghost(bb));
            let ty = inner.ty;
            WithType::new(Some(partial::Expr::PostfixDecr(Box::new(inner))), ty, e.span.clone())
        },
        _ => {
            proof {
                assert(false);
            }
            WithType::new(None, PartialType::error_type(), e.span.clone())
        },
    }
}

/// Checks `+x`: `x` should be compatible with `int`.
fn type_pos(
    e: &WithSpan<Expr>,
    env: &Environment,
    names: &[String],
    errs: &mut Vec<Error>,
    Ghost(b): Ghost<nat>,
) -> (r: PExpr)
    requires
        e.inner is Pos,
        wf_expr(*e, names@.len() as nat, b),
        b <= MAX_DEPTH,
        env_ok(env@),
    ensures
        expr_node(r) == expr_result(*e, env@, names_view(names@)).0,
        errors_view(final(errs)@) == errors_view(old(errs)@) + expr_result(
            *e,
            env@,
            names_view(names@),
        ).1,
    decreases e, 0nat,
{
    proof {
        reveal_with_fuel(expr_result, 1);
    }
    let ghost nv = names_view(names@);
    let ghost n = names@.len() as nat;
    let ghost bb = (b - 1) as nat;
    match &e.inner {
        Expr::Pos(x) => {
            let inner = type_expr(x, env, names, errs, Ghost(bb));
            let ty = inner.ty;
            if !PartialBasisType::is_eq(&ty, &PartialType::int_type()) {
                report(
                    errs,
                    Error::new(
                        ErrorKind::TypeMismatch {
                            expected_type: PartialType::int_type(),
                            found_type: ty,
                            span: inner.span.clone(),
                        },
                    ),
                );
            }
            WithType::new(
                Some(partial::Expr::Pos(Box::new(inner))),
                PartialType::int_type(),
                e.span.clone(),
            )
        },
        _ => {
            proof {
                assert(false);
            }
            WithType::new(None, PartialType::error_type(), e.span.clone())
        },
    }
}

/// Checks `-x`: `x` should be compatible with `int`.
fn type_neg(
    e: &WithSpan<Expr>,
    env: &Environment,
    names: &[String],
    errs: &mut Vec<Error>,
    Ghost(b): Ghost<nat>,
) -> (r: PExpr)
    requires
        e.inner is Neg,
        wf_expr(*e, names@.len() as nat, b),
        b <= MAX_DEPTH,
        env_ok(env@),
    ensures
        expr_node(r) == expr_result(*e, env@, names_view(names@)).0,
        errors_view(final(errs)@) == errors_view(old(errs)@) + expr_result(
            *e,
            env@,
            names_view(names@),
        ).1,
    decreases e, 0nat,
{
    proof {
        reveal_with_fuel(expr_result, 1);
    }
    let ghost nv = names_view(names@);
    let ghost n = names@.len() as nat;
    let ghost bb = (b - 1) as nat;
    match &e.inner {
        Expr::Neg(x) => {
            let inner = type_expr(x, env, names, errs, Ghost(bb));
            let ty = inner.ty;
            if !PartialBasisType::is_eq(&ty, &PartialType::int_type()) {
                report(
                    errs,
                    Error::new(
                        ErrorKind::TypeMismatch {
                            expected_type: PartialType::int_type(),
                            found_type: ty,
                            span: inner.span.clone(),
                        },
                    ),
                );
            }
            WithType::new(
                Some(partial::Expr::Neg(Box::new(inner))),
                PartialType::int_type(),
                e.span.clone(),
            )
        },
        _ => {
            proof {
                assert(false);
            }
            WithType::new(None, PartialType::error_type(), e.span.clone())
        },
    }
}

/// Checks `!x`: `x` should not be `void`.
fn type_not(
    e: &WithSpan<Expr>,
    env: &Environment,
    names: &[String],
    errs: &mut Vec<Error>,
    Ghost(b): Ghost<nat>,
) -> (r: PExpr)
    requires
        e.inner is Not,
        wf_expr(*e, names@.len() as nat, b),
        b <= MAX_DEPTH,
        env_ok(env@),
    ensures
        expr_node(r) == expr_result(*e, env@, names_view(names@)).0,
        errors_view(final(errs)@) == errors_view(old(errs)@) + expr_result(
            *e,
            env@,
            names_view(names@),
        ).1,
    decreases e, 0nat,
{
    proof {
        reveal_with_fuel(expr_result, 1);
    }
    let ghost nv = names_view(names@);
    let ghost n = names@.len() as nat;
    let ghost bb = (b - 1) as nat;
    match &e.inner {
        Expr::Not(x) => {
            let inner = type_expr(x, env, names, errs, Ghost(bb));
            if inner.ty.is_void() {
                report(errs, Error::new(ErrorKind::VoidExpression { span: inner.span.clone() }));
            }
            WithType::new(
                Some(partial::Expr::Not(Box::new(inner))),
                PartialType::int_type(),
                e.span.clone(),
            )
        },
        _ => {
            proof {
                assert(false);
            }
            WithType::new(None, PartialType::error_type(), e.span.clone())
        },
    }
}

/// Checks `l = r`: `l` should be a place and `r` compatible with it.
fn type_assign(
    e: &WithSpan<Expr>,
    env: &Environment,
    names: &[String],
    errs: &mut Vec<Error>,
    Ghost(b): Ghost<nat>,
) -> (r: PExpr)
    requires
        e.inner is Assign,
        wf_expr(*e, names@.len() as nat, b),
        b <= MAX_DEPTH,
        env_ok(env@),
    ensures
        expr_node(r) == expr_result(*e, env@, names_view(names@)).0,
        errors_view(final(errs)@) == errors_view(old(errs)@) + expr_result(
            *e,
            env@,
            names_view(names@),
        ).1,
    decreases e, 0nat,
{
    proof {
        reveal_with_fuel(expr_result, 1);
    }
    let ghost nv = names_view(names@);
    let ghost n = names@.len() as nat;
    let ghost bb = (b - 1) as nat;
    match &e.inner {
        Expr::Assign { lhs, rhs } => {
            if !lhs.inner.is_lvalue() {
                report(errs, Error::new(ErrorKind::RvalueAssignment { span: lhs.span.clone() }));
            }
            let l = type_expr(lhs, env, names, errs, Ghost(bb));
            let r = type_expr(rhs, env, names, errs, Ghost(bb));
            let ty1 = l.ty;
            let ty2 = r.ty;
            if !PartialBasisType::is_eq(&ty1, &ty2) {
                report(
                    errs,
                    Error::new(
                        ErrorKind::TypeMismatch {
                            span: e.span.clone(),
                            expected_type: ty1,
                            found_type: ty2,
                        },
                    ),
                );
            }
            let found_type = if ty1 == PartialType::error_type() {
                ty2
            } else {
                ty1
            };
            WithType::new(
                Some(partial::Expr::Assign { lhs: Box::new(l), rhs: Box::new(r) }),
                found_type,
                e.span.clone(),
            )
        },
        _ => {
            proof {
                assert(false);
            }
            WithType::new(None, PartialType::error_type(), e.span.clone())
        },
    }
}

/// Checks a binary operation.
#[verifier::rlimit(40)]
fn type_op(
    e: &WithSpan<Expr>,
    env: &Environment,
    names: &[String],
    errs: &mut Vec<Error>,
    Ghost(b): Ghost<nat>,
) -> (r: PExpr)
    requires
        e.inner is Op,
        wf_expr(*e, names@.len() as nat, b),
        b <= MAX_DEPTH,
        env_ok(env@),
    ensures
        expr_node(r) == expr_result(*e, env@, names_view(names@)).0,
        errors_view(final(errs)@) == errors_view(old(errs)@) + expr_result(
            *e,
            env@,
            names_view(names@),
        ).1,
    decreases e, 0nat,
{
    proof {
        reveal_with_fuel(expr_result, 1);
    }
    let ghost nv = names_view(names@);
    let ghost n = names@.len() as nat;
    let ghost bb = (b - 1) as nat;
    match &e.inner {
        Expr::Op { op, lhs, rhs } => {
            let l = type_expr(lhs, env, names, errs, Ghost(bb));
            let r = type_expr(rhs, env, names, errs, Ghost(bb));
            let ty1 = l.ty;
            let ty2 = r.ty;
            let ty = match op {
                BinOp::Eq | BinOp::NEq | BinOp::Lt | BinOp::Le | BinOp::Gt | BinOp::Ge => {
                    if ty1.is_void() {
                        report(errs, Error::new(ErrorKind::VoidExpression { span: l.span.clone() }));
                    }
                    if ty2.is_void() {
                        report(errs, Error::new(ErrorKind::VoidExpression { span: r.span.clone() }));
                    }
                    if !PartialBasisType::is_eq(&ty1, &ty2) {
                        report(
                            errs,
                            Error::new(
                                ErrorKind::TypeMismatch {
                                    span: r.span.clone(),
                                    expected_type: ty1,
                                    found_type: ty2,
                                },
                            ).add_help(Note::ExpectedTypeBecause(ty1)),
                        );
                    }
                    PartialType::int_type()
                },
                BinOp::Add => type_add(ty1, ty2, &e.span, errs),
                BinOp::Sub => type_sub(ty1, ty2, &e.span, errs),
                _ => {
                    if !PartialBasisType::is_eq(&ty1, &PartialType::int_type()) {
                        report(
                            errs,
                            Error::new(
                                ErrorKind::TypeMismatch {
                                    span: l.span.clone(),
                                    expected_type: PartialType::int_type(),
                                    found_type: ty1,
                                },
                            ),
                        );
                    }
                    if !PartialBasisType::is_eq(&ty2, &PartialType::int_type()) {
                        report(
                            errs,
                            Error::new(
                                ErrorKind::TypeMismatch {
                                    span: r.span.clone(),
                                    expected_type: PartialType::int_type(),
                                    found_type: ty2,
                                },
                            ),
                        );
                    }
                    PartialType::int_type()
                },
            };
            WithType::new(
                Some(partial::Expr::Op { op: *op, lhs: Box::new(l), rhs: Box::new(r) }),
                ty,
                e.span.clone(),
            )
        },
        _ => {
            proof {
                assert(false);
            }
            WithType::new(None, PartialType::error_type(), e.span.clone())
        },
    }
}

/// Checks a call: the name must be a function in scope, the number of
/// arguments must match, and each argument must be compatible with its
/// parameter.
fn type_call(
    e: &WithSpan<Expr>,
    env: &Environment,
    names: &[String],
    errs: &mut Vec<Error>,
    Ghost(b): Ghost<nat>,
) -> (r: PExpr)
    requires
        e.inner is Call,
        wf_expr(*e, names@.len() as nat, b),
        b <= MAX_DEPTH,
        env_ok(env@),
    ensures
        expr_node(r) == expr_result(*e, env@, names_view(names@)).0,
        errors_view(final(errs)@) == errors_view(old(errs)@) + expr_result(
            *e,
            env@,
            names_view(names@),
        ).1,
    decreases e, 0nat,
{
    proof {
        reveal_with_fuel(expr_result, 1);
    }
    let ghost nv = names_view(names@);
    let ghost n = names@.len() as nat;
    let ghost bb = (b - 1) as nat;
    let (name, args) = match &e.inner {
        Expr::Call { name, args } => (name, args),
        _ => {
            proof {
                assert(false);
            }
            return WithType::new(None, PartialType::error_type(), e.span.clone());
        },
    };
    assert(e.inner == (Expr::Call { name: *name, args: *args }));
    let (f, fun_span) = match get_fun(env, WithSpan { inner: name.inner, span: name.span.clone() }, names) {
        Err(error) => {
            report(errs, error);
            return WithType::new(None, PartialType::error_type(), e.span.clone());
        },
        Ok(found) => found,
    };
    let ret_ty = f.0;
    let args_ty = &f.1;
    assert(fun_lookup(env@, name.inner) == Some((ret_ty, args_ty@, *fun_span)));
    if args.len() != args_ty.len() {
        report(
            errs,
            Error::new(
                ErrorKind::ArityMismatch {
                    found_arity: args.len(),
                    expected_arity: args_ty.len(),
                    span: e.span.clone(),
                    definition_span: clone_opt_span(fun_span),
                    function_name: name_string(names, name.inner),
                },
            ),
        );
        return WithType::new(None, ret_ty, e.span.clone());
    }
    let ghost start = errors_view(errs@);
    let mut typed_args: Vec<PExpr> = Vec::new();
    let mut i: usize = 0;
    while i < args.len()
        invariant
            e.inner == (Expr::Call { name: *name, args: *args }),
            i <= args@.len(),
            args@.len() == args_ty@.len(),
            wf_args(args@, n, bb),
            bb <= MAX_DEPTH,
            env_ok(env@),
            n == names@.len(),
            nv == names_view(names@),
            typed_args@.len() == i,
            args_result(args@.take(i as int), args_ty@, env@, nv).0.len() == i,
            forall|k: int|
                0 <= k < i ==> expr_node(#[trigger] typed_args@[k]) == args_result(
                    args@.take(i as int),
                    args_ty@,
                    env@,
                    nv,
                ).0[k],
            errors_view(errs@) == start + args_result(args@.take(i as int), args_ty@, env@, nv).1,
        decreases args@.len() - i,
    {
        proof {
            reveal_with_fuel(expr_result, 1);
            reveal_with_fuel(args_result, 1);
            assert(decreases_to!(*e => e.inner));
            assert(decreases_to!(e.inner => e.inner->Call_args));
            assert(decreases_to!(e.inner->Call_args => e.inner->Call_args@));
            assert(decreases_to!(e.inner->Call_args@ => e.inner->Call_args@[i as int]));
        }
        let arg = type_expr(&args[i], env, names, errs, Ghost(bb));
        let arg_ty = arg.ty;
        if !PartialBasisType::is_eq(&arg_ty, &args_ty[i]) {
            report(
                errs,
                Error::new(
                    ErrorKind::TypeMismatch {
                        expected_type: args_ty[i],
                        found_type: arg_ty,
                        span: arg.span.clone(),
                    },
                ),
            );
        }
        typed_args.push(arg);
        proof {
            assert(args@.take(i + 1).drop_last() =~= args@.take(i as int));
        }
        i = i + 1;
    }
    proof {
        assert(args@.take(args@.len() as int) =~= args@);
    }
    let ghost tv = partial::exprs_node(typed_args@);
    let r = WithType::new(
        Some(
            partial::Expr::Call {
                name: WithSpan { inner: name.inner, span: name.span.clone() },
                args: typed_args,
            },
        ),
        ret_ty,
        e.span.clone(),
    );
    proof {
        assert(tv =~= args_result(args@, args_ty@, env@, nv).0);
        assert(expr_kind(r.inner.unwrap())->Call_2 =~= tv);
    }
    r
}

/// The type of `l + r` for operands of types `ty1` and `ty2`, reporting
/// what `add_outcome` reports.
fn type_add(ty1: PartialType, ty2: PartialType, span: &Span, errs: &mut Vec<Error>) -> (t:
    PartialType)
    ensures
        t == crate::rules::add_outcome(ty1, ty2, *span).0,
        errors_view(final(errs)@) == errors_view(old(errs)@) + crate::rules::add_outcome(
            ty1,
            ty2,
            *span,
        ).1,
{
    if ty1.is_ptr() && ty2.is_ptr() {
        report(
            errs,
            Error::new(
                ErrorKind::BuiltinBinopTypeMismatch {
                    left_type: ty1,
                    right_type: ty2,
                    span: span.clone(),
                    op: '+',
                },
            ).reason(Note::PointersCannotBeAdded).add_help(Note::SubtractPointersInstead),
        );
        PartialType::error_type()
    } else {
        let (a, b) = if ty2.is_ptr() {
            (ty2, ty1)
        } else {
            (ty1, ty2)
        };
        if a.is_ptr() {
            if !PartialBasisType::is_eq(&b, &PartialType::int_type()) {
                report(
                    errs,
                    Error::new(
                        ErrorKind::BuiltinBinopTypeMismatch {
                            left_type: a,
                            right_type: b,
                            span: span.clone(),
                            op: '+',
                        },
                    ),
                );
            }
            a
        } else if !PartialBasisType::is_eq(&a, &b) {
            report(
                errs,
                Error::new(
                    ErrorKind::BuiltinBinopTypeMismatch {
                        left_type: a,
                        right_type: b,
                        span: span.clone(),
                        op: '+',
                    },
                ).reason(Note::CastingUndefined(a, b)),
            );
            PartialType::error_type()
        } else if !PartialBasisType::is_eq(&a, &PartialType::int_type()) {
            report(
                errs,
                Error::new(
                    ErrorKind::BuiltinBinopTypeMismatch {
                        left_type: a,
                        right_type: b,
                        span: span.clone(),
                        op: '+',
                    },
                ).reason(Note::AdditionUndefined(a)),
            );
            PartialType::error_type()
        } else {
            PartialType::int_type()
        }
    }
}

/// The type of `l - r` for operands of types `ty1` and `ty2`, reporting
/// what `sub_outcome` reports.
fn type_sub(ty1: PartialType, ty2: PartialType, span: &Span, errs: &mut Vec<Error>) -> (t:
    PartialType)
    ensures
        t == crate::rules::sub_outcome(ty1, ty2, *span).0,
        errors_view(final(errs)@) == errors_view(old(errs)@) + crate::rules::sub_outcome(
            ty1,
            ty2,
            *span,
        ).1,
{
    if ty1.is_ptr() {
        if ty2.is_ptr() {
            if ty1 != ty2 {
                report(
                    errs,
                    Error::new(
                        ErrorKind::BuiltinBinopTypeMismatch {
                            left_type: ty1,
                            right_type: ty2,
                            span: span.clone(),
                            op: '-',
                        },
                    ).reason(Note::HeterogeneousPointers),
                );
                PartialType::error_type()
            } else {
                PartialType::int_type()
            }
        } else if !PartialBasisType::is_eq(&ty2, &PartialType::int_type()) {
            report(
                errs,
                Error::new(
                    ErrorKind::BuiltinBinopTypeMismatch {
                        left_type: ty1,
                        right_type: ty2,
                        span: span.clone(),
                        op: '-',
                    },
                ),
            );
            PartialType::error_type()
        } else {
            ty1
        }
    } else if !PartialBasisType::is_eq(&ty1, &PartialType::int_type())
        || !PartialBasisType::is_eq(&ty1, &ty2) {
        let mut error = Error::new(
            ErrorKind::BuiltinBinopTypeMismatch {
                left_type: ty1,
                right_type: ty2,
                span: span.clone(),
                op: '-',
            },
        );
        if PartialBasisType::is_eq(&ty1, &PartialType::int_type()) && ty2.is_ptr() {
            error = error.add_help(Note::SwapOperands);
        }
        report(errs, error);
        PartialType::error_type()
    } else {
        PartialType::int_type()
    }
}

} // verus!
