//! What checking says of operators, calls and `return`, for every input:
//! facts stated over the types of the operands, not over the rules'
//! own cases.
use vstd::prelude::*;
use beans::span::Span;
use crate::ast::{BinOp, Expr, FunDecl, Ident, Instr, is_lvalue};
use crate::env::{BindingV, EnvV, binding_of, fun_lookup, var_lookup};
use crate::program::lemma_first_main;
use crate::scope::{fun_distinct, lemma_fun_adds_itself};
use crate::span::span_sup;
use crate::error::{ErrorV, KindV, Note, plain};
use crate::model::{ExprKind, ExprNode};
use crate::rules::{
    BlockState, args_result, builtin_env, decls_fold, expr_result, first_def, fun_binding,
    exprs_result, fun_result, instr_result, item_step, main_errs, main_name, name_of, param_types, var_step,
};
use crate::span::WithSpan;
use crate::types::{
    PartialType, Type, compatible, error_t, from_basic, full_int, full_void, int_t, is_ptr, ptr_to, to_basic, void_ptr_t, void_t,
};

verus! {

/// The mismatch reported where a value of type `found` stands for one of
/// type `expected`.
pub open spec fn mismatch(span: Span, expected: PartialType, found: PartialType) -> ErrorV {
    plain(KindV::TypeMismatch { span, expected_type: expected, found_type: found })
}

/// Dereferencing a pointer whose pointee is not `void` gives the pointee:
/// the same basis with one indirection less, so that a pointer to the
/// result is the pointer's type; it reports nothing beyond the pointer's
/// own errors.
pub proof fn deref_gives_pointee(x: WithSpan<Expr>, span: Span, env: EnvV, names: Seq<Seq<char>>)
    requires
        is_ptr(expr_result(x, env, names).0.ty),
        expr_result(x, env, names).0.ty != void_ptr_t(),
    ensures
        ({
            let t = expr_result(x, env, names).0.ty;
            let r = expr_result(WithSpan { inner: Expr::Deref(Box::new(x)), span }, env, names);
            &&& r.0.ty.basis == t.basis
            &&& r.0.ty.indirection_count + 1 == t.indirection_count
            &&& ptr_to(r.0.ty) == t
            &&& r.0.inner == Some(ExprKind::Deref(Box::new(expr_result(x, env, names).0)))
            &&& r.0.span == span
            &&& r.1 == expr_result(x, env, names).1
        }),
{
    reveal_with_fuel(expr_result, 1);
    let r = expr_result(WithSpan { inner: Expr::Deref(Box::new(x)), span }, env, names);
    assert(r.1 =~= expr_result(x, env, names).1);
}

/// `return e;` is checked against the return type `ret` that the function
/// declares: a value of exactly that type (or of any type compatible with
/// it) adds no error to those of `e`; a value of a type not compatible
/// with it adds one mismatch that expects `ret` and finds the value's
/// type. The scope does not change.
pub proof fn return_checked_against_declared_type(
    e: WithSpan<Expr>,
    span: Span,
    lvl: usize,
    ret: PartialType,
    env: EnvV,
    names: Seq<Seq<char>>,
)
    ensures
        ({
            let n = expr_result(e, env, names).0;
            let es = expr_result(e, env, names).1;
            let r = instr_result(
                WithSpan { inner: Instr::Return(Some(e)), span },
                lvl,
                ret,
                env,
                names,
            );
            &&& n.ty == ret ==> r.1 == es
            &&& compatible(n.ty, ret) ==> r.1 == es
            &&& !compatible(n.ty, ret) ==> r.1 == es.push(mismatch(span, ret, n.ty))
            &&& r.2 == env
        }),
{
    let n = expr_result(e, env, names).0;
    let es = expr_result(e, env, names).1;
    let r = instr_result(WithSpan { inner: Instr::Return(Some(e)), span }, lvl, ret, env, names);
    if compatible(n.ty, ret) {
        assert(r.1 =~= es);
    } else {
        assert(r.1 =~= es.push(mismatch(span, ret, n.ty)));
    }
}

/// The type of argument `k` of a call.
pub open spec fn arg_type(args: Seq<WithSpan<Expr>>, k: int, env: EnvV, names: Seq<Seq<char>>) -> PartialType {
    expr_result(args[k], env, names).0.ty
}

/// Arguments checked against parameters position by position: arguments
/// without errors of their own whose types are those of the parameters
/// at the same positions add no error; an argument of a type not
/// compatible with the parameter at its position is reported with that
/// parameter's type.
proof fn args_checked_by_position(
    args: Seq<WithSpan<Expr>>,
    params: Seq<PartialType>,
    env: EnvV,
    names: Seq<Seq<char>>,
)
    requires
        args.len() <= params.len(),
    ensures
        args_result(args, params, env, names).0.len() == args.len(),
        forall|k: int|
            0 <= k < args.len() ==> #[trigger] args_result(args, params, env, names).0[k]
                == expr_result(args[k], env, names).0,
        (forall|k: int|
            0 <= k < args.len() ==> arg_type(args, k, env, names) == params[k] && expr_result(
                #[trigger] args[k],
                env,
                names,
            ).1.len() == 0) ==> args_result(args, params, env, names).1.len() == 0,
        forall|k: int|
            0 <= k < args.len() && !compatible(arg_type(args, k, env, names), params[k])
                ==> args_result(args, params, env, names).1.contains(
                mismatch(expr_result(#[trigger] args[k], env, names).0.span, params[k], arg_type(args, k, env, names)),
            ),
    decreases args.len(),
{
    reveal_with_fuel(expr_result, 1);
    reveal_with_fuel(args_result, 1);
    if args.len() > 0 {
        let d = args.drop_last();
        let last = args.len() - 1;
        args_checked_by_position(d, params, env, names);
        let es = args_result(d, params, env, names).1;
        let (n, e) = expr_result(args[last], env, names);
        let all = args_result(args, params, env, names).1;
        let ns = args_result(args, params, env, names).0;
        assert forall|k: int| 0 <= k < args.len() implies #[trigger] ns[k] == expr_result(
            args[k],
            env,
            names,
        ).0 by {
            if k < last {
                assert(d[k] == args[k]);
            }
        }
        if forall|k: int|
            0 <= k < args.len() ==> arg_type(args, k, env, names) == params[k] && expr_result(
                #[trigger] args[k],
                env,
                names,
            ).1.len() == 0 {
            assert forall|k: int| 0 <= k < d.len() implies arg_type(d, k, env, names) == params[k]
                && expr_result(#[trigger] d[k], env, names).1.len() == 0 by {
                assert(d[k] == args[k]);
            }
            assert(expr_result(args[last], env, names).1.len() == 0);
        }
        assert forall|k: int|
            0 <= k < args.len() && !compatible(arg_type(args, k, env, names), params[k]) implies all.contains(
            mismatch(expr_result(#[trigger] args[k], env, names).0.span, params[k], arg_type(args, k, env, names)),
        ) by {
            let m = mismatch(expr_result(args[k], env, names).0.span, params[k], arg_type(args, k, env, names));
            if k < last {
                assert(d[k] == args[k]);
                let j = choose|j: int| 0 <= j < es.len() && es[j] == m;
                assert(all[j] == m);
            } else {
                assert(all[(es.len() + e.len()) as int] == m);
            }
        }
    }
}

/// A call of a function in scope with the right number of arguments has
/// the function's return type, and its arguments are checked against the
/// parameters at their own positions: arguments without errors whose
/// types are exactly the parameters' add no error; the `k`-th argument,
/// when its type is not compatible with the `k`-th parameter's, is
/// reported with the `k`-th parameter's type.
pub proof fn call_arguments_checked_by_position(
    name: WithSpan<Ident>,
    args: Vec<WithSpan<Expr>>,
    span: Span,
    env: EnvV,
    names: Seq<Seq<char>>,
)
    requires
        fun_lookup(env, name.inner) is Some,
        args@.len() == fun_lookup(env, name.inner).unwrap().1.len(),
    ensures
        ({
            let f = fun_lookup(env, name.inner).unwrap();
            let r = expr_result(WithSpan { inner: Expr::Call { name, args }, span }, env, names);
            &&& r.0.ty == f.0
            &&& r.0.span == span
            &&& (r.0.inner matches Some(ExprKind::Call(n, s, ns)) && n == name.inner && s == name.span
                && ns.len() == args@.len() && forall|k: int|
                0 <= k < args@.len() ==> #[trigger] ns[k] == expr_result(args@[k], env, names).0)
            &&& (forall|k: int|
                0 <= k < args@.len() ==> arg_type(args@, k, env, names) == f.1[k] && expr_result(
                    #[trigger] args@[k],
                    env,
                    names,
                ).1.len() == 0) ==> r.1.len() == 0
            &&& forall|k: int|
                0 <= k < args@.len() && !compatible(arg_type(args@, k, env, names), f.1[k])
                    ==> r.1.contains(
                    mismatch(
                        expr_result(#[trigger] args@[k], env, names).0.span,
                        f.1[k],
                        arg_type(args@, k, env, names),
                    ),
                )
        }),
{
    reveal_with_fuel(expr_result, 1);
    let f = fun_lookup(env, name.inner).unwrap();
    args_checked_by_position(args@, f.1, env, names);
}

/// The operators `*`, `/`, `%`, `&`, `|`: the result is an `int`; an
/// operand on either side whose type is not compatible with `int` is
/// reported at that operand, expecting `int`; operands compatible with
/// `int` add no error.
pub proof fn arithmetic_needs_int_operands(
    op: BinOp,
    l: WithSpan<Expr>,
    r: WithSpan<Expr>,
    span: Span,
    env: EnvV,
    names: Seq<Seq<char>>,
)
    requires
        op == BinOp::Mul || op == BinOp::Div || op == BinOp::Mod || op == BinOp::BAnd || op
            == BinOp::BOr,
    ensures
        ({
            let ln = expr_result(l, env, names).0;
            let rn = expr_result(r, env, names).0;
            let own = expr_result(l, env, names).1 + expr_result(r, env, names).1;
            let res = expr_result(
                WithSpan { inner: Expr::Op { op, lhs: Box::new(l), rhs: Box::new(r) }, span },
                env,
                names,
            );
            &&& res.0.ty == int_t()
            &&& res.0.inner == Some(ExprKind::Op(op, Box::new(ln), Box::new(rn)))
            &&& res.0.span == span
            &&& !compatible(ln.ty, int_t()) ==> res.1.contains(mismatch(ln.span, int_t(), ln.ty))
            &&& !compatible(rn.ty, int_t()) ==> res.1.contains(mismatch(rn.span, int_t(), rn.ty))
            &&& compatible(ln.ty, int_t()) && compatible(rn.ty, int_t()) ==> res.1 == own
        }),
{
    reveal_with_fuel(expr_result, 1);
    let ln = expr_result(l, env, names).0;
    let rn = expr_result(r, env, names).0;
    let own = expr_result(l, env, names).1 + expr_result(r, env, names).1;
    let res = expr_result(
        WithSpan { inner: Expr::Op { op, lhs: Box::new(l), rhs: Box::new(r) }, span },
        env,
        names,
    );
    let lm: Seq<ErrorV> = if compatible(ln.ty, int_t()) {
        seq![]
    } else {
        seq![mismatch(ln.span, int_t(), ln.ty)]
    };
    let rm: Seq<ErrorV> = if compatible(rn.ty, int_t()) {
        seq![]
    } else {
        seq![mismatch(rn.span, int_t(), rn.ty)]
    };
    assert(res.1 =~= own + lm + rm);
    if !compatible(ln.ty, int_t()) {
        assert(res.1[own.len() as int] == mismatch(ln.span, int_t(), ln.ty));
    }
    if !compatible(rn.ty, int_t()) {
        assert(res.1[(own.len() + lm.len()) as int] == mismatch(rn.span, int_t(), rn.ty));
    }
}

/// Pointer arithmetic: a pointer plus or minus an operand compatible with
/// `int` (on either side for `+`) is of the pointer's type and adds no
/// error; a pointer minus a pointer of the same type is an `int` and adds
/// no error.
pub proof fn pointer_arithmetic(
    l: WithSpan<Expr>,
    r: WithSpan<Expr>,
    span: Span,
    env: EnvV,
    names: Seq<Seq<char>>,
)
    ensures
        ({
            let lt = expr_result(l, env, names).0.ty;
            let rt = expr_result(r, env, names).0.ty;
            let own = expr_result(l, env, names).1 + expr_result(r, env, names).1;
            let add = expr_result(
                WithSpan {
                    inner: Expr::Op { op: BinOp::Add, lhs: Box::new(l), rhs: Box::new(r) },
                    span,
                },
                env,
                names,
            );
            let sub = expr_result(
                WithSpan {
                    inner: Expr::Op { op: BinOp::Sub, lhs: Box::new(l), rhs: Box::new(r) },
                    span,
                },
                env,
                names,
            );
            &&& is_ptr(lt) && !is_ptr(rt) && compatible(rt, int_t()) ==> add.0.ty == lt && add.1
                == own
            &&& is_ptr(rt) && !is_ptr(lt) && compatible(lt, int_t()) ==> add.0.ty == rt && add.1
                == own
            &&& is_ptr(lt) && !is_ptr(rt) && compatible(rt, int_t()) ==> sub.0.ty == lt && sub.1
                == own
            &&& is_ptr(lt) && lt == rt ==> sub.0.ty == int_t() && sub.1 == own
        }),
{
    reveal_with_fuel(expr_result, 1);
    let own = expr_result(l, env, names).1 + expr_result(r, env, names).1;
    let lt = expr_result(l, env, names).0.ty;
    let rt = expr_result(r, env, names).0.ty;
    let add = expr_result(
        WithSpan { inner: Expr::Op { op: BinOp::Add, lhs: Box::new(l), rhs: Box::new(r) }, span },
        env,
        names,
    );
    let sub = expr_result(
        WithSpan { inner: Expr::Op { op: BinOp::Sub, lhs: Box::new(l), rhs: Box::new(r) }, span },
        env,
        names,
    );
    if is_ptr(lt) && !is_ptr(rt) && compatible(rt, int_t()) {
        assert(add.1 =~= own);
        assert(sub.1 =~= own);
    }
    if is_ptr(rt) && !is_ptr(lt) && compatible(lt, int_t()) {
        assert(add.1 =~= own);
    }
    if is_ptr(lt) && lt == rt {
        assert(sub.1 =~= own);
    }
}

/// A name in scope as a variable has the variable's type and no error; a
/// name that is not a variable in scope is reported as unknown, at the
/// use, and has the error type.
pub proof fn variable_use(x: Ident, span: Span, env: EnvV, names: Seq<Seq<char>>)
    ensures
        ({
            let r = expr_result(WithSpan { inner: Expr::Ident(x), span }, env, names);
            match var_lookup(env, x) {
                Some(t) => r.0 == ExprNode { inner: Some(ExprKind::Ident(x)), ty: t, span }
                    && r.1.len() == 0,
                None => r.0.ty == error_t() && r.1 == seq![
                    plain(KindV::NameError { name: names[x as int], span }),
                ],
            }
        }),
{
    reveal_with_fuel(expr_result, 1);
}

/// `&x` points to `x`'s type; taking the address of something that is not
/// a place is reported, at `&x`, before `x`'s own errors.
pub proof fn address_of_points_to_operand(x: WithSpan<Expr>, span: Span, env: EnvV, names: Seq<Seq<char>>)
    ensures
        ({
            let xr = expr_result(x, env, names);
            let r = expr_result(WithSpan { inner: Expr::Addr(Box::new(x)), span }, env, names);
            &&& r.0.ty == ptr_to(xr.0.ty)
            &&& r.0.inner == Some(ExprKind::Addr(Box::new(xr.0))) && r.0.span == span
            &&& is_lvalue(x.inner) ==> r.1 == xr.1
            &&& !is_lvalue(x.inner) ==> r.1.len() == xr.1.len() + 1 && r.1[0].kind == (
            KindV::AddressOfRvalue { span, expression_span: x.span })
        }),
{
    reveal_with_fuel(expr_result, 1);
    let r = expr_result(WithSpan { inner: Expr::Addr(Box::new(x)), span }, env, names);
    if is_lvalue(x.inner) {
        assert(r.1 =~= expr_result(x, env, names).1);
    }
}

/// `l = r` has the type of its left side (when that is known); a right
/// side not compatible with the left one is reported at the assignment,
/// expecting the left type; a left side that is not a place is reported.
pub proof fn assignment_takes_left_type(
    l: WithSpan<Expr>,
    r: WithSpan<Expr>,
    span: Span,
    env: EnvV,
    names: Seq<Seq<char>>,
)
    ensures
        ({
            let ln = expr_result(l, env, names).0;
            let rn = expr_result(r, env, names).0;
            let own = expr_result(l, env, names).1 + expr_result(r, env, names).1;
            let res = expr_result(
                WithSpan { inner: Expr::Assign { lhs: Box::new(l), rhs: Box::new(r) }, span },
                env,
                names,
            );
            &&& ln.ty != error_t() ==> res.0.ty == ln.ty
            &&& res.0.inner == Some(ExprKind::Assign(Box::new(ln), Box::new(rn)))
            &&& res.0.span == span
            &&& is_lvalue(l.inner) && compatible(ln.ty, rn.ty) ==> res.1 == own
            &&& !compatible(ln.ty, rn.ty) ==> res.1.contains(mismatch(span, ln.ty, rn.ty))
            &&& !is_lvalue(l.inner) ==> res.1.contains(
                plain(KindV::RvalueAssignment { span: l.span }),
            )
        }),
{
    reveal_with_fuel(expr_result, 1);
    let ln = expr_result(l, env, names).0;
    let rn = expr_result(r, env, names).0;
    let own = expr_result(l, env, names).1 + expr_result(r, env, names).1;
    let res = expr_result(
        WithSpan { inner: Expr::Assign { lhs: Box::new(l), rhs: Box::new(r) }, span },
        env,
        names,
    );
    let pre: Seq<ErrorV> = if is_lvalue(l.inner) {
        seq![]
    } else {
        seq![plain(KindV::RvalueAssignment { span: l.span })]
    };
    let mm: Seq<ErrorV> = if compatible(ln.ty, rn.ty) {
        seq![]
    } else {
        seq![mismatch(span, ln.ty, rn.ty)]
    };
    assert(res.1 =~= pre + own + mm);
    if !compatible(ln.ty, rn.ty) {
        assert(res.1[(pre.len() + own.len()) as int] == mismatch(span, ln.ty, rn.ty));
    }
    if !is_lvalue(l.inner) {
        assert(res.1[0] == plain(KindV::RvalueAssignment { span: l.span }));
    }
}

/// `++x`, `--x`, `x++`, `x--` have `x`'s type; each reports an operand
/// that is not a place, at the whole expression, and nothing else.
pub proof fn increments_keep_type(x: WithSpan<Expr>, span: Span, env: EnvV, names: Seq<Seq<char>>)
    ensures
        ({
            let xr = expr_result(x, env, names);
            let e1 = expr_result(WithSpan { inner: Expr::PrefixIncr(Box::new(x)), span }, env, names);
            let e2 = expr_result(WithSpan { inner: Expr::PrefixDecr(Box::new(x)), span }, env, names);
            let e3 = expr_result(WithSpan { inner: Expr::PostfixIncr(Box::new(x)), span }, env, names);
            let e4 = expr_result(WithSpan { inner: Expr::PostfixDecr(Box::new(x)), span }, env, names);
            let pre: Seq<ErrorV> = if is_lvalue(x.inner) {
                seq![]
            } else {
                seq![plain(KindV::IncrOrDecrRvalue { span, expression_span: x.span })]
            };
            &&& e1.0.ty == xr.0.ty && e2.0.ty == xr.0.ty && e3.0.ty == xr.0.ty && e4.0.ty == xr.0.ty
            &&& e1.0.inner == Some(ExprKind::PrefixIncr(Box::new(xr.0))) && e1.0.span == span
            &&& e2.0.inner == Some(ExprKind::PrefixDecr(Box::new(xr.0))) && e2.0.span == span
            &&& e3.0.inner == Some(ExprKind::PostfixIncr(Box::new(xr.0))) && e3.0.span == span
            &&& e4.0.inner == Some(ExprKind::PostfixDecr(Box::new(xr.0))) && e4.0.span == span
            &&& e1.1 == pre + xr.1 && e2.1 == pre + xr.1 && e3.1 == pre + xr.1 && e4.1 == pre + xr.1
        }),
{
    reveal_with_fuel(expr_result, 1);
}

/// `-x` and `+x` are `int`s, and report an operand not compatible with
/// `int`; `!x` is an `int` and reports a `void` operand.
pub proof fn unary_operators(x: WithSpan<Expr>, span: Span, env: EnvV, names: Seq<Seq<char>>)
    ensures
        ({
            let xr = expr_result(x, env, names);
            let neg = expr_result(WithSpan { inner: Expr::Neg(Box::new(x)), span }, env, names);
            let pos = expr_result(WithSpan { inner: Expr::Pos(Box::new(x)), span }, env, names);
            let not = expr_result(WithSpan { inner: Expr::Not(Box::new(x)), span }, env, names);
            let m: Seq<ErrorV> = if compatible(xr.0.ty, int_t()) {
                seq![]
            } else {
                seq![mismatch(xr.0.span, int_t(), xr.0.ty)]
            };
            let v: Seq<ErrorV> = if xr.0.ty == void_t() {
                seq![plain(KindV::VoidExpression { span: xr.0.span })]
            } else {
                seq![]
            };
            &&& neg.0.ty == int_t() && pos.0.ty == int_t() && not.0.ty == int_t()
            &&& neg.0.inner == Some(ExprKind::Neg(Box::new(xr.0))) && neg.0.span == span
            &&& pos.0.inner == Some(ExprKind::Pos(Box::new(xr.0))) && pos.0.span == span
            &&& not.0.inner == Some(ExprKind::Not(Box::new(xr.0))) && not.0.span == span
            &&& neg.1 == xr.1 + m && pos.1 == xr.1 + m
            &&& not.1 == xr.1 + v
        }),
{
    reveal_with_fuel(expr_result, 1);
    let xr = expr_result(x, env, names);
    let neg = expr_result(WithSpan { inner: Expr::Neg(Box::new(x)), span }, env, names);
    let pos = expr_result(WithSpan { inner: Expr::Pos(Box::new(x)), span }, env, names);
    let not = expr_result(WithSpan { inner: Expr::Not(Box::new(x)), span }, env, names);
    if compatible(xr.0.ty, int_t()) {
        assert(neg.1 =~= xr.1 + Seq::<ErrorV>::empty());
        assert(pos.1 =~= xr.1 + Seq::<ErrorV>::empty());
    }
    if xr.0.ty != void_t() {
        assert(not.1 =~= xr.1 + Seq::<ErrorV>::empty());
    }
}

/// Comparisons are `int`s; operands that are not `void` and compatible
/// (the right with the left) add no error; a right operand not compatible
/// with the left is reported at the right operand, expecting the left
/// type; a `void` operand is reported at that operand.
pub proof fn comparisons(
    op: BinOp,
    l: WithSpan<Expr>,
    r: WithSpan<Expr>,
    span: Span,
    env: EnvV,
    names: Seq<Seq<char>>,
)
    requires
        op == BinOp::Eq || op == BinOp::NEq || op == BinOp::Lt || op == BinOp::Le || op == BinOp::Gt
            || op == BinOp::Ge,
    ensures
        ({
            let ln = expr_result(l, env, names).0;
            let rn = expr_result(r, env, names).0;
            let own = expr_result(l, env, names).1 + expr_result(r, env, names).1;
            let res = expr_result(
                WithSpan { inner: Expr::Op { op, lhs: Box::new(l), rhs: Box::new(r) }, span },
                env,
                names,
            );
            &&& res.0.ty == int_t()
            &&& res.0.inner == Some(ExprKind::Op(op, Box::new(ln), Box::new(rn)))
            &&& res.0.span == span
            &&& ln.ty != void_t() && rn.ty != void_t() && compatible(ln.ty, rn.ty) ==> res.1 == own
            &&& !compatible(ln.ty, rn.ty) ==> exists|i: int|
                0 <= i < res.1.len() && res.1[i].kind == (KindV::TypeMismatch {
                    span: rn.span,
                    expected_type: ln.ty,
                    found_type: rn.ty,
                })
            &&& ln.ty == void_t() ==> res.1.contains(plain(KindV::VoidExpression { span: ln.span }))
            &&& rn.ty == void_t() ==> res.1.contains(plain(KindV::VoidExpression { span: rn.span }))
        }),
{
    reveal_with_fuel(expr_result, 1);
    let ln = expr_result(l, env, names).0;
    let rn = expr_result(r, env, names).0;
    let own = expr_result(l, env, names).1 + expr_result(r, env, names).1;
    let res = expr_result(
        WithSpan { inner: Expr::Op { op, lhs: Box::new(l), rhs: Box::new(r) }, span },
        env,
        names,
    );
    let vl: Seq<ErrorV> = if ln.ty == void_t() {
        seq![plain(KindV::VoidExpression { span: ln.span })]
    } else {
        seq![]
    };
    let vr: Seq<ErrorV> = if rn.ty == void_t() {
        seq![plain(KindV::VoidExpression { span: rn.span })]
    } else {
        seq![]
    };
    let c = crate::rules::comparison_errs(ln, rn);
    assert(res.1 =~= own + c);
    assert(c =~= vl + vr + (if compatible(ln.ty, rn.ty) {
        Seq::<ErrorV>::empty()
    } else {
        c.subrange((vl.len() + vr.len()) as int, c.len() as int)
    }));
    if ln.ty == void_t() {
        assert(res.1[own.len() as int] == plain(KindV::VoidExpression { span: ln.span }));
    }
    if rn.ty == void_t() {
        assert(res.1[(own.len() + vl.len()) as int] == plain(KindV::VoidExpression { span: rn.span }));
    }
    if !compatible(ln.ty, rn.ty) {
        assert(res.1[(own.len() + vl.len() + vr.len()) as int].kind == (KindV::TypeMismatch {
            span: rn.span,
            expected_type: ln.ty,
            found_type: rn.ty,
        }));
    }
}

/// A call of a name that is not a function in scope is reported at the
/// name and has the error type; a call with a wrong number of arguments
/// is reported once, with both counts, and has the function's return type.
pub proof fn call_of_unknown_or_with_wrong_arity(
    name: WithSpan<Ident>,
    args: Vec<WithSpan<Expr>>,
    span: Span,
    env: EnvV,
    names: Seq<Seq<char>>,
)
    ensures
        ({
            let r = expr_result(WithSpan { inner: Expr::Call { name, args }, span }, env, names);
            match fun_lookup(env, name.inner) {
                None => r.0.ty == error_t() && r.1 == seq![
                    plain(KindV::NameError { name: names[name.inner as int], span: name.span }),
                ],
                Some(f) => args@.len() != f.1.len() ==> r.0.ty == f.0 && r.1.len() == 1 && r.1[0].kind
                    == (KindV::ArityMismatch {
                    found_arity: args@.len() as usize,
                    expected_arity: f.1.len() as usize,
                    span,
                    definition_span: f.2,
                    function_name: names[name.inner as int],
                }),
            }
        }),
{
    reveal_with_fuel(expr_result, 1);
}

/// `sizeof` is an `int`; `sizeof(void)` is reported.
pub proof fn sizeof_is_int(t: WithSpan<Type>, span: Span, env: EnvV, names: Seq<Seq<char>>)
    ensures
        ({
            let r = expr_result(WithSpan { inner: Expr::SizeOf(t), span }, env, names);
            &&& r.0.ty == int_t()
            &&& t.inner == full_void() ==> r.1 == seq![plain(KindV::SizeofVoid { span })]
            &&& t.inner != full_void() ==> r.1.len() == 0
        }),
{
    reveal_with_fuel(expr_result, 1);
}

/// `break` and `continue` are accepted exactly inside a loop: at loop
/// depth 0 each is reported once, at the jump; deeper, nothing is.
pub proof fn jumps_only_in_loops(span: Span, lvl: usize, ret: PartialType, env: EnvV, names: Seq<Seq<char>>)
    ensures
        ({
            let b = instr_result(WithSpan { inner: Instr::Break, span }, lvl, ret, env, names);
            let c = instr_result(WithSpan { inner: Instr::Continue, span }, lvl, ret, env, names);
            &&& lvl == 0 ==> b.1 == seq![plain(KindV::BreakContinueOutsideLoop { span })] && c.1
                == seq![plain(KindV::BreakContinueOutsideLoop { span })]
            &&& lvl > 0 ==> b.1.len() == 0 && c.1.len() == 0
            &&& b.2 == env && c.2 == env
        }),
{
}

/// The body of a loop is one loop deeper: a `while` or a `for` whose body
/// is a `break` and whose condition is not `void` reports only its
/// condition's errors, at any depth, and its body is at the next depth.
pub proof fn loop_bodies_are_inside_the_loop(
    cond: WithSpan<Expr>,
    incr: Vec<WithSpan<Expr>>,
    body_span: Span,
    span: Span,
    lvl: usize,
    ret: PartialType,
    env: EnvV,
    names: Seq<Seq<char>>,
)
    requires
        lvl < usize::MAX,
        incr@.len() == 0,
        expr_result(cond, env, names).0.ty != void_t(),
    ensures
        ({
            let body = Box::new(WithSpan { inner: Instr::Break, span: body_span });
            let w = instr_result(
                WithSpan { inner: Instr::While { cond, body }, span },
                lvl,
                ret,
                env,
                names,
            );
            let f = instr_result(
                WithSpan { inner: Instr::For { loop_var: None, cond: Some(cond), incr, body }, span },
                lvl,
                ret,
                env,
                names,
            );
            &&& w.1 == expr_result(cond, env, names).1
            &&& f.1 == expr_result(cond, env, names).1
            &&& (w.0.instr matches crate::model::InstrKind::While(_, b) && b.loop_level == lvl + 1)
            &&& (f.0.instr matches crate::model::InstrKind::For(_, _, _, b) && b.loop_level == lvl + 1)
        }),
{
    let body = Box::new(WithSpan { inner: Instr::Break, span: body_span });
    let ce = expr_result(cond, env, names).1;
    let w = instr_result(WithSpan { inner: Instr::While { cond, body }, span }, lvl, ret, env, names);
    let f = instr_result(
        WithSpan { inner: Instr::For { loop_var: None, cond: Some(cond), incr, body }, span },
        lvl,
        ret,
        env,
        names,
    );
    let ie = crate::rules::exprs_result(incr@, env, names).1;
    assert(incr@ =~= Seq::<WithSpan<Expr>>::empty());
    assert(ie.len() == 0);
    assert(instr_result(*body, (lvl + 1) as usize, ret, env, names).1.len() == 0);
    assert(w.1 =~= ce);
    assert(f == crate::rules::for_result(Some(cond), incr@, *body, span, lvl, ret, env, names));
    assert(f.1 =~= ce);
}

/// The condition of an `if` or a `while` may not be `void`: a `void`
/// condition is reported at the condition.
pub proof fn conditions_are_not_void(
    cond: WithSpan<Expr>,
    body: WithSpan<Instr>,
    span: Span,
    lvl: usize,
    ret: PartialType,
    env: EnvV,
    names: Seq<Seq<char>>,
)
    requires
        lvl < usize::MAX,
        expr_result(cond, env, names).0.ty == void_t(),
    ensures
        ({
            let v = plain(KindV::VoidExpression { span: expr_result(cond, env, names).0.span });
            &&& instr_result(
                WithSpan {
                    inner: Instr::If {
                        cond,
                        then_branch: Box::new(body),
                        else_branch: Box::new(None),
                    },
                    span,
                },
                lvl,
                ret,
                env,
                names,
            ).1.contains(v)
            &&& instr_result(
                WithSpan { inner: Instr::While { cond, body: Box::new(body) }, span },
                lvl,
                ret,
                env,
                names,
            ).1.contains(v)
        }),
{
    let v = plain(KindV::VoidExpression { span: expr_result(cond, env, names).0.span });
    let i = instr_result(
        WithSpan { inner: Instr::If { cond, then_branch: Box::new(body), else_branch: Box::new(None) }, span },
        lvl,
        ret,
        env,
        names,
    );
    let w = instr_result(
        WithSpan { inner: Instr::While { cond, body: Box::new(body) }, span },
        lvl,
        ret,
        env,
        names,
    );
    assert(i.1[i.1.len() - 1] == v);
    assert(w.1[w.1.len() - 1] == v);
}

/// `return;` is accepted in a `void` function only; elsewhere it is
/// reported once, expecting the declared return type and finding `void`.
pub proof fn bare_return(span: Span, lvl: usize, ret: PartialType, env: EnvV, names: Seq<Seq<char>>)
    ensures
        ({
            let r = instr_result(WithSpan { inner: Instr::Return(None), span }, lvl, ret, env, names);
            &&& ret == void_t() ==> r.1.len() == 0
            &&& ret != void_t() ==> r.1.len() == 1 && r.1[0].kind == (KindV::TypeMismatch {
                span,
                expected_type: ret,
                found_type: void_t(),
            })
        }),
{
}

/// Declaring a variable: from then on its name stands for a variable of
/// the declared type; a `void` variable is reported; a name declared
/// before in the same block is reported with that first declaration; the
/// initial value, checked with the variable in scope, is reported when
/// not compatible with the declared type; otherwise nothing is added but
/// the value's own errors.
pub proof fn variable_declaration(
    st: BlockState,
    ty: WithSpan<Type>,
    name: WithSpan<Ident>,
    value: Option<WithSpan<Expr>>,
    span: Span,
    names: Seq<Seq<char>>,
)
    ensures
        ({
            let t = from_basic(ty.inner);
            let env1 = st.env.insert(name.inner, (BindingV::Var(t), Some(span)));
            let r = var_step(st, ty, name, value, span, names);
            let x = name.inner;
            &&& r.env == env1
            &&& var_lookup(r.env, x) == Some(t)
            &&& ty.inner == full_void() ==> r.errs.contains(
                plain(KindV::VoidVariable { span, name: names[x as int] }),
            )
            &&& first_def(st.saved, x) matches Some(first) ==> r.errs.contains(
                plain(
                    KindV::SymbolDefinedTwice {
                        first_definition: first,
                        second_definition: span,
                        name: names[x as int],
                    },
                ),
            )
            &&& ty.inner != full_void() && first_def(st.saved, x) is None && value is None ==> r.errs
                == st.errs
            &&& value matches Some(v) ==> {
                let vn = expr_result(v, env1, names);
                &&& ty.inner != full_void() && first_def(st.saved, x) is None && compatible(vn.0.ty, t)
                    ==> r.errs == st.errs + vn.1
                &&& !compatible(vn.0.ty, t) ==> r.errs.contains(
                    plain(
                        KindV::VariableTypeMismatch {
                            expected_type: t,
                            found_type: vn.0.ty,
                            span: vn.0.span,
                            definition_span: span_sup(ty.span, name.span),
                            variable_name: names[x as int],
                        },
                    ),
                )
            }
        }),
{
    reveal_with_fuel(var_step, 1);
    let t = from_basic(ty.inner);
    let x = name.inner;
    let env1 = st.env.insert(x, (BindingV::Var(t), Some(span)));
    let r = var_step(st, ty, name, value, span, names);
    let e0: Seq<ErrorV> = if ty.inner == full_void() {
        seq![plain(KindV::VoidVariable { span, name: names[x as int] })]
    } else {
        seq![]
    };
    let e1 = crate::rules::redef_errs(st.saved, x, span, names);
    if ty.inner == full_void() {
        assert(r.errs[st.errs.len() as int] == plain(KindV::VoidVariable { span, name: names[x as int] }));
    }
    if first_def(st.saved, x) is Some {
        assert(r.errs[(st.errs.len() + e0.len()) as int] == e1[0]);
    }
    match value {
        None => {
            if ty.inner != full_void() && first_def(st.saved, x) is None {
                assert(r.errs =~= st.errs);
            }
        },
        Some(v) => {
            let vn = expr_result(v, env1, names);
            if ty.inner != full_void() && first_def(st.saved, x) is None && compatible(vn.0.ty, t) {
                assert(r.errs =~= st.errs + vn.1);
            }
            if !compatible(vn.0.ty, t) {
                assert(r.errs[(st.errs.len() + e0.len() + e1.len() + vn.1.len()) as int] == plain(
                    KindV::VariableTypeMismatch {
                        expected_type: t,
                        found_type: vn.0.ty,
                        span: vn.0.span,
                        definition_span: span_sup(ty.span, name.span),
                        variable_name: names[x as int],
                    },
                ));
            }
        },
    }
}

/// A program needs a `main` function: without a top-level function named
/// `main` the check reports exactly that; when the first one named `main`
/// returns `int` and takes nothing, the check reports nothing, and else it
/// reports that function's type.
pub proof fn main_function_required(ds: Seq<WithSpan<FunDecl>>, names: Seq<Seq<char>>, k: int)
    requires
        0 <= k <= ds.len(),
        forall|j: int| 0 <= j < k ==> name_of(names, (#[trigger] ds[j]).inner.name.inner) != main_name(),
    ensures
        k == ds.len() ==> main_errs(ds, names) == seq![plain(KindV::NoMainFunction)],
        k < ds.len() && name_of(names, ds[k].inner.name.inner) == main_name() ==> {
            let d = ds[k];
            let good = d.inner.ty.inner == full_int() && d.inner.params@.len() == 0;
            &&& good ==> main_errs(ds, names).len() == 0
            &&& !good ==> main_errs(ds, names).len() == 1 && main_errs(ds, names)[0].kind == (
            KindV::IncorrectMainFunctionType {
                ty: d.inner.ty.inner,
                params: param_types(d.inner.params@),
                span: d.span,
            })
        },
{
    lemma_first_main(ds, names, k);
}

/// Top-level functions are checked in order: a function whose name is a
/// function in the scope that the earlier ones (and the built-in ones)
/// make is reported as defined twice, with that first definition; and a
/// function whose parameters and own declarations have distinct names is
/// in the scope of the later ones, with its return and parameter types.
pub proof fn top_level_functions(ds: Seq<WithSpan<FunDecl>>, d: WithSpan<FunDecl>, names: Seq<Seq<char>>)
    ensures
        ({
            let before = decls_fold(ds, names);
            let after = decls_fold(ds.push(d), names);
            let x = d.inner.name.inner;
            &&& fun_lookup(before.0, x) matches Some(f) ==> after.2.contains(
                plain(
                    KindV::FunctionDefinedTwice {
                        first_definition: f.2,
                        second_definition: d.span,
                        name: name_of(names, x),
                    },
                ),
            )
            &&& fun_lookup(before.0, x) is None ==> after.2 == before.2 + fun_result(
                d,
                before.0,
                names,
            ).1
            &&& fun_distinct(d) ==> (fun_lookup(after.0, x) matches Some(g) && g.0 == from_basic(
                d.inner.ty.inner,
            ) && g.1 == param_types(d.inner.params@))
        }),
{
    let s = ds.push(d);
    assert(s.drop_last() =~= ds);
    let before = decls_fold(ds, names);
    let after = decls_fold(s, names);
    let x = d.inner.name.inner;
    match fun_lookup(before.0, x) {
        Some(f) => {
            assert(after.2[before.2.len() as int] == plain(
                KindV::FunctionDefinedTwice {
                    first_definition: f.2,
                    second_definition: d.span,
                    name: name_of(names, x),
                },
            ));
        },
        None => {
            assert(after.2 =~= before.2 + fun_result(d, before.0, names).1);
        },
    }
    if fun_distinct(d) {
        lemma_fun_adds_itself(d, before.0, names);
        let e2 = before.0.insert(x, (fun_binding(d.inner), Some(d.span)));
        assert(e2.contains_key(x));
        assert(after.0.contains_key(x));
    }
}

/// At the start of a program the scope holds the two built-in functions:
/// name 0 returns `void*` from an `int`, name 1 returns `int` from an
/// `int`, and neither has a definition.
pub proof fn builtin_functions()
    ensures
        decls_fold(Seq::<WithSpan<FunDecl>>::empty(), Seq::empty()).0 == builtin_env(),
        fun_lookup(builtin_env(), 0) == Some((void_ptr_t(), seq![int_t()], None::<Span>)),
        fun_lookup(builtin_env(), 1) == Some((int_t(), seq![int_t()], None::<Span>)),
{
}

/// More of `+` and `-`: two pointers cannot be added, nor can pointers of
/// different types be subtracted; non-pointers that are not compatible
/// cannot be added, and non-pointer operands other than `int` and `bool`
/// cannot be added either. Each such case has the error type and reports
/// one error naming both operand types, with its reason; two `int`
/// operands make an `int`, with no error.
pub proof fn additions_and_subtractions(
    l: WithSpan<Expr>,
    r: WithSpan<Expr>,
    span: Span,
    env: EnvV,
    names: Seq<Seq<char>>,
)
    ensures
        ({
            let lt = expr_result(l, env, names).0.ty;
            let rt = expr_result(r, env, names).0.ty;
            let own = expr_result(l, env, names).1 + expr_result(r, env, names).1;
            let add = expr_result(
                WithSpan {
                    inner: Expr::Op { op: BinOp::Add, lhs: Box::new(l), rhs: Box::new(r) },
                    span,
                },
                env,
                names,
            );
            let sub = expr_result(
                WithSpan {
                    inner: Expr::Op { op: BinOp::Sub, lhs: Box::new(l), rhs: Box::new(r) },
                    span,
                },
                env,
                names,
            );
            let mismatch_of = |o: char, why: Option<Note>, help: Seq<Note>|
                ErrorV {
                    kind: KindV::BuiltinBinopTypeMismatch {
                        left_type: lt,
                        right_type: rt,
                        span,
                        op: o,
                    },
                    reason: why,
                    help,
                };
            &&& is_ptr(lt) && is_ptr(rt) ==> add.0.ty == error_t() && add.1 == own.push(
                mismatch_of('+', Some(Note::PointersCannotBeAdded), seq![Note::SubtractPointersInstead]),
            )
            &&& is_ptr(lt) && is_ptr(rt) && lt != rt ==> sub.0.ty == error_t() && sub.1 == own.push(
                mismatch_of('-', Some(Note::HeterogeneousPointers), seq![]),
            )
            &&& !is_ptr(lt) && !is_ptr(rt) && !compatible(lt, rt) ==> add.0.ty == error_t() && add.1
                == own.push(mismatch_of('+', Some(Note::CastingUndefined(lt, rt)), seq![]))
            &&& !is_ptr(lt) && !is_ptr(rt) && compatible(lt, rt) && !compatible(lt, int_t())
                ==> add.0.ty == error_t() && add.1 == own.push(
                mismatch_of('+', Some(Note::AdditionUndefined(lt)), seq![]),
            )
            &&& lt == int_t() && rt == int_t() ==> add.0.ty == int_t() && add.1 == own
                && sub.0.ty == int_t() && sub.1 == own
        }),
{
    reveal_with_fuel(expr_result, 1);
    let own = expr_result(l, env, names).1 + expr_result(r, env, names).1;
    let add = expr_result(
        WithSpan { inner: Expr::Op { op: BinOp::Add, lhs: Box::new(l), rhs: Box::new(r) }, span },
        env,
        names,
    );
    let sub = expr_result(
        WithSpan { inner: Expr::Op { op: BinOp::Sub, lhs: Box::new(l), rhs: Box::new(r) }, span },
        env,
        names,
    );
    let lt = expr_result(l, env, names).0.ty;
    let rt = expr_result(r, env, names).0.ty;
    if lt == int_t() && rt == int_t() {
        assert(add.1 =~= own);
        assert(sub.1 =~= own);
    }
}

/// Dereferencing `void*` is reported at the operand and has the error
/// type; dereferencing a non-pointer of a known type is reported with
/// that type; an operand of the error type adds nothing more.
pub proof fn deref_of_non_pointers(x: WithSpan<Expr>, span: Span, env: EnvV, names: Seq<Seq<char>>)
    ensures
        ({
            let xn = expr_result(x, env, names).0;
            let xe = expr_result(x, env, names).1;
            let r = expr_result(WithSpan { inner: Expr::Deref(Box::new(x)), span }, env, names);
            &&& xn.ty == void_ptr_t() ==> r.0.ty == error_t() && r.1 == xe.push(
                plain(KindV::DerefVoidPointer { span: xn.span }),
            )
            &&& !is_ptr(xn.ty) ==> r.0.ty == error_t()
            &&& !is_ptr(xn.ty) && to_basic(xn.ty) is Some ==> r.1 == xe.push(
                plain(KindV::DerefNonPointer { ty: to_basic(xn.ty).unwrap(), span: xn.span }),
            )
            &&& !is_ptr(xn.ty) && to_basic(xn.ty) is None ==> r.1 == xe
        }),
{
    reveal_with_fuel(expr_result, 1);
    let xn = expr_result(x, env, names).0;
    let xe = expr_result(x, env, names).1;
    let r = expr_result(WithSpan { inner: Expr::Deref(Box::new(x)), span }, env, names);
    if !is_ptr(xn.ty) && to_basic(xn.ty) is None {
        assert(r.1 =~= xe);
    }
}

/// A list of expressions (the increments of a `for`) is checked in
/// order, each in the same scope: its typed expressions are those of its
/// members in order, and its errors are theirs, in order.
pub proof fn expression_lists_in_order(a: WithSpan<Expr>, b: WithSpan<Expr>, env: EnvV, names: Seq<Seq<char>>)
    ensures
        exprs_result(seq![a, b], env, names).0 == seq![
            expr_result(a, env, names).0,
            expr_result(b, env, names).0,
        ],
        exprs_result(seq![a, b], env, names).1 == expr_result(a, env, names).1 + expr_result(
            b,
            env,
            names,
        ).1,
{
    let s = seq![a, b];
    assert(s.drop_last() =~= seq![a]);
    assert(s.drop_last().drop_last() =~= Seq::<WithSpan<Expr>>::empty());
    let z = exprs_result(s.drop_last().drop_last(), env, names);
    assert(z.0 =~= Seq::<crate::model::ExprNode>::empty());
    assert(z.1 =~= Seq::<ErrorV>::empty());
    assert(s.drop_last().last() == a);
    assert(s.last() == b);
    assert(exprs_result(s.drop_last(), env, names).0 =~= seq![expr_result(a, env, names).0]);
    assert(exprs_result(s.drop_last(), env, names).1 =~= expr_result(a, env, names).1);
    assert(exprs_result(s, env, names).0 =~= seq![
        expr_result(a, env, names).0,
        expr_result(b, env, names).0,
    ]);
}

/// The condition of a `for` may not be `void` either.
pub proof fn for_condition_is_not_void(
    cond: WithSpan<Expr>,
    incr: Vec<WithSpan<Expr>>,
    body: WithSpan<Instr>,
    span: Span,
    lvl: usize,
    ret: PartialType,
    env: EnvV,
    names: Seq<Seq<char>>,
)
    requires
        lvl < usize::MAX,
        expr_result(cond, env, names).0.ty == void_t(),
    ensures
        instr_result(
            WithSpan {
                inner: Instr::For { loop_var: None, cond: Some(cond), incr, body: Box::new(body) },
                span,
            },
            lvl,
            ret,
            env,
            names,
        ).1.contains(plain(KindV::VoidExpression { span: expr_result(cond, env, names).0.span })),
{
    let f = instr_result(
        WithSpan {
            inner: Instr::For { loop_var: None, cond: Some(cond), incr, body: Box::new(body) },
            span,
        },
        lvl,
        ret,
        env,
        names,
    );
    assert(f == crate::rules::for_result(Some(cond), incr@, body, span, lvl, ret, env, names));
    assert(f.1[f.1.len() - 1] == plain(KindV::VoidExpression { span: expr_result(cond, env, names).0.span }));
}

/// Declaring a function in a block: a name declared before in the same
/// block is reported with its first declaration; from then on the name
/// stands for the function, declared here; what it stood for before is
/// saved, to be given back when the block ends.
pub proof fn nested_function_declaration(
    st: BlockState,
    fd: WithSpan<FunDecl>,
    lvl: usize,
    ret: PartialType,
    names: Seq<Seq<char>>,
)
    ensures
        ({
            let x = fd.inner.name.inner;
            let r = item_step(st, crate::ast::DeclOrInstr::Fun(fd), lvl, ret, names);
            &&& first_def(st.saved, x) matches Some(first) ==> r.errs.contains(
                plain(
                    KindV::SymbolDefinedTwice {
                        first_definition: first,
                        second_definition: fd.span,
                        name: names[x as int],
                    },
                ),
            )
            &&& first_def(st.saved, x) is None ==> r.errs == st.errs + fun_result(fd, st.env, names).1
            &&& r.env.contains_key(x) && r.env[x] == (fun_binding(fd.inner), Some(fd.span))
            &&& r.saved.len() == st.saved.len() + 1
            &&& r.saved.last().name == x && r.saved.last().old == binding_of(st.env, x)
        }),
{
    let x = fd.inner.name.inner;
    let r = item_step(st, crate::ast::DeclOrInstr::Fun(fd), lvl, ret, names);
    match first_def(st.saved, x) {
        Some(first) => {
            assert(r.errs[st.errs.len() as int] == plain(
                KindV::SymbolDefinedTwice {
                    first_definition: first,
                    second_definition: fd.span,
                    name: names[x as int],
                },
            ));
        },
        None => {
            assert(r.errs =~= st.errs + fun_result(fd, st.env, names).1);
        },
    }
}

} // verus!
