//! The rules of checking: for each construct, the typed tree it yields,
//! the errors it reports (in the order they are reported) and, for
//! declarations, how it changes the scope.
use vstd::prelude::*;
use beans::span::Span;
use crate::ast::{BinOp, DeclOrInstr, Expr, File, FunDecl, Ident, Instr, VarDecl, is_lvalue};
use crate::env::{BindingV, EnvV, binding_of, fun_lookup, var_lookup};
use crate::error::{ErrorV, KindV, Note, plain};
use crate::model::{
    ExprKind, ExprNode, FileNode, FunNode, InstrKind, InstrNode, ItemNode, ParamNode, VarNode,
};
use crate::span::{WithSpan, span_sup};
use crate::types::{
    PartialType, Type, bool_t, compatible, deref_of, error_t, from_basic, full_void, int_t,
    is_ptr, ptr_to, to_basic, void_ptr_t, void_t,
};

verus! {

pub open spec fn name_of(names: Seq<Seq<char>>, x: Ident) -> Seq<char> {
    names[x as int]
}

pub open spec fn one(e: ErrorV) -> Seq<ErrorV> {
    seq![e]
}

pub open spec fn none() -> Seq<ErrorV> {
    Seq::empty()
}

pub open spec fn mk(inner: ExprKind, ty: PartialType, span: Span) -> ExprNode {
    ExprNode { inner: Some(inner), ty, span }
}

/// The error for an increment or decrement of something that is not a
/// place.
pub open spec fn incr_lvalue_errs(x: WithSpan<Expr>, span: Span) -> Seq<ErrorV> {
    if is_lvalue(x.inner) {
        none()
    } else {
        one(plain(KindV::IncrOrDecrRvalue { span, expression_span: x.span }))
    }
}

/// The errors of `-x` and `+x`: the operand must be compatible with `int`.
pub open spec fn int_operand_errs(n: ExprNode) -> Seq<ErrorV> {
    if compatible(n.ty, int_t()) {
        none()
    } else {
        one(plain(KindV::TypeMismatch { expected_type: int_t(), found_type: n.ty, span: n.span }))
    }
}

pub open spec fn void_errs(n: ExprNode) -> Seq<ErrorV> {
    if n.ty == void_t() {
        one(plain(KindV::VoidExpression { span: n.span }))
    } else {
        none()
    }
}

pub open spec fn is_comparison(op: BinOp) -> bool {
    op == BinOp::Eq || op == BinOp::NEq || op == BinOp::Lt || op == BinOp::Le || op == BinOp::Gt
        || op == BinOp::Ge
}

/// The errors of a comparison: neither side `void`, and the right side
/// compatible with the left.
pub open spec fn comparison_errs(l: ExprNode, r: ExprNode) -> Seq<ErrorV> {
    void_errs(l) + void_errs(r) + if compatible(l.ty, r.ty) {
        none()
    } else {
        one(
            ErrorV {
                kind: KindV::TypeMismatch { span: r.span, expected_type: l.ty, found_type: r.ty },
                reason: None,
                help: seq![Note::ExpectedTypeBecause(l.ty)],
            },
        )
    }
}

/// The errors of `*`, `/`, `%`, `|`, `&`: both sides compatible with `int`.
pub open spec fn arith_errs(l: ExprNode, r: ExprNode) -> Seq<ErrorV> {
    (if compatible(l.ty, int_t()) {
        none()
    } else {
        one(plain(KindV::TypeMismatch { span: l.span, expected_type: int_t(), found_type: l.ty }))
    }) + (if compatible(r.ty, int_t()) {
        none()
    } else {
        one(plain(KindV::TypeMismatch { span: r.span, expected_type: int_t(), found_type: r.ty }))
    })
}

pub open spec fn binop_kind(l: PartialType, r: PartialType, span: Span, op: char) -> KindV {
    KindV::BuiltinBinopTypeMismatch { left_type: l, right_type: r, span, op }
}

/// The type and errors of `l + r` where the operands have types `t1`,
/// `t2`: a pointer plus an integer (either way round) is the pointer;
/// two integers make an integer; anything else is an error.
pub open spec fn add_outcome(t1: PartialType, t2: PartialType, span: Span) -> (
    PartialType,
    Seq<ErrorV>,
) {
    if is_ptr(t1) && is_ptr(t2) {
        (
            error_t(),
            one(
                ErrorV {
                    kind: binop_kind(t1, t2, span, '+'),
                    reason: Some(Note::PointersCannotBeAdded),
                    help: seq![Note::SubtractPointersInstead],
                },
            ),
        )
    } else {
        let (a, b) = if is_ptr(t2) {
            (t2, t1)
        } else {
            (t1, t2)
        };
        if is_ptr(a) {
            (
                a,
                if compatible(b, int_t()) {
                    none()
                } else {
                    one(plain(binop_kind(a, b, span, '+')))
                },
            )
        } else if !compatible(a, b) {
            (
                error_t(),
                one(
                    ErrorV {
                        kind: binop_kind(a, b, span, '+'),
                        reason: Some(Note::CastingUndefined(a, b)),
                        help: seq![],
                    },
                ),
            )
        } else if !compatible(a, int_t()) {
            (
                error_t(),
                one(
                    ErrorV {
                        kind: binop_kind(a, b, span, '+'),
                        reason: Some(Note::AdditionUndefined(a)),
                        help: seq![],
                    },
                ),
            )
        } else {
            (int_t(), none())
        }
    }
}

/// The type and errors of `l - r`: a pointer minus an integer is the
/// pointer; two pointers of the same type make an integer; two integers
/// make an integer; anything else is an error.
pub open spec fn sub_outcome(t1: PartialType, t2: PartialType, span: Span) -> (
    PartialType,
    Seq<ErrorV>,
) {
    if is_ptr(t1) {
        if is_ptr(t2) {
            if t1 != t2 {
                (
                    error_t(),
                    one(
                        ErrorV {
                            kind: binop_kind(t1, t2, span, '-'),
                            reason: Some(Note::HeterogeneousPointers),
                            help: seq![],
                        },
                    ),
                )
            } else {
                (int_t(), none())
            }
        } else if !compatible(t2, int_t()) {
            (error_t(), one(plain(binop_kind(t1, t2, span, '-'))))
        } else {
            (t1, none())
        }
    } else if !compatible(t1, int_t()) || !compatible(t1, t2) {
        (
            error_t(),
            one(
                ErrorV {
                    kind: binop_kind(t1, t2, span, '-'),
                    reason: None,
                    help: if compatible(t1, int_t()) && is_ptr(t2) {
                        seq![Note::SwapOperands]
                    } else {
                        seq![]
                    },
                },
            ),
        )
    } else {
        (int_t(), none())
    }
}

/// The type and errors of `*x` where `x` has type `t` and span `span`.
pub open spec fn deref_outcome(t: PartialType, span: Span) -> (PartialType, Seq<ErrorV>) {
    match deref_of(t) {
        Some(u) => if u == void_t() {
            (error_t(), one(plain(KindV::DerefVoidPointer { span })))
        } else {
            (u, none())
        },
        None => (
            error_t(),
            match to_basic(t) {
                Some(b) => one(plain(KindV::DerefNonPointer { ty: b, span })),
                None => none(),
            },
        ),
    }
}

/// The typed expression and the errors of checking `e` in scope `env`.
#[verifier::opaque]
pub open spec fn expr_result(e: WithSpan<Expr>, env: EnvV, names: Seq<Seq<char>>) -> (
    ExprNode,
    Seq<ErrorV>,
)
    decreases e,
{
    match e.inner {
        Expr::True => (mk(ExprKind::True, bool_t(), e.span), none()),
        Expr::False => (mk(ExprKind::False, bool_t(), e.span), none()),
        Expr::Null => (mk(ExprKind::Null, void_ptr_t(), e.span), none()),
        Expr::Int(n) => (mk(ExprKind::Int(n), int_t(), e.span), none()),
        Expr::Ident(x) => match var_lookup(env, x) {
            Some(t) => (mk(ExprKind::Ident(x), t, e.span), none()),
            None => (
                mk(ExprKind::Ident(x), error_t(), e.span),
                one(plain(KindV::NameError { name: name_of(names, x), span: e.span })),
            ),
        },
        Expr::SizeOf(t) => if t.inner != full_void() {
            (mk(ExprKind::SizeOf(from_basic(t.inner), t.span), int_t(), t.span), none())
        } else {
            (
                ExprNode { inner: None, ty: int_t(), span: t.span },
                one(plain(KindV::SizeofVoid { span: e.span })),
            )
        },
        Expr::Addr(x) => {
            let pre = if is_lvalue(x.inner) {
                none()
            } else {
                one(
                    ErrorV {
                        kind: KindV::AddressOfRvalue { span: e.span, expression_span: x.span },
                        reason: None,
                        help: seq![Note::AllocateRvalue],
                    },
                )
            };
            let (n, es) = expr_result(*x, env, names);
            (mk(ExprKind::Addr(Box::new(n)), ptr_to(n.ty), e.span), pre + es)
        },
        Expr::Deref(x) => {
            let (n, es) = expr_result(*x, env, names);
            let (t, de) = deref_outcome(n.ty, n.span);
            (mk(ExprKind::Deref(Box::new(n)), t, e.span), es + de)
        },
        Expr::Assign { lhs, rhs } => {
            let pre = if is_lvalue(lhs.inner) {
                none()
            } else {
                one(plain(KindV::RvalueAssignment { span: lhs.span }))
            };
            let (l, le) = expr_result(*lhs, env, names);
            let (r, re) = expr_result(*rhs, env, names);
            let mm = if compatible(l.ty, r.ty) {
                none()
            } else {
                one(
                    plain(
                        KindV::TypeMismatch { span: e.span, expected_type: l.ty, found_type: r.ty },
                    ),
                )
            };
            let t = if l.ty == error_t() {
                r.ty
            } else {
                l.ty
            };
            (mk(ExprKind::Assign(Box::new(l), Box::new(r)), t, e.span), pre + le + re + mm)
        },
        Expr::PrefixIncr(x) => {
            let (n, es) = expr_result(*x, env, names);
            (mk(ExprKind::PrefixIncr(Box::new(n)), n.ty, e.span), incr_lvalue_errs(*x, e.span) + es)
        },
        Expr::PrefixDecr(x) => {
            let (n, es) = expr_result(*x, env, names);
            (mk(ExprKind::PrefixDecr(Box::new(n)), n.ty, e.span), incr_lvalue_errs(*x, e.span) + es)
        },
        Expr::PostfixIncr(x) => {
            let (n, es) = expr_result(*x, env, names);
            (
                mk(ExprKind::PostfixIncr(Box::new(n)), n.ty, e.span),
                incr_lvalue_errs(*x, e.span) + es,
            )
        },
        Expr::PostfixDecr(x) => {
            let (n, es) = expr_result(*x, env, names);
            (
                mk(ExprKind::PostfixDecr(Box::new(n)), n.ty, e.span),
                incr_lvalue_errs(*x, e.span) + es,
            )
        },
        Expr::Pos(x) => {
            let (n, es) = expr_result(*x, env, names);
            (mk(ExprKind::Pos(Box::new(n)), int_t(), e.span), es + int_operand_errs(n))
        },
        Expr::Neg(x) => {
            let (n, es) = expr_result(*x, env, names);
            (mk(ExprKind::Neg(Box::new(n)), int_t(), e.span), es + int_operand_errs(n))
        },
        Expr::Not(x) => {
            let (n, es) = expr_result(*x, env, names);
            (mk(ExprKind::Not(Box::new(n)), int_t(), e.span), es + void_errs(n))
        },
        Expr::Op { op, lhs, rhs } => {
            let (l, le) = expr_result(*lhs, env, names);
            let (r, re) = expr_result(*rhs, env, names);
            let (t, oe) = if is_comparison(op) {
                (int_t(), comparison_errs(l, r))
            } else if op == BinOp::Add {
                add_outcome(l.ty, r.ty, e.span)
            } else if op == BinOp::Sub {
                sub_outcome(l.ty, r.ty, e.span)
            } else {
                (int_t(), arith_errs(l, r))
            };
            (mk(ExprKind::Op(op, Box::new(l), Box::new(r)), t, e.span), le + re + oe)
        },
        Expr::Call { name, args } => match fun_lookup(env, name.inner) {
            None => (
                ExprNode { inner: None, ty: error_t(), span: e.span },
                one(plain(KindV::NameError { name: name_of(names, name.inner), span: name.span })),
            ),
            Some((ret, params, def)) => if args@.len() != params.len() {
                (
                    ExprNode { inner: None, ty: ret, span: e.span },
                    one(
                        plain(
                            KindV::ArityMismatch {
                                found_arity: args@.len() as usize,
                                expected_arity: params.len() as usize,
                                span: e.span,
                                definition_span: def,
                                function_name: name_of(names, name.inner),
                            },
                        ),
                    ),
                )
            } else {
                proof {
                    assert(decreases_to!(e => e.inner));
                }
                let (ns, es) = args_result(args@, params, env, names);
                (mk(ExprKind::Call(name.inner, name.span, ns), ret, e.span), es)
            },
        },
    }
}

/// The typed arguments of a call, and their errors: each argument's own,
/// then a mismatch if it is not compatible with its parameter's type.
pub open spec fn args_result(
    args: Seq<WithSpan<Expr>>,
    params: Seq<PartialType>,
    env: EnvV,
    names: Seq<Seq<char>>,
) -> (Seq<ExprNode>, Seq<ErrorV>)
    decreases args,
{
    if args.len() == 0 {
        (Seq::empty(), none())
    } else {
        let k = args.len() - 1;
        let (ns, es) = args_result(args.drop_last(), params, env, names);
        let (n, e) = expr_result(args[k], env, names);
        let mm = if compatible(n.ty, params[k]) {
            none()
        } else {
            one(
                plain(KindV::TypeMismatch { expected_type: params[k], found_type: n.ty, span: n.span }),
            )
        };
        (ns.push(n), es + e + mm)
    }
}


/// The typed expressions, and errors, of a list of expressions checked
/// one after the other.
pub open spec fn exprs_result(es: Seq<WithSpan<Expr>>, env: EnvV, names: Seq<Seq<char>>) -> (
    Seq<ExprNode>,
    Seq<ErrorV>,
)
    decreases es.len(),
{
    if es.len() == 0 {
        (Seq::empty(), none())
    } else {
        let (ns, errs) = exprs_result(es.drop_last(), env, names);
        let (n, e) = expr_result(es.last(), env, names);
        (ns.push(n), errs + e)
    }
}

/// A name declared in a block, with where, and what it stood for before.
pub struct Saved {
    pub name: Ident,
    pub span: Span,
    pub old: Option<BindingV>,
}

/// Where checking a block stands after some of its items.
pub struct BlockState {
    pub env: EnvV,
    pub saved: Seq<Saved>,
    pub out: Seq<ItemNode>,
    pub errs: Seq<ErrorV>,
}

pub open spec fn start(env: EnvV) -> BlockState {
    BlockState { env, saved: Seq::empty(), out: Seq::empty(), errs: none() }
}

/// Where `x` was first declared in the block so far, if it was.
pub open spec fn first_def(saved: Seq<Saved>, x: Ident) -> Option<Span>
    decreases saved.len(),
{
    if saved.len() == 0 {
        None
    } else if saved[0].name == x {
        Some(saved[0].span)
    } else {
        first_def(saved.drop_first(), x)
    }
}

/// The error for declaring `x` again in the same block.
pub open spec fn redef_errs(saved: Seq<Saved>, x: Ident, span: Span, names: Seq<Seq<char>>) -> Seq<
    ErrorV,
> {
    match first_def(saved, x) {
        Some(first) => one(
            plain(
                KindV::SymbolDefinedTwice {
                    first_definition: first,
                    second_definition: span,
                    name: name_of(names, x),
                },
            ),
        ),
        None => none(),
    }
}

/// Declaring a variable in a block: it may not be `void` nor declared
/// twice; it is in scope from here on, its initial value included, which
/// must be compatible with its type.
#[verifier::opaque]
pub open spec fn var_step(
    st: BlockState,
    ty: WithSpan<Type>,
    name: WithSpan<Ident>,
    value: Option<WithSpan<Expr>>,
    span: Span,
    names: Seq<Seq<char>>,
) -> BlockState {
    let e0 = if ty.inner == full_void() {
        one(plain(KindV::VoidVariable { span, name: name_of(names, name.inner) }))
    } else {
        none()
    };
    let e1 = redef_errs(st.saved, name.inner, span, names);
    let t = from_basic(ty.inner);
    let env1 = st.env.insert(name.inner, (BindingV::Var(t), Some(span)));
    let (v, ve) = match value {
        Some(x) => {
            let (n, e) = expr_result(x, env1, names);
            let mm = if compatible(n.ty, t) {
                none()
            } else {
                one(
                    plain(
                        KindV::VariableTypeMismatch {
                            expected_type: t,
                            found_type: n.ty,
                            span: n.span,
                            definition_span: span_sup(ty.span, name.span),
                            variable_name: name_of(names, name.inner),
                        },
                    ),
                )
            };
            (Some(n), e + mm)
        },
        None => (None, none()),
    };
    BlockState {
        env: env1,
        saved: st.saved.push(Saved { name: name.inner, span, old: binding_of(st.env, name.inner) }),
        out: st.out.push(
            ItemNode::Var(
                VarNode { ty: t, ty_span: ty.span, name: name.inner, name_span: name.span, value: v },
                span,
            ),
        ),
        errs: st.errs + e0 + e1 + ve,
    }
}

/// Leaving a block: each name it declared gets back, in the order of the
/// declarations, what it stood for before (with the span of that
/// declaration), or leaves the scope.
pub open spec fn restore(env: EnvV, saved: Seq<Saved>) -> EnvV
    decreases saved.len(),
{
    if saved.len() == 0 {
        env
    } else {
        let e = restore(env, saved.drop_last());
        let s = saved.last();
        match s.old {
            Some(b) => e.insert(s.name, (b, Some(s.span))),
            None => e.remove(s.name),
        }
    }
}

pub open spec fn param_types(ps: Seq<(WithSpan<Type>, WithSpan<Ident>)>) -> Seq<PartialType> {
    Seq::new(ps.len(), |k: int| from_basic(ps[k].0.inner))
}

/// What a declared function's name stands for.
pub open spec fn fun_binding(f: FunDecl) -> BindingV {
    BindingV::Fun(from_basic(f.ty.inner), param_types(f.params@))
}

/// The errors of a condition: it may not be `void`.
pub open spec fn cond_errs(c: Option<ExprNode>) -> Seq<ErrorV> {
    match c {
        Some(n) => void_errs(n),
        None => none(),
    }
}

/// A `for` loop without a declaration: condition, increments, then the
/// body one loop deeper.
pub open spec fn for_result(
    cond: Option<WithSpan<Expr>>,
    incr: Seq<WithSpan<Expr>>,
    body: WithSpan<Instr>,
    span: Span,
    lvl: usize,
    ret: PartialType,
    env: EnvV,
    names: Seq<Seq<char>>,
) -> (InstrNode, Seq<ErrorV>, EnvV)
    decreases body, 1nat,
{
    let (c, ce) = match cond {
        Some(x) => {
            let (n, e) = expr_result(x, env, names);
            (Some(n), e)
        },
        None => (None, none()),
    };
    let (ins, ie) = exprs_result(incr, env, names);
    let (b, be, env1) = instr_result(body, (lvl + 1) as usize, ret, env, names);
    (
        InstrNode {
            instr: InstrKind::For(None, c, ins, Box::new(b)),
            span,
            loop_level: lvl,
            ret,
        },
        ce + ie + be + cond_errs(c),
        env1,
    )
}

/// The typed instruction, errors and resulting scope of checking `i` at
/// loop depth `lvl` in a function returning `ret`.
pub open spec fn instr_result(
    i: WithSpan<Instr>,
    lvl: usize,
    ret: PartialType,
    env: EnvV,
    names: Seq<Seq<char>>,
) -> (InstrNode, Seq<ErrorV>, EnvV)
    decreases i, 0nat,
{
    let node = |k: InstrKind| InstrNode { instr: k, span: i.span, loop_level: lvl, ret };
    match i.inner {
        Instr::EmptyInstr => (node(InstrKind::Empty), none(), env),
        Instr::ExprInstr(e) => {
            let (n, es) = expr_result(e, env, names);
            (node(InstrKind::ExprInstr(n)), es, env)
        },
        Instr::If { cond, then_branch, else_branch } => {
            let (c, ce) = expr_result(cond, env, names);
            let (t, te, env1) = instr_result(*then_branch, lvl, ret, env, names);
            let (el, ee, env2) = match *else_branch {
                Some(x) => {
                    let (n, e, en) = instr_result(x, lvl, ret, env1, names);
                    (Some(Box::new(n)), e, en)
                },
                None => (None, none(), env1),
            };
            (node(InstrKind::If(c, Box::new(t), el)), ce + te + ee + void_errs(c), env2)
        },
        Instr::While { cond, body } => {
            let (c, ce) = expr_result(cond, env, names);
            let (b, be, env1) = instr_result(*body, (lvl + 1) as usize, ret, env, names);
            (node(InstrKind::While(c, Box::new(b))), ce + be + void_errs(c), env1)
        },
        Instr::For { loop_var: None, cond, incr, body } => for_result(
            cond,
            incr@,
            *body,
            i.span,
            lvl,
            ret,
            env,
            names,
        ),
        Instr::For { loop_var: Some(decl), cond, incr, body } => {
            let st1 = var_step(
                start(env),
                decl.inner.ty,
                decl.inner.name,
                decl.inner.value,
                decl.span,
                names,
            );
            let (f, fe, env2) = for_result(cond, incr@, *body, i.span, lvl, ret, st1.env, names);
            (
                node(InstrKind::Block(st1.out.push(ItemNode::Instr(f)))),
                st1.errs + fe,
                restore(env2, st1.saved),
            )
        },
        Instr::Block(items) => {
            let st = items_fold(items@, lvl, ret, start(env), names);
            (node(InstrKind::Block(st.out)), st.errs, restore(st.env, st.saved))
        },
        Instr::Return(None) => (
            node(InstrKind::Return(None)),
            if ret == void_t() {
                none()
            } else {
                one(
                    ErrorV {
                        kind: KindV::TypeMismatch {
                            span: i.span,
                            expected_type: ret,
                            found_type: void_t(),
                        },
                        reason: Some(Note::ReturnNeedsVoid),
                        help: seq![Note::AddReturnValue(ret)],
                    },
                )
            },
            env,
        ),
        Instr::Return(Some(e)) => {
            let (n, es) = expr_result(e, env, names);
            (
                node(InstrKind::Return(Some(n))),
                es + if compatible(n.ty, ret) {
                    none()
                } else {
                    one(
                        plain(
                            KindV::TypeMismatch { span: i.span, expected_type: ret, found_type: n.ty },
                        ),
                    )
                },
                env,
            )
        },
        Instr::Break | Instr::Continue => (
            node(InstrKind::Break),
            if lvl == 0 {
                one(plain(KindV::BreakContinueOutsideLoop { span: i.span }))
            } else {
                none()
            },
            env,
        ),
    }
}

/// Checking the items of a block one after the other, from state `st`.
pub open spec fn items_fold(
    items: Seq<DeclOrInstr>,
    lvl: usize,
    ret: PartialType,
    st: BlockState,
    names: Seq<Seq<char>>,
) -> BlockState
    decreases items, 0nat,
{
    if items.len() == 0 {
        st
    } else {
        item_step(items_fold(items.drop_last(), lvl, ret, st, names), items.last(), lvl, ret, names)
    }
}

/// Checking one item of a block. A declared name is saved with what it
/// stood for before the declaration, to be given back when the block ends.
pub open spec fn item_step(
    st: BlockState,
    it: DeclOrInstr,
    lvl: usize,
    ret: PartialType,
    names: Seq<Seq<char>>,
) -> BlockState
    decreases it, 0nat,
{
    match it {
        DeclOrInstr::Fun(fd) => {
            let x = fd.inner.name.inner;
            let e1 = redef_errs(st.saved, x, fd.span, names);
            let (f, fe, env1) = fun_result(fd, st.env, names);
            BlockState {
                env: env1.insert(x, (fun_binding(fd.inner), Some(fd.span))),
                saved: st.saved.push(Saved { name: x, span: fd.span, old: binding_of(st.env, x) }),
                out: st.out.push(ItemNode::Fun(f, fd.span)),
                errs: st.errs + e1 + fe,
            }
        },
        DeclOrInstr::Var(vd) => var_step(
            st,
            vd.inner.ty,
            vd.inner.name,
            vd.inner.value,
            vd.span,
            names,
        ),
        DeclOrInstr::Instr(i) => {
            let (n, e, env1) = instr_result(i, lvl, ret, st.env, names);
            BlockState {
                env: env1,
                saved: st.saved,
                out: st.out.push(ItemNode::Instr(n)),
                errs: st.errs + e,
            }
        },
    }
}

/// Declaring the parameters of a function as variables of its body.
pub open spec fn params_fold(
    ps: Seq<(WithSpan<Type>, WithSpan<Ident>)>,
    st: BlockState,
    names: Seq<Seq<char>>,
) -> BlockState
    decreases ps.len(),
{
    if ps.len() == 0 {
        st
    } else {
        let p = ps.last();
        var_step(
            params_fold(ps.drop_last(), st, names),
            p.0,
            p.1,
            None,
            span_sup(p.0.span, p.1.span),
            names,
        )
    }
}

/// The typed function, errors and resulting scope of checking a function
/// declaration: the function is in scope in its own body and in the
/// scope this gives back (a block that declares it saves what the name
/// stood for before, and gives that back when it ends), its parameters are
/// variables of the body, and the body is checked outside any loop
/// against the declared return type.
pub open spec fn fun_result(fd: WithSpan<FunDecl>, env: EnvV, names: Seq<Seq<char>>) -> (
    FunNode,
    Seq<ErrorV>,
    EnvV,
)
    decreases fd, 0nat,
{
    let f = fd.inner;
    let rt = from_basic(f.ty.inner);
    let env1 = env.insert(f.name.inner, (fun_binding(f), Some(fd.span)));
    let st1 = params_fold(f.params@, start(env1), names);
    let st2 = {
        proof {
            assert(decreases_to!(fd => fd.inner));
            assert(decreases_to!(fd.inner => fd.inner.code));
            assert(decreases_to!(fd.inner.code => fd.inner.code.inner));
        }
        items_fold(f.code.inner@, 0, rt, st1, names)
    };
    (
        FunNode {
            ty: rt,
            ty_span: f.ty.span,
            name: f.name.inner,
            name_span: f.name.span,
            params: Seq::new(
                f.params@.len(),
                |k: int|
                    ParamNode {
                        ty: from_basic(f.params@[k].0.inner),
                        ty_span: f.params@[k].0.span,
                        name: f.params@[k].1.inner,
                        name_span: f.params@[k].1.span,
                    },
            ),
            code: st2.out.skip(f.params@.len() as int),
            code_span: f.code.span,
            loop_level: 0,
            ret: rt,
            toplevel: f.toplevel,
        },
        st2.errs,
        restore(st2.env, st2.saved),
    )
}

pub open spec fn main_name() -> Seq<char> {
    seq!['m', 'a', 'i', 'n']
}

/// The index of the first top-level function named `main`, if any.
pub open spec fn first_main(ds: Seq<WithSpan<FunDecl>>, names: Seq<Seq<char>>) -> Option<int>
    decreases ds.len(),
{
    if ds.len() == 0 {
        None
    } else if name_of(names, ds[0].inner.name.inner) == main_name() {
        Some(0)
    } else {
        match first_main(ds.drop_first(), names) {
            Some(k) => Some(k + 1),
            None => None,
        }
    }
}

/// A program needs a `main` function taking nothing and returning `int`.
pub open spec fn main_errs(ds: Seq<WithSpan<FunDecl>>, names: Seq<Seq<char>>) -> Seq<ErrorV> {
    match first_main(ds, names) {
        Some(k) => {
            let d = ds[k];
            if d.inner.ty.inner != (Type {
                basis: crate::types::BasisType::Int,
                indirection_count: 0,
            }) || d.inner.params@.len() != 0 {
                one(
                    plain(
                        KindV::IncorrectMainFunctionType {
                            ty: d.inner.ty.inner,
                            params: param_types(d.inner.params@),
                            span: d.span,
                        },
                    ),
                )
            } else {
                none()
            }
        },
        None => one(plain(KindV::NoMainFunction)),
    }
}

/// The scope of a program before its first function: the two built-in
/// functions, name 0 (`void*` from `int`, the allocator) and name 1
/// (`int` from `int`).
pub open spec fn builtin_env() -> EnvV {
    Map::empty().insert(0, (BindingV::Fun(void_ptr_t(), seq![int_t()]), None)).insert(
        1,
        (BindingV::Fun(int_t(), seq![int_t()]), None),
    )
}

/// Checking top-level functions one after the other: a function defined
/// twice is an error.
pub open spec fn decls_fold(ds: Seq<WithSpan<FunDecl>>, names: Seq<Seq<char>>) -> (
    EnvV,
    FileNode,
    Seq<ErrorV>,
)
    decreases ds.len(),
{
    if ds.len() == 0 {
        (builtin_env(), Seq::empty(), none())
    } else {
        let (env, out, errs) = decls_fold(ds.drop_last(), names);
        let d = ds.last();
        let dup = match fun_lookup(env, d.inner.name.inner) {
            Some((_, _, first)) => one(
                plain(
                    KindV::FunctionDefinedTwice {
                        first_definition: first,
                        second_definition: d.span,
                        name: name_of(names, d.inner.name.inner),
                    },
                ),
            ),
            None => none(),
        };
        let (f, fe, env1) = fun_result(d, env, names);
        (env1, out.push((f, d.span)), errs + dup + fe)
    }
}

/// The typed program and the errors of checking a program: first the
/// check of `main`, then each function's.
pub open spec fn file_result(f: File, names: Seq<Seq<char>>) -> (FileNode, Seq<ErrorV>) {
    let (_, out, errs) = decls_fold(f.fun_decls@, names);
    (out, main_errs(f.fun_decls@, names) + errs)
}

} // verus!
