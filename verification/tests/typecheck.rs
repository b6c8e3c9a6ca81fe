use std::path::Path;

use beans::span::Span;
use typeck::ast::{BinOp, DeclOrInstr, Expr, File, FunDecl, Instr, VarDecl};
use typeck::error::{ErrorKind, Note};
use typeck::full;
use typeck::span::WithSpan;
use typeck::typecheck;
use typeck::types::{BasisType, PartialBasisType, PartialType, Type};

// Names: 0 and 1 are the built-in functions.
const MALLOC: usize = 0;
const PUTINT: usize = 1;
const MAIN: usize = 2;
const X: usize = 3;
const Y: usize = 4;
const F: usize = 5;
const G: usize = 6;

fn names() -> Vec<String> {
    ["malloc", "putint", "main", "x", "y", "f", "g"].iter().map(|s| s.to_string()).collect()
}

fn sp(n: usize) -> Span {
    Span::new(Path::new("test.c"), (n, 0), (n, 4), 10 * n, 10 * n + 4, "", Vec::<usize>::new())
}

fn ws<T>(inner: T, n: usize) -> WithSpan<T> {
    WithSpan { inner, span: sp(n) }
}

fn ty(basis: BasisType, indirection_count: usize) -> Type {
    Type { basis, indirection_count }
}

fn int_ty() -> Type {
    ty(BasisType::Int, 0)
}

fn pty(basis: PartialBasisType, indirection_count: usize) -> PartialType {
    PartialType { basis, indirection_count }
}

fn num(v: i64, n: usize) -> WithSpan<Expr> {
    ws(Expr::Int(v), n)
}

fn var(x: usize, n: usize) -> WithSpan<Expr> {
    ws(Expr::Ident(x), n)
}

fn call(f: usize, args: Vec<WithSpan<Expr>>, n: usize) -> WithSpan<Expr> {
    ws(Expr::Call { name: ws(f, n), args }, n)
}

fn op(o: BinOp, l: WithSpan<Expr>, r: WithSpan<Expr>, n: usize) -> WithSpan<Expr> {
    ws(Expr::Op { op: o, lhs: Box::new(l), rhs: Box::new(r) }, n)
}

fn instr(i: Instr, n: usize) -> DeclOrInstr {
    DeclOrInstr::Instr(ws(i, n))
}

fn expr_instr(e: WithSpan<Expr>, n: usize) -> DeclOrInstr {
    instr(Instr::ExprInstr(e), n)
}

fn ret(e: Option<WithSpan<Expr>>, n: usize) -> DeclOrInstr {
    instr(Instr::Return(e), n)
}

fn decl(t: Type, x: usize, value: Option<WithSpan<Expr>>, n: usize) -> DeclOrInstr {
    DeclOrInstr::Var(ws(VarDecl { ty: ws(t, n), name: ws(x, n + 100), value }, n))
}

fn fun(
    t: Type,
    name: usize,
    params: Vec<(Type, usize)>,
    body: Vec<DeclOrInstr>,
    n: usize,
) -> WithSpan<FunDecl> {
    ws(
        FunDecl {
            ty: ws(t, n),
            name: ws(name, n),
            params: params.into_iter().map(|(t, x)| (ws(t, n + 1), ws(x, n + 2))).collect(),
            code: ws(body, n + 3),
            toplevel: true,
        },
        n,
    )
}

fn main_returning_zero(n: usize) -> WithSpan<FunDecl> {
    fun(int_ty(), MAIN, vec![], vec![ret(Some(num(0, n + 5)), n + 4)], n)
}

fn program(fun_decls: Vec<WithSpan<FunDecl>>) -> File {
    File { fun_decls }
}

/// The errors of checking `main` with the given body.
fn main_body_errors(body: Vec<DeclOrInstr>) -> Vec<typeck::error::Error> {
    typecheck(program(vec![fun(int_ty(), MAIN, vec![], body, 1)]), &names()).unwrap_err()
}

#[test]
fn minimal_program_is_fully_typed() {
    let t = typecheck(program(vec![main_returning_zero(1)]), &names()).unwrap();
    assert_eq!(t.fun_decls.len(), 1);
    let f = &t.fun_decls[0];
    assert_eq!(f.span, sp(1));
    assert_eq!(f.inner.name.inner, MAIN);
    assert_eq!(f.inner.ty.inner, int_ty());
    assert_eq!(f.inner.code.expected_return_type, int_ty());
    assert_eq!(f.inner.code.loop_level, 0);
    assert_eq!(f.inner.code.instr.len(), 1);
    match &f.inner.code.instr[0] {
        full::DeclOrInstr::Instr(i) => {
            assert_eq!(i.span, sp(5));
            match &i.instr {
                full::Instr::Return(Some(e)) => {
                    assert_eq!(e.ty, int_ty());
                    assert!(matches!(e.inner, full::Expr::Int(0)));
                },
                other => panic!("unexpected instruction {:?}", other),
            }
        },
        other => panic!("unexpected item {:?}", other),
    }
}

#[test]
fn missing_main_is_reported() {
    let f = fun(int_ty(), F, vec![], vec![ret(Some(num(1, 3)), 2)], 1);
    let es = typecheck(program(vec![f]), &names()).unwrap_err();
    assert_eq!(es.len(), 1);
    assert!(matches!(es[0].kind, ErrorKind::NoMainFunction));
    assert!(es[0].reason.is_none());
    assert!(es[0].help.is_empty());
}

#[test]
fn main_must_return_int() {
    let m = fun(ty(BasisType::Void, 0), MAIN, vec![], vec![], 7);
    let es = typecheck(program(vec![m]), &names()).unwrap_err();
    assert_eq!(es.len(), 1);
    match &es[0].kind {
        ErrorKind::IncorrectMainFunctionType { ty: t, params, span } => {
            assert_eq!(*t, ty(BasisType::Void, 0));
            assert!(params.is_empty());
            assert_eq!(*span, sp(7));
        },
        other => panic!("unexpected error {:?}", other),
    }
}

#[test]
fn main_must_take_no_parameter() {
    let m = fun(int_ty(), MAIN, vec![(ty(BasisType::Bool, 2), X)], vec![ret(Some(num(0, 20)), 21)], 7);
    let es = typecheck(program(vec![m]), &names()).unwrap_err();
    assert_eq!(es.len(), 1);
    match &es[0].kind {
        ErrorKind::IncorrectMainFunctionType { ty: t, params, .. } => {
            assert_eq!(*t, int_ty());
            assert_eq!(params.clone(), vec![pty(PartialBasisType::Bool, 2)]);
        },
        other => panic!("unexpected error {:?}", other),
    }
}

#[test]
fn function_defined_twice_names_both_definitions() {
    let f1 = fun(int_ty(), F, vec![], vec![ret(Some(num(1, 12)), 11)], 10);
    let f2 = fun(int_ty(), F, vec![], vec![ret(Some(num(2, 22)), 21)], 20);
    let es = typecheck(program(vec![f1, f2, main_returning_zero(30)]), &names()).unwrap_err();
    assert_eq!(es.len(), 1);
    match &es[0].kind {
        ErrorKind::FunctionDefinedTwice { first_definition, second_definition, name } => {
            assert_eq!(*first_definition, Some(sp(10)));
            assert_eq!(*second_definition, sp(20));
            assert_eq!(name, "f");
        },
        other => panic!("unexpected error {:?}", other),
    }
}

#[test]
fn redefining_a_builtin_has_no_first_definition() {
    let m = fun(int_ty(), MALLOC, vec![(int_ty(), X)], vec![ret(Some(num(0, 12)), 11)], 10);
    let es = typecheck(program(vec![m, main_returning_zero(30)]), &names()).unwrap_err();
    assert_eq!(es.len(), 1);
    match &es[0].kind {
        ErrorKind::FunctionDefinedTwice { first_definition, second_definition, name } => {
            assert_eq!(*first_definition, None);
            assert_eq!(*second_definition, sp(10));
            assert_eq!(name, "malloc");
        },
        other => panic!("unexpected error {:?}", other),
    }
}

#[test]
fn main_error_comes_before_function_errors() {
    let f = fun(int_ty(), F, vec![], vec![expr_instr(var(Y, 12), 11)], 10);
    let es = typecheck(program(vec![f]), &names()).unwrap_err();
    assert_eq!(es.len(), 2);
    assert!(matches!(es[0].kind, ErrorKind::NoMainFunction));
    assert!(matches!(es[1].kind, ErrorKind::NameError { .. }));
}

#[test]
fn unknown_variable_is_a_name_error() {
    let es = main_body_errors(vec![expr_instr(var(X, 9), 8), ret(Some(num(0, 11)), 10)]);
    assert_eq!(es.len(), 1);
    match &es[0].kind {
        ErrorKind::NameError { name, span } => {
            assert_eq!(name, "x");
            assert_eq!(*span, sp(9));
        },
        other => panic!("unexpected error {:?}", other),
    }
}

#[test]
fn unknown_function_is_a_name_error_at_its_name() {
    let es = main_body_errors(vec![expr_instr(call(G, vec![], 9), 8), ret(Some(num(0, 11)), 10)]);
    assert_eq!(es.len(), 1);
    match &es[0].kind {
        ErrorKind::NameError { name, span } => {
            assert_eq!(name, "g");
            assert_eq!(*span, sp(9));
        },
        other => panic!("unexpected error {:?}", other),
    }
}

#[test]
fn wrong_number_of_arguments() {
    let es = main_body_errors(vec![
        expr_instr(call(PUTINT, vec![num(1, 10), num(2, 11)], 9), 8),
        ret(Some(num(0, 13)), 12),
    ]);
    assert_eq!(es.len(), 1);
    match &es[0].kind {
        ErrorKind::ArityMismatch { found_arity, expected_arity, span, definition_span, function_name } => {
            assert_eq!(*found_arity, 2);
            assert_eq!(*expected_arity, 1);
            assert_eq!(*span, sp(9));
            assert_eq!(*definition_span, None);
            assert_eq!(function_name, "putint");
        },
        other => panic!("unexpected error {:?}", other),
    }
}

#[test]
fn argument_of_wrong_type() {
    let p = ws(Expr::Null, 10);
    let es = main_body_errors(vec![expr_instr(call(PUTINT, vec![p], 9), 8), ret(Some(num(0, 13)), 12)]);
    assert_eq!(es.len(), 1);
    match &es[0].kind {
        ErrorKind::TypeMismatch { span, expected_type, found_type } => {
            assert_eq!(*span, sp(10));
            assert_eq!(*expected_type, pty(PartialBasisType::Int, 0));
            assert_eq!(*found_type, pty(PartialBasisType::Void, 1));
        },
        other => panic!("unexpected error {:?}", other),
    }
}

#[test]
fn sizeof_void_is_refused() {
    let e = ws(Expr::SizeOf(ws(ty(BasisType::Void, 0), 10)), 9);
    let es = main_body_errors(vec![expr_instr(e, 8), ret(Some(num(0, 13)), 12)]);
    assert_eq!(es.len(), 1);
    match &es[0].kind {
        ErrorKind::SizeofVoid { span } => assert_eq!(*span, sp(9)),
        other => panic!("unexpected error {:?}", other),
    }
}

#[test]
fn address_of_rvalue_suggests_a_variable() {
    let e = ws(Expr::Addr(Box::new(num(3, 10))), 9);
    let es = main_body_errors(vec![expr_instr(e, 8), ret(Some(num(0, 13)), 12)]);
    assert_eq!(es.len(), 1);
    match &es[0].kind {
        ErrorKind::AddressOfRvalue { span, expression_span } => {
            assert_eq!(*span, sp(9));
            assert_eq!(*expression_span, sp(10));
        },
        other => panic!("unexpected error {:?}", other),
    }
    assert_eq!(es[0].help, vec![Note::AllocateRvalue]);
    assert_eq!(
        es[0].help[0].text(),
        "you could allocate this expression, by binding it to a variable"
    );
}

#[test]
fn dereferencing_an_int_is_refused() {
    let e = ws(Expr::Deref(Box::new(num(3, 10))), 9);
    let es = main_body_errors(vec![expr_instr(e, 8), ret(Some(num(0, 13)), 12)]);
    assert_eq!(es.len(), 1);
    match &es[0].kind {
        ErrorKind::DerefNonPointer { ty: t, span } => {
            assert_eq!(*t, int_ty());
            assert_eq!(*span, sp(10));
        },
        other => panic!("unexpected error {:?}", other),
    }
}

#[test]
fn dereferencing_void_pointer_is_refused() {
    let e = ws(Expr::Deref(Box::new(ws(Expr::Null, 10))), 9);
    let es = main_body_errors(vec![expr_instr(e, 8), ret(Some(num(0, 13)), 12)]);
    assert_eq!(es.len(), 1);
    match &es[0].kind {
        ErrorKind::DerefVoidPointer { span } => assert_eq!(*span, sp(10)),
        other => panic!("unexpected error {:?}", other),
    }
}

#[test]
fn assigning_to_an_rvalue_is_refused() {
    let e = ws(Expr::Assign { lhs: Box::new(num(1, 10)), rhs: Box::new(num(2, 11)) }, 9);
    let es = main_body_errors(vec![expr_instr(e, 8), ret(Some(num(0, 13)), 12)]);
    assert_eq!(es.len(), 1);
    match &es[0].kind {
        ErrorKind::RvalueAssignment { span } => assert_eq!(*span, sp(10)),
        other => panic!("unexpected error {:?}", other),
    }
}

#[test]
fn assignment_of_incompatible_type() {
    let e = ws(Expr::Assign { lhs: Box::new(var(X, 10)), rhs: Box::new(ws(Expr::Null, 11)) }, 9);
    let es = main_body_errors(vec![
        decl(int_ty(), X, None, 7),
        expr_instr(e, 8),
        ret(Some(num(0, 13)), 12),
    ]);
    assert_eq!(es.len(), 1);
    match &es[0].kind {
        ErrorKind::TypeMismatch { span, expected_type, found_type } => {
            assert_eq!(*span, sp(9));
            assert_eq!(*expected_type, pty(PartialBasisType::Int, 0));
            assert_eq!(*found_type, pty(PartialBasisType::Void, 1));
        },
        other => panic!("unexpected error {:?}", other),
    }
}

#[test]
fn incrementing_an_rvalue_is_refused() {
    let e = ws(Expr::PrefixIncr(Box::new(num(1, 10))), 9);
    let es = main_body_errors(vec![expr_instr(e, 8), ret(Some(num(0, 13)), 12)]);
    assert_eq!(es.len(), 1);
    match &es[0].kind {
        ErrorKind::IncrOrDecrRvalue { span, expression_span } => {
            assert_eq!(*span, sp(9));
            assert_eq!(*expression_span, sp(10));
        },
        other => panic!("unexpected error {:?}", other),
    }
}

#[test]
fn void_condition_is_refused() {
    let f = fun(ty(BasisType::Void, 0), F, vec![], vec![], 30);
    let cond = call(F, vec![], 9);
    let body = vec![
        instr(
            Instr::If {
                cond,
                then_branch: Box::new(ws(Instr::EmptyInstr, 10)),
                else_branch: Box::new(None),
            },
            8,
        ),
        ret(Some(num(0, 13)), 12),
    ];
    let es = typecheck(program(vec![f, fun(int_ty(), MAIN, vec![], body, 1)]), &names()).unwrap_err();
    assert_eq!(es.len(), 1);
    match &es[0].kind {
        ErrorKind::VoidExpression { span } => assert_eq!(*span, sp(9)),
        other => panic!("unexpected error {:?}", other),
    }
}

#[test]
fn adding_two_pointers_is_refused() {
    let e = op(BinOp::Add, ws(Expr::Null, 10), ws(Expr::Null, 11), 9);
    let es = main_body_errors(vec![expr_instr(e, 8), ret(Some(num(0, 13)), 12)]);
    assert_eq!(es.len(), 1);
    match &es[0].kind {
        ErrorKind::BuiltinBinopTypeMismatch { left_type, right_type, span, op } => {
            assert_eq!(*left_type, pty(PartialBasisType::Void, 1));
            assert_eq!(*right_type, pty(PartialBasisType::Void, 1));
            assert_eq!(*span, sp(9));
            assert_eq!(*op, '+');
        },
        other => panic!("unexpected error {:?}", other),
    }
    assert_eq!(es[0].reason, Some(Note::PointersCannotBeAdded));
    assert_eq!(es[0].help, vec![Note::SubtractPointersInstead]);
    assert_eq!(es[0].reason.unwrap().text(), "pointers cannot be added.");
    assert_eq!(es[0].help[0].text(), "maybe you meant to subtract the pointers?");
}

#[test]
fn integer_plus_pointer_is_the_pointer() {
    let p = ws(
        Expr::Assign {
            lhs: Box::new(var(Y, 20)),
            rhs: Box::new(op(BinOp::Add, num(1, 21), var(X, 22), 23)),
        },
        24,
    );
    let body = vec![
        decl(ty(BasisType::Int, 1), X, None, 7),
        decl(ty(BasisType::Int, 1), Y, None, 6),
        expr_instr(p, 8),
        ret(Some(num(0, 13)), 12),
    ];
    let t = typecheck(program(vec![fun(int_ty(), MAIN, vec![], body, 1)]), &names()).unwrap();
    match &t.fun_decls[0].inner.code.instr[2] {
        full::DeclOrInstr::Instr(i) => match &i.instr {
            full::Instr::ExprInstr(e) => {
                assert_eq!(e.ty, ty(BasisType::Int, 1));
                match &e.inner {
                    full::Expr::Assign { rhs, .. } => assert_eq!(rhs.ty, ty(BasisType::Int, 1)),
                    other => panic!("unexpected expression {:?}", other),
                }
            },
            other => panic!("unexpected instruction {:?}", other),
        },
        other => panic!("unexpected item {:?}", other),
    }
}

#[test]
fn adding_void_values_is_undefined() {
    let f = fun(ty(BasisType::Void, 0), F, vec![], vec![], 30);
    let e = op(BinOp::Add, call(F, vec![], 10), call(F, vec![], 11), 9);
    let body = vec![expr_instr(e, 8), ret(Some(num(0, 13)), 12)];
    let es = typecheck(program(vec![f, fun(int_ty(), MAIN, vec![], body, 1)]), &names()).unwrap_err();
    assert_eq!(es.len(), 1);
    assert_eq!(es[0].reason, Some(Note::AdditionUndefined(pty(PartialBasisType::Void, 0))));
    assert_eq!(es[0].reason.unwrap().text(), "addition over `void` is undefined");
}

#[test]
fn integer_minus_pointer_suggests_swapping() {
    let e = op(BinOp::Sub, num(1, 10), ws(Expr::Null, 11), 9);
    let es = main_body_errors(vec![expr_instr(e, 8), ret(Some(num(0, 13)), 12)]);
    assert_eq!(es.len(), 1);
    match &es[0].kind {
        ErrorKind::BuiltinBinopTypeMismatch { op, .. } => assert_eq!(*op, '-'),
        other => panic!("unexpected error {:?}", other),
    }
    assert_eq!(es[0].reason, None);
    assert_eq!(es[0].help, vec![Note::SwapOperands]);
    assert_eq!(
        es[0].help[0].text(),
        "maybe you meant to have the operands the other way around"
    );
}

#[test]
fn subtracting_pointers_of_different_types() {
    let e = op(BinOp::Sub, var(X, 10), var(Y, 11), 9);
    let body = vec![
        decl(ty(BasisType::Int, 1), X, None, 6),
        decl(ty(BasisType::Bool, 1), Y, None, 7),
        expr_instr(e, 8),
        ret(Some(num(0, 13)), 12),
    ];
    let es = main_body_errors(body);
    assert_eq!(es.len(), 1);
    assert_eq!(es[0].reason, Some(Note::HeterogeneousPointers));
    assert_eq!(es[0].reason.unwrap().text(), "heterogeneous pointers cannot be subtracted");
}

#[test]
fn subtracting_pointers_of_one_type_gives_an_int() {
    let e = ws(
        Expr::Assign { lhs: Box::new(var(Y, 14)), rhs: Box::new(op(BinOp::Sub, var(X, 10), var(X, 11), 9)) },
        15,
    );
    let body = vec![
        decl(ty(BasisType::Bool, 1), X, None, 6),
        decl(int_ty(), Y, None, 7),
        expr_instr(e, 8),
        ret(Some(num(0, 13)), 12),
    ];
    assert!(typecheck(program(vec![fun(int_ty(), MAIN, vec![], body, 1)]), &names()).is_ok());
}

#[test]
fn comparing_incompatible_types_explains_the_expected_type() {
    let e = op(BinOp::Eq, num(1, 10), ws(Expr::Null, 11), 9);
    let es = main_body_errors(vec![expr_instr(e, 8), ret(Some(num(0, 13)), 12)]);
    assert_eq!(es.len(), 1);
    match &es[0].kind {
        ErrorKind::TypeMismatch { span, expected_type, found_type } => {
            assert_eq!(*span, sp(11));
            assert_eq!(*expected_type, pty(PartialBasisType::Int, 0));
            assert_eq!(*found_type, pty(PartialBasisType::Void, 1));
        },
        other => panic!("unexpected error {:?}", other),
    }
    assert_eq!(es[0].help, vec![Note::ExpectedTypeBecause(pty(PartialBasisType::Int, 0))]);
    let text = es[0].help[0].text();
    assert!(
        text == "Type `int` was expected because the expression "
            || text == "Type `\u{1b}[1mint\u{1b}[0m` was expected because the expression "
    );
}

#[test]
fn break_outside_a_loop_is_refused() {
    let es = main_body_errors(vec![instr(Instr::Break, 8), ret(Some(num(0, 13)), 12)]);
    assert_eq!(es.len(), 1);
    match &es[0].kind {
        ErrorKind::BreakContinueOutsideLoop { span } => assert_eq!(*span, sp(8)),
        other => panic!("unexpected error {:?}", other),
    }
}

#[test]
fn continue_in_a_loop_is_kept_as_a_jump() {
    let w = Instr::While { cond: num(1, 9), body: Box::new(ws(Instr::Continue, 10)) };
    let body = vec![instr(w, 8), ret(Some(num(0, 13)), 12)];
    let t = typecheck(program(vec![fun(int_ty(), MAIN, vec![], body, 1)]), &names()).unwrap();
    match &t.fun_decls[0].inner.code.instr[0] {
        full::DeclOrInstr::Instr(i) => match &i.instr {
            full::Instr::While { body, .. } => {
                assert_eq!(body.loop_level, 1);
                assert!(matches!(body.instr, full::Instr::Break));
            },
            other => panic!("unexpected instruction {:?}", other),
        },
        other => panic!("unexpected item {:?}", other),
    }
}

#[test]
fn variable_declared_twice_in_a_block() {
    let es = main_body_errors(vec![
        decl(int_ty(), X, None, 7),
        decl(int_ty(), X, None, 8),
        ret(Some(num(0, 13)), 12),
    ]);
    assert_eq!(es.len(), 1);
    match &es[0].kind {
        ErrorKind::SymbolDefinedTwice { first_definition, second_definition, name } => {
            assert_eq!(*first_definition, sp(7));
            assert_eq!(*second_definition, sp(8));
            assert_eq!(name, "x");
        },
        other => panic!("unexpected error {:?}", other),
    }
}

#[test]
fn shadowing_in_an_inner_block_is_allowed() {
    let inner = instr(Instr::Block(vec![decl(ty(BasisType::Bool, 1), X, None, 9)]), 8);
    let body = vec![decl(int_ty(), X, None, 7), inner, ret(Some(var(X, 11)), 10)];
    assert!(typecheck(program(vec![fun(int_ty(), MAIN, vec![], body, 1)]), &names()).is_ok());
}

#[test]
fn shadowed_variable_gets_its_type_back_after_the_block() {
    let inner = instr(Instr::Block(vec![decl(int_ty(), X, None, 9)]), 8);
    let body = vec![decl(ty(BasisType::Bool, 1), X, None, 7), inner, ret(Some(var(X, 11)), 10)];
    let es = main_body_errors(body);
    assert_eq!(es.len(), 1);
    match &es[0].kind {
        ErrorKind::TypeMismatch { expected_type, found_type, .. } => {
            assert_eq!(*expected_type, pty(PartialBasisType::Int, 0));
            assert_eq!(*found_type, pty(PartialBasisType::Bool, 1));
        },
        other => panic!("unexpected error {:?}", other),
    }
}

#[test]
fn function_declared_in_a_block_leaves_scope_after_it() {
    let inner = instr(
        Instr::Block(vec![DeclOrInstr::Fun(fun(int_ty(), F, vec![], vec![ret(Some(num(4, 42)), 41)], 40))]),
        8,
    );
    let body = vec![inner, ret(Some(call(F, vec![], 11)), 10)];
    let es = main_body_errors(body);
    assert_eq!(es.len(), 1);
    match &es[0].kind {
        ErrorKind::NameError { name, span } => {
            assert_eq!(name, "f");
            assert_eq!(*span, sp(11));
        },
        other => panic!("unexpected error {:?}", other),
    }
}

#[test]
fn function_declared_in_a_block_gives_back_the_outer_binding() {
    // `f` is a variable outside the block and a function inside it.
    let inner = instr(
        Instr::Block(vec![
            DeclOrInstr::Fun(fun(int_ty(), F, vec![], vec![ret(Some(num(4, 42)), 41)], 40)),
            expr_instr(call(F, vec![], 44), 43),
        ]),
        8,
    );
    let body = vec![decl(int_ty(), F, None, 7), inner, ret(Some(var(F, 11)), 10)];
    assert!(typecheck(program(vec![fun(int_ty(), MAIN, vec![], body, 1)]), &names()).is_ok());
}

#[test]
fn declaration_is_visible_only_after_it() {
    let before = main_body_errors(vec![
        expr_instr(var(X, 9), 8),
        decl(int_ty(), X, None, 7),
        ret(Some(num(0, 13)), 12),
    ]);
    assert_eq!(before.len(), 1);
    match &before[0].kind {
        ErrorKind::NameError { name, span } => {
            assert_eq!(name, "x");
            assert_eq!(*span, sp(9));
        },
        other => panic!("unexpected error {:?}", other),
    }
    let body = vec![decl(int_ty(), X, None, 7), expr_instr(var(X, 9), 8), ret(Some(num(0, 13)), 12)];
    let t = typecheck(program(vec![fun(int_ty(), MAIN, vec![], body, 1)]), &names()).unwrap();
    match &t.fun_decls[0].inner.code.instr[1] {
        full::DeclOrInstr::Instr(i) => match &i.instr {
            full::Instr::ExprInstr(e) => assert_eq!(e.ty, int_ty()),
            other => panic!("unexpected instruction {:?}", other),
        },
        other => panic!("unexpected item {:?}", other),
    }
}

#[test]
fn block_variable_is_out_of_scope_after_the_block() {
    let inner = instr(Instr::Block(vec![decl(int_ty(), X, None, 9)]), 8);
    let es = main_body_errors(vec![inner, ret(Some(var(X, 11)), 10)]);
    assert_eq!(es.len(), 1);
    assert!(matches!(es[0].kind, ErrorKind::NameError { .. }));
}

#[test]
fn void_variable_is_refused() {
    let es = main_body_errors(vec![decl(ty(BasisType::Void, 0), X, None, 7), ret(Some(num(0, 13)), 12)]);
    assert_eq!(es.len(), 1);
    match &es[0].kind {
        ErrorKind::VoidVariable { span, name } => {
            assert_eq!(*span, sp(7));
            assert_eq!(name, "x");
        },
        other => panic!("unexpected error {:?}", other),
    }
}

#[test]
fn initial_value_of_wrong_type() {
    let es = main_body_errors(vec![
        decl(int_ty(), X, Some(ws(Expr::Null, 9)), 7),
        ret(Some(num(0, 13)), 12),
    ]);
    assert_eq!(es.len(), 1);
    match &es[0].kind {
        ErrorKind::VariableTypeMismatch { expected_type, found_type, span, definition_span, variable_name } => {
            assert_eq!(*expected_type, pty(PartialBasisType::Int, 0));
            assert_eq!(*found_type, pty(PartialBasisType::Void, 1));
            assert_eq!(*span, sp(9));
            assert_eq!(*definition_span, sp(7).sup(&sp(107)));
            assert_eq!(variable_name, "x");
        },
        other => panic!("unexpected error {:?}", other),
    }
}

#[test]
fn variable_is_in_scope_in_its_own_initial_value() {
    let body = vec![decl(int_ty(), X, Some(var(X, 9)), 7), ret(Some(var(X, 11)), 10)];
    assert!(typecheck(program(vec![fun(int_ty(), MAIN, vec![], body, 1)]), &names()).is_ok());
}

#[test]
fn bare_return_in_int_function() {
    let es = main_body_errors(vec![ret(None, 8)]);
    assert_eq!(es.len(), 1);
    match &es[0].kind {
        ErrorKind::TypeMismatch { span, expected_type, found_type } => {
            assert_eq!(*span, sp(8));
            assert_eq!(*expected_type, pty(PartialBasisType::Int, 0));
            assert_eq!(*found_type, pty(PartialBasisType::Void, 0));
        },
        other => panic!("unexpected error {:?}", other),
    }
    assert_eq!(es[0].reason, Some(Note::ReturnNeedsVoid));
    assert_eq!(
        es[0].reason.unwrap().text(),
        "a `return` statement without arguments requires the current function to have a return type `void`"
    );
    assert_eq!(es[0].help, vec![Note::AddReturnValue(pty(PartialBasisType::Int, 0))]);
    let text = es[0].help[0].text();
    assert!(
        text == "try adding an argument `return /* int */;`"
            || text == "try adding an argument `\u{1b}[1mreturn /* int */;\u{1b}[0m`"
    );
}

#[test]
fn returning_a_value_of_wrong_type() {
    let es = main_body_errors(vec![ret(Some(ws(Expr::Null, 9)), 8)]);
    assert_eq!(es.len(), 1);
    match &es[0].kind {
        ErrorKind::TypeMismatch { span, expected_type, found_type } => {
            assert_eq!(*span, sp(8));
            assert_eq!(*expected_type, pty(PartialBasisType::Int, 0));
            assert_eq!(*found_type, pty(PartialBasisType::Void, 1));
        },
        other => panic!("unexpected error {:?}", other),
    }
}

#[test]
fn bool_and_int_are_interchangeable() {
    let body = vec![ret(Some(ws(Expr::True, 9)), 8)];
    assert!(typecheck(program(vec![fun(int_ty(), MAIN, vec![], body, 1)]), &names()).is_ok());
}

#[test]
fn malloc_result_converts_to_any_pointer() {
    let body = vec![
        decl(ty(BasisType::Int, 2), X, Some(call(MALLOC, vec![num(8, 10)], 9)), 7),
        ret(Some(num(0, 13)), 12),
    ];
    assert!(typecheck(program(vec![fun(int_ty(), MAIN, vec![], body, 1)]), &names()).is_ok());
}

#[test]
fn recursive_call_and_parameters() {
    let f = fun(
        int_ty(),
        F,
        vec![(int_ty(), X)],
        vec![ret(Some(call(F, vec![op(BinOp::Sub, var(X, 12), num(1, 13), 14)], 11)), 10)],
        20,
    );
    let t = typecheck(program(vec![f, main_returning_zero(30)]), &names()).unwrap();
    assert_eq!(t.fun_decls.len(), 2);
    let fd = &t.fun_decls[0].inner;
    assert_eq!(fd.params.len(), 1);
    assert_eq!(fd.params[0].0.inner, int_ty());
    assert_eq!(fd.params[0].1.inner, X);
    // The parameters are not repeated among the items of the body.
    assert_eq!(fd.code.instr.len(), 1);
}

#[test]
fn later_function_is_unknown_to_earlier_one() {
    let f = fun(int_ty(), F, vec![], vec![ret(Some(call(G, vec![], 11)), 10)], 20);
    let g = fun(int_ty(), G, vec![], vec![ret(Some(num(1, 13)), 12)], 25);
    let es = typecheck(program(vec![f, g, main_returning_zero(30)]), &names()).unwrap_err();
    assert_eq!(es.len(), 1);
    assert!(matches!(es[0].kind, ErrorKind::NameError { .. }));
}

#[test]
fn nested_function_declaration() {
    let inner = DeclOrInstr::Fun(fun(int_ty(), F, vec![], vec![ret(Some(num(4, 42)), 41)], 40));
    let body = vec![inner, ret(Some(call(F, vec![], 11)), 10)];
    let t = typecheck(program(vec![fun(int_ty(), MAIN, vec![], body, 1)]), &names()).unwrap();
    match &t.fun_decls[0].inner.code.instr[0] {
        full::DeclOrInstr::Fun(f) => {
            assert_eq!(f.span, sp(40));
            assert_eq!(f.inner.name.inner, F);
        },
        other => panic!("unexpected item {:?}", other),
    }
}

#[test]
fn for_loop_with_declaration_becomes_a_block() {
    let for_loop = Instr::For {
        loop_var: Some(ws(VarDecl { ty: ws(int_ty(), 20), name: ws(X, 21), value: Some(num(0, 22)) }, 23)),
        cond: Some(op(BinOp::Lt, var(X, 24), num(10, 25), 26)),
        incr: vec![ws(Expr::PostfixIncr(Box::new(var(X, 27))), 28)],
        body: Box::new(ws(Instr::Break, 29)),
    };
    let body = vec![instr(for_loop, 8), ret(Some(num(0, 13)), 12)];
    let t = typecheck(program(vec![fun(int_ty(), MAIN, vec![], body, 1)]), &names()).unwrap();
    match &t.fun_decls[0].inner.code.instr[0] {
        full::DeclOrInstr::Instr(i) => match &i.instr {
            full::Instr::Block(items) => {
                assert_eq!(items.len(), 2);
                assert!(matches!(items[0], full::DeclOrInstr::Var(_)));
                match &items[1] {
                    full::DeclOrInstr::Instr(f) => match &f.instr {
                        full::Instr::For { loop_var, incr, body, .. } => {
                            assert!(loop_var.is_none());
                            assert_eq!(incr.len(), 1);
                            assert_eq!(body.loop_level, 1);
                        },
                        other => panic!("unexpected instruction {:?}", other),
                    },
                    other => panic!("unexpected item {:?}", other),
                }
            },
            other => panic!("unexpected instruction {:?}", other),
        },
        other => panic!("unexpected item {:?}", other),
    }
}

#[test]
fn for_loop_variable_is_out_of_scope_after_the_loop() {
    let for_loop = Instr::For {
        loop_var: Some(ws(VarDecl { ty: ws(int_ty(), 20), name: ws(X, 21), value: None }, 23)),
        cond: None,
        incr: vec![],
        body: Box::new(ws(Instr::Break, 29)),
    };
    let es = main_body_errors(vec![instr(for_loop, 8), ret(Some(var(X, 11)), 10)]);
    assert_eq!(es.len(), 1);
    assert!(matches!(es[0].kind, ErrorKind::NameError { .. }));
}

#[test]
fn errors_come_in_program_order() {
    let body = vec![
        expr_instr(var(X, 9), 8),
        expr_instr(var(Y, 11), 10),
        ret(Some(num(0, 13)), 12),
    ];
    let es = main_body_errors(body);
    assert_eq!(es.len(), 2);
    match (&es[0].kind, &es[1].kind) {
        (ErrorKind::NameError { name: a, .. }, ErrorKind::NameError { name: b, .. }) => {
            assert_eq!(a, "x");
            assert_eq!(b, "y");
        },
        other => panic!("unexpected errors {:?}", other),
    }
}

#[test]
fn earlier_function_is_known_to_later_one() {
    let f = fun(int_ty(), F, vec![(int_ty(), X)], vec![ret(Some(var(X, 11)), 10)], 20);
    let m = fun(int_ty(), MAIN, vec![], vec![ret(Some(call(F, vec![num(3, 32)], 31)), 30)], 40);
    let t = typecheck(program(vec![f, m]), &names()).unwrap();
    match &t.fun_decls[1].inner.code.instr[0] {
        full::DeclOrInstr::Instr(i) => match &i.instr {
            full::Instr::Return(Some(e)) => {
                assert_eq!(e.ty, int_ty());
                match &e.inner {
                    full::Expr::Call { name, args } => {
                        assert_eq!(name.inner, F);
                        assert_eq!(args.len(), 1);
                        assert_eq!(args[0].ty, int_ty());
                    },
                    other => panic!("unexpected expression {:?}", other),
                }
            },
            other => panic!("unexpected instruction {:?}", other),
        },
        other => panic!("unexpected item {:?}", other),
    }
}

#[test]
fn parameter_is_out_of_scope_in_the_next_function() {
    let f = fun(int_ty(), F, vec![(int_ty(), X)], vec![ret(Some(var(X, 11)), 10)], 20);
    let m = fun(int_ty(), MAIN, vec![], vec![ret(Some(var(X, 31)), 30)], 40);
    let es = typecheck(program(vec![f, m]), &names()).unwrap_err();
    assert_eq!(es.len(), 1);
    match &es[0].kind {
        ErrorKind::NameError { name, span } => {
            assert_eq!(name, "x");
            assert_eq!(*span, sp(31));
        },
        other => panic!("unexpected error {:?}", other),
    }
}

#[test]
fn body_variable_named_like_a_parameter() {
    let f = fun(
        int_ty(),
        F,
        vec![(int_ty(), X)],
        vec![decl(int_ty(), X, None, 12), ret(Some(var(X, 11)), 10)],
        20,
    );
    let es = typecheck(program(vec![f, main_returning_zero(30)]), &names()).unwrap_err();
    assert_eq!(es.len(), 1);
    match &es[0].kind {
        ErrorKind::SymbolDefinedTwice { first_definition, second_definition, name } => {
            assert_eq!(*first_definition, sp(21).sup(&sp(22)));
            assert_eq!(*second_definition, sp(12));
            assert_eq!(name, "x");
        },
        other => panic!("unexpected error {:?}", other),
    }
}

#[test]
fn adding_int_and_void_is_a_cast_error() {
    let f = fun(ty(BasisType::Void, 0), F, vec![], vec![], 30);
    let e = op(BinOp::Add, num(1, 10), call(F, vec![], 11), 9);
    let body = vec![expr_instr(e, 8), ret(Some(num(0, 13)), 12)];
    let es = typecheck(program(vec![f, fun(int_ty(), MAIN, vec![], body, 1)]), &names()).unwrap_err();
    assert_eq!(es.len(), 1);
    match &es[0].kind {
        ErrorKind::BuiltinBinopTypeMismatch { left_type, right_type, op, .. } => {
            assert_eq!(*left_type, pty(PartialBasisType::Int, 0));
            assert_eq!(*right_type, pty(PartialBasisType::Void, 0));
            assert_eq!(*op, '+');
        },
        other => panic!("unexpected error {:?}", other),
    }
    assert_eq!(
        es[0].reason,
        Some(Note::CastingUndefined(pty(PartialBasisType::Int, 0), pty(PartialBasisType::Void, 0)))
    );
    assert_eq!(es[0].reason.unwrap().text(), "casting between int and void is undefined");
}

#[test]
fn error_type_does_not_cascade() {
    // `*y` for an unknown `y` has the error type, which is compatible with
    // everything: only the unknown name is reported.
    let e = op(BinOp::Mul, ws(Expr::Deref(Box::new(var(Y, 10))), 11), num(2, 12), 9);
    let es = main_body_errors(vec![expr_instr(e, 8), ret(Some(num(0, 14)), 13)]);
    assert_eq!(es.len(), 1);
    assert!(matches!(es[0].kind, ErrorKind::NameError { .. }));
}
