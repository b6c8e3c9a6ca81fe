use std::path::Path;

use beans::span::Span;
use typeck::env::{Binding, Environment};
use typeck::types::PartialType;

fn sp(n: usize) -> Span {
    Span::new(Path::new("env.c"), (n, 0), (n, 1), n, n + 1, "", Vec::<usize>::new())
}

#[test]
fn environment_reads_back_what_was_written() {
    let mut env = Environment::new();
    assert!(env.get(3).is_none());
    env.insert(3, (Binding::Var(PartialType::int_type()), Some(sp(1))));
    match env.get(3) {
        Some((Binding::Var(t), Some(s))) => {
            assert_eq!(*t, PartialType::int_type());
            assert_eq!(*s, sp(1));
        },
        _ => panic!("binding not found"),
    }
    env.insert(3, (Binding::Fun((PartialType::bool_type(), vec![PartialType::int_type()])), None));
    match env.get(3) {
        Some((Binding::Fun((r, ps)), None)) => {
            assert_eq!(*r, PartialType::bool_type());
            assert_eq!(ps.clone(), vec![PartialType::int_type()]);
        },
        _ => panic!("binding not replaced"),
    }
    assert!(env.remove(3).is_some());
    assert!(env.get(3).is_none());
    assert!(env.remove(3).is_none());
}
