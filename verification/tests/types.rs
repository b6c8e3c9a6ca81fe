use typeck::error::Note;
use typeck::types::{BasisType, PartialBasisType, PartialType, Type};

fn pty(basis: PartialBasisType, indirection_count: usize) -> PartialType {
    PartialType { basis, indirection_count }
}

#[test]
fn type_display_writes_stars() {
    assert_eq!(pty(PartialBasisType::Int, 2).display(), "int**");
    assert_eq!(pty(PartialBasisType::Void, 1).display(), "void*");
    assert_eq!(pty(PartialBasisType::Bool, 0).display(), "bool");
    assert_eq!(pty(PartialBasisType::Error, 0).display(), "{unknown}");
}

#[test]
fn compatibility_is_reflexive() {
    for basis in [PartialBasisType::Void, PartialBasisType::Int, PartialBasisType::Bool, PartialBasisType::Error] {
        for n in 0..3 {
            let t = pty(basis, n);
            assert!(PartialBasisType::is_eq(&t, &t));
        }
    }
}

#[test]
fn error_type_is_compatible_both_ways() {
    let e = PartialType::error_type();
    for basis in [PartialBasisType::Void, PartialBasisType::Int, PartialBasisType::Bool] {
        for n in 0..3 {
            let t = pty(basis, n);
            assert!(PartialBasisType::is_eq(&t, &e));
            assert!(PartialBasisType::is_eq(&e, &t));
        }
    }
}

#[test]
fn void_pointer_is_compatible_with_pointers() {
    let v = PartialType::void_type().ptr();
    for basis in [PartialBasisType::Int, PartialBasisType::Bool] {
        for n in 1..4 {
            let t = pty(basis, n);
            assert!(PartialBasisType::is_eq(&t, &v));
            assert!(PartialBasisType::is_eq(&v, &t));
        }
    }
}

#[test]
fn compatibility_examples() {
    let int_t = PartialType::int_type();
    let boolean = PartialType::bool_type();
    let void = PartialType::void_type();
    assert!(PartialBasisType::is_eq(&int_t, &boolean));
    assert!(PartialBasisType::is_eq(&boolean, &int_t));
    assert!(!PartialBasisType::is_eq(&int_t, &void));
    assert!(!PartialBasisType::is_eq(&int_t.ptr(), &boolean.ptr()));
    assert!(!PartialBasisType::is_eq(&int_t.ptr(), &int_t));
    // An error-based pointer on the left is not compatible with a deeper
    // pointer on the right, though the other way round is.
    let e3 = pty(PartialBasisType::Error, 3);
    let i2 = pty(PartialBasisType::Int, 2);
    assert!(PartialBasisType::is_eq(&i2, &e3));
    assert!(!PartialBasisType::is_eq(&e3, &i2));
}

#[test]
fn basic_round_trips() {
    for basis in [BasisType::Void, BasisType::Int, BasisType::Bool] {
        let t = Type { basis, indirection_count: 2 };
        assert_eq!(t.from_basic().to_basic(), Some(t));
    }
    assert_eq!(pty(PartialBasisType::Error, 1).to_basic(), None);
    assert_eq!(PartialBasisType::Error.to_basic(), None);
    assert_eq!(PartialBasisType::Int.to_basic(), Some(BasisType::Int));
}

#[test]
fn deref_of_pointer_gives_pointee() {
    let t = pty(PartialBasisType::Bool, 1);
    assert_eq!(t.ptr().deref_ptr(), Some(t));
    assert_eq!(pty(PartialBasisType::Int, 0).deref_ptr(), None);
}

#[test]
fn void_and_pointer_predicates() {
    assert!(PartialType::void_type().is_void());
    assert!(!PartialType::void_type().ptr().is_void());
    assert!(PartialType::void_type().ptr().is_ptr());
    assert!(!PartialType::int_type().is_ptr());
    assert_eq!(Type::int_type(), Type { basis: BasisType::Int, indirection_count: 0 });
    assert_eq!(Type::void_type().from_basic(), PartialType::void_type());
}

#[test]
fn note_texts() {
    let int_t = PartialType::int_type();
    let b = PartialType::bool_type().ptr();
    assert_eq!(Note::CastingUndefined(int_t, b).text(), "casting between int and bool* is undefined");
    assert_eq!(Note::AdditionUndefined(b).text(), "addition over `bool*` is undefined");
    assert_eq!(Note::ShouldNotHappen.text(), "this should not happen");
    let t = Note::AddReturnValue(b).text();
    assert!(
        t == "try adding an argument `return /* bool* */;`"
            || t == "try adding an argument `\u{1b}[1mreturn /* bool* */;\u{1b}[0m`"
    );
}

#[test]
fn emphasis_follows_the_colour_setting() {
    let note = Note::ExpectedTypeBecause(PartialType::int_type().ptr());
    colored::control::set_override(true);
    assert_eq!(note.text(), "Type `\u{1b}[1mint*\u{1b}[0m` was expected because the expression ");
    colored::control::set_override(false);
    assert_eq!(note.text(), "Type `int*` was expected because the expression ");
    colored::control::unset_override();
}
