//! The errors that checking reports.
use vstd::prelude::*;
use beans::span::Span;
use crate::style::{bold, emphasis, escape_free};
use crate::types::{PartialType, Type, basis_name, stars, written_type};

verus! {

/// A remark attached to an error, as its reason or as a help.
#[derive(Debug, Clone, Copy, PartialEq, Eq, Structural)]
pub enum Note {
    /// Binding the expression to a variable would give it an address.
    AllocateRvalue,
    /// The type (written in bold) was expected because of the left operand.
    ExpectedTypeBecause(PartialType),
    /// Pointers cannot be added.
    PointersCannotBeAdded,
    /// Maybe the pointers were meant to be subtracted.
    SubtractPointersInstead,
    /// Casting between the two types is undefined.
    CastingUndefined(PartialType, PartialType),
    /// Addition over the type is undefined.
    AdditionUndefined(PartialType),
    /// Pointers of different types cannot be subtracted.
    HeterogeneousPointers,
    /// Maybe the operands were meant the other way around.
    SwapOperands,
    /// An internal inconsistency.
    ShouldNotHappen,
    /// A `return` without a value needs a `void` function.
    ReturnNeedsVoid,
    /// Add a value of the type to the `return`.
    AddReturnValue(PartialType),
}

#[derive(Debug)]
pub enum ErrorKind {
    NameError { name: String, span: Span },
    SizeofVoid { span: Span },
    AddressOfRvalue { span: Span, expression_span: Span },
    DerefVoidPointer { span: Span },
    DerefNonPointer { ty: Type, span: Span },
    RvalueAssignment { span: Span },
    TypeMismatch { span: Span, expected_type: PartialType, found_type: PartialType },
    IncrOrDecrRvalue { span: Span, expression_span: Span },
    VoidExpression { span: Span },
    BuiltinBinopTypeMismatch {
        left_type: PartialType,
        right_type: PartialType,
        span: Span,
        op: char,
    },
    ArityMismatch {
        found_arity: usize,
        expected_arity: usize,
        span: Span,
        definition_span: Option<Span>,
        function_name: String,
    },
    BreakContinueOutsideLoop { span: Span },
    SymbolDefinedTwice { first_definition: Span, second_definition: Span, name: String },
    VoidVariable { span: Span, name: String },
    VariableTypeMismatch {
        expected_type: PartialType,
        found_type: PartialType,
        span: Span,
        definition_span: Span,
        variable_name: String,
    },
    IncorrectMainFunctionType { ty: Type, params: Vec<PartialType>, span: Span },
    NoMainFunction,
    FunctionDefinedTwice {
        first_definition: Option<Span>,
        second_definition: Span,
        name: String,
    },
}

/// An error: what went wrong, possibly why, and possibly how to mend it.
#[derive(Debug)]
pub struct Error {
    pub kind: ErrorKind,
    pub reason: Option<Note>,
    pub help: Vec<Note>,
}

/// `ErrorKind` with names as character sequences.
pub enum KindV {
    NameError { name: Seq<char>, span: Span },
    SizeofVoid { span: Span },
    AddressOfRvalue { span: Span, expression_span: Span },
    DerefVoidPointer { span: Span },
    DerefNonPointer { ty: Type, span: Span },
    RvalueAssignment { span: Span },
    TypeMismatch { span: Span, expected_type: PartialType, found_type: PartialType },
    IncrOrDecrRvalue { span: Span, expression_span: Span },
    VoidExpression { span: Span },
    BuiltinBinopTypeMismatch {
        left_type: PartialType,
        right_type: PartialType,
        span: Span,
        op: char,
    },
    ArityMismatch {
        found_arity: usize,
        expected_arity: usize,
        span: Span,
        definition_span: Option<Span>,
        function_name: Seq<char>,
    },
    BreakContinueOutsideLoop { span: Span },
    SymbolDefinedTwice { first_definition: Span, second_definition: Span, name: Seq<char> },
    VoidVariable { span: Span, name: Seq<char> },
    VariableTypeMismatch {
        expected_type: PartialType,
        found_type: PartialType,
        span: Span,
        definition_span: Span,
        variable_name: Seq<char>,
    },
    IncorrectMainFunctionType { ty: Type, params: Seq<PartialType>, span: Span },
    NoMainFunction,
    FunctionDefinedTwice {
        first_definition: Option<Span>,
        second_definition: Span,
        name: Seq<char>,
    },
}

pub struct ErrorV {
    pub kind: KindV,
    pub reason: Option<Note>,
    pub help: Seq<Note>,
}

impl View for ErrorKind {
    type V = KindV;

    open spec fn view(&self) -> KindV {
        match *self {
            ErrorKind::NameError { name, span } => KindV::NameError { name: name@, span },
            ErrorKind::SizeofVoid { span } => KindV::SizeofVoid { span },
            ErrorKind::AddressOfRvalue { span, expression_span } => KindV::AddressOfRvalue {
                span,
                expression_span,
            },
            ErrorKind::DerefVoidPointer { span } => KindV::DerefVoidPointer { span },
            ErrorKind::DerefNonPointer { ty, span } => KindV::DerefNonPointer { ty, span },
            ErrorKind::RvalueAssignment { span } => KindV::RvalueAssignment { span },
            ErrorKind::TypeMismatch { span, expected_type, found_type } => KindV::TypeMismatch {
                span,
                expected_type,
                found_type,
            },
            ErrorKind::IncrOrDecrRvalue { span, expression_span } => KindV::IncrOrDecrRvalue {
                span,
                expression_span,
            },
            ErrorKind::VoidExpression { span } => KindV::VoidExpression { span },
            ErrorKind::BuiltinBinopTypeMismatch {
                left_type,
                right_type,
                span,
                op,
            } => KindV::BuiltinBinopTypeMismatch { left_type, right_type, span, op },
            ErrorKind::ArityMismatch {
                found_arity,
                expected_arity,
                span,
                definition_span,
                function_name,
            } => KindV::ArityMismatch {
                found_arity,
                expected_arity,
                span,
                definition_span,
                function_name: function_name@,
            },
            ErrorKind::BreakContinueOutsideLoop { span } => KindV::BreakContinueOutsideLoop {
                span,
            },
            ErrorKind::SymbolDefinedTwice {
                first_definition,
                second_definition,
                name,
            } => KindV::SymbolDefinedTwice { first_definition, second_definition, name: name@ },
            ErrorKind::VoidVariable { span, name } => KindV::VoidVariable { span, name: name@ },
            ErrorKind::VariableTypeMismatch {
                expected_type,
                found_type,
                span,
                definition_span,
                variable_name,
            } => KindV::VariableTypeMismatch {
                expected_type,
                found_type,
                span,
                definition_span,
                variable_name: variable_name@,
            },
            ErrorKind::IncorrectMainFunctionType {
                ty,
                params,
                span,
            } => KindV::IncorrectMainFunctionType { ty, params: params@, span },
            ErrorKind::NoMainFunction => KindV::NoMainFunction,
            ErrorKind::FunctionDefinedTwice {
                first_definition,
                second_definition,
                name,
            } => KindV::FunctionDefinedTwice { first_definition, second_definition, name: name@ },
        }
    }
}

impl View for Error {
    type V = ErrorV;

    open spec fn view(&self) -> ErrorV {
        ErrorV { kind: self.kind@, reason: self.reason, help: self.help@ }
    }
}

/// The view of each error of a list.
pub open spec fn errors_view(es: Seq<Error>) -> Seq<ErrorV> {
    Seq::new(es.len(), |i: int| es[i]@)
}

pub open spec fn plain(k: KindV) -> ErrorV {
    ErrorV { kind: k, reason: None, help: seq![] }
}

impl Error {
    /// An error of the given kind, with no reason and no help.
    pub fn new(kind: ErrorKind) -> (e: Error)
        ensures
            e@ == plain(kind@),
    {
        Error { kind, reason: None, help: Vec::new() }
    }

    /// The same error with `note` as its reason.
    pub fn reason(self, note: Note) -> (e: Error)
        ensures
            e@ == (ErrorV { reason: Some(note), ..self@ }),
    {
        Error { kind: self.kind, reason: Some(note), help: self.help }
    }

    /// The same error with `note` added to its help.
    pub fn add_help(self, note: Note) -> (e: Error)
        ensures
            e@ == (ErrorV { help: self@.help.push(note), ..self@ }),
    {
        let mut help = self.help;
        help.push(note);
        Error { kind: self.kind, reason: self.reason, help }
    }
}

/// The text of a note, with its one emphasized part, if any, in bold
/// (`on`) or not.
pub open spec fn note_text(n: Note, on: bool) -> Seq<char> {
    match n {
        Note::AllocateRvalue => "you could allocate this expression, by binding it to a variable"@,
        Note::ExpectedTypeBecause(t) => "Type `"@ + emphasis(written_type(t), on)
            + "` was expected because the expression "@,
        Note::PointersCannotBeAdded => "pointers cannot be added."@,
        Note::SubtractPointersInstead => "maybe you meant to subtract the pointers?"@,
        Note::CastingUndefined(a, b) => "casting between "@ + written_type(a) + " and "@
            + written_type(b) + " is undefined"@,
        Note::AdditionUndefined(a) => "addition over `"@ + written_type(a) + "` is undefined"@,
        Note::HeterogeneousPointers => "heterogeneous pointers cannot be subtracted"@,
        Note::SwapOperands => "maybe you meant to have the operands the other way around"@,
        Note::ShouldNotHappen => "this should not happen"@,
        Note::ReturnNeedsVoid => "a `return` statement without arguments requires the current function to have a return type `void`"@,
        Note::AddReturnValue(t) => "try adding an argument `"@ + emphasis(
            "return /* "@ + written_type(t) + " */;"@,
            on,
        ) + "`"@,
    }
}

proof fn lemma_stars_escape_free(n: nat)
    ensures
        escape_free(stars(n)),
    decreases n,
{
    if n > 0 {
        lemma_stars_escape_free((n - 1) as nat);
    }
}

proof fn lemma_written_escape_free(t: PartialType)
    ensures
        escape_free(written_type(t)),
{
    lemma_stars_escape_free(t.indirection_count as nat);
    let w = written_type(t);
    let b = basis_name(t.basis);
    assert forall|i: int| 0 <= i < w.len() implies w[i] != '\x1B' by {
        if i >= b.len() {
            assert(w[i] == stars(t.indirection_count as nat)[i - b.len()]);
        }
    }
}

impl Note {
    /// The note as it is shown to the user. Where it names a type to
    /// insist on, that part is in bold when the terminal shows colour.
    pub fn text(&self) -> (r: String)
        ensures
            r@ == note_text(*self, false) || r@ == note_text(*self, true),
    {
        match self {
            Note::AllocateRvalue => String::from_str(
                "you could allocate this expression, by binding it to a variable",
            ),
            Note::ExpectedTypeBecause(t) => {
                let mut s = String::from_str("Type `");
                let ty = t.display();
                proof {
                    lemma_written_escape_free(*t);
                }
                let b = bold(ty.as_str());
                s.append(b.as_str());
                s.append("` was expected because the expression ");
                s
            },
            Note::PointersCannotBeAdded => String::from_str("pointers cannot be added."),
            Note::SubtractPointersInstead => String::from_str(
                "maybe you meant to subtract the pointers?",
            ),
            Note::CastingUndefined(a, b) => {
                let mut s = String::from_str("casting between ");
                let x = a.display();
                s.append(x.as_str());
                s.append(" and ");
                let y = b.display();
                s.append(y.as_str());
                s.append(" is undefined");
                s
            },
            Note::AdditionUndefined(a) => {
                let mut s = String::from_str("addition over `");
                let x = a.display();
                s.append(x.as_str());
                s.append("` is undefined");
                s
            },
            Note::HeterogeneousPointers => String::from_str(
                "heterogeneous pointers cannot be subtracted",
            ),
            Note::SwapOperands => String::from_str(
                "maybe you meant to have the operands the other way around",
            ),
            Note::ShouldNotHappen => String::from_str("this should not happen"),
            Note::ReturnNeedsVoid => String::from_str(
                "a `return` statement without arguments requires the current function to have a return type `void`",
            ),
            Note::AddReturnValue(t) => {
                let mut code = String::from_str("return /* ");
                let x = t.display();
                code.append(x.as_str());
                code.append(" */;");
                proof {
                    reveal_strlit("return /* ");
                    reveal_strlit(" */;");
                    lemma_written_escape_free(*t);
                    let w = code@;
                    let a = "return /* "@;
                    let m = written_type(*t);
                    assert forall|i: int| 0 <= i < w.len() implies w[i] != '\x1B' by {
                        if i < a.len() {
                            assert(w[i] == a[i]);
                        } else if i < a.len() + m.len() {
                            assert(w[i] == m[i - a.len()]);
                        } else {
                            assert(w[i] == " */;"@[i - a.len() - m.len()]);
                        }
                    }
                }
                let b = bold(code.as_str());
                let mut s = String::from_str("try adding an argument `");
                s.append(b.as_str());
                s.append("`");
                s
            },
        }
    }
}

} // verus!
