//! The annotations that checking adds to a tree.
use vstd::prelude::*;
use beans::span::Span;
use crate::types::Type;

verus! {

/// Marks trees whose types may still be unknown (`partial` module).
#[derive(Debug)]
pub struct PartialTypeAnnotation;

/// Marks trees whose types are all known (`full` module).
#[derive(Debug)]
pub struct TypeAnnotation;

/// An expression (or a missing one) with its type and span.
#[derive(Debug)]
pub struct WithType<U, T> {
    pub inner: U,
    pub ty: T,
    pub span: Span,
}

impl<U, T> WithType<U, T> {
    pub fn new(inner: U, ty: T, span: Span) -> (r: Self)
        ensures
            r.inner == inner,
            r.ty == ty,
            r.span == span,
    {
        WithType { inner, ty, span }
    }
}

/// An instruction with its span, the loop depth it sits at, and the
/// return type of the function around it.
#[derive(Debug)]
pub struct TypedInstr<U, T = Type> {
    pub instr: U,
    pub span: Span,
    pub loop_level: usize,
    pub expected_return_type: T,
}

} // verus!
