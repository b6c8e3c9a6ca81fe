//! Source locations, as the `beans` parser records them, and values
//! tagged with one.
use vstd::prelude::*;
use beans::span::Span;

verus! {

/// `beans::span::Span`, carried through type checking unopened.
#[verifier::external_type_specification]
#[verifier::external_body]
pub struct ExSpan(Span);

/// `Span`'s derived `Clone` copies every field (the file, two positions,
/// two byte offsets), so the copy equals the value it was made from.
pub assume_specification[ <Span as Clone>::clone ](s: &Span) -> (r: Span)
    ensures
        r == *s,
;

/// The span that `Span::sup` returns for two spans: in the first span's
/// file, from the smaller of the two starts (line, then column) to the
/// larger of the two ends, and from the smaller start offset to the larger
/// end offset. The fields of `Span` are private, so only this name for the
/// result is stated, not the fields.
pub uninterp spec fn span_sup(a: Span, b: Span) -> Span;

/// Calls `Span::sup`, whose result depends on its two arguments alone:
/// the result is `span_sup` of the two spans.
#[verifier::external_body]
pub(crate) fn sup(a: &Span, b: &Span) -> (r: Span)
    ensures
        r == span_sup(*a, *b),
{
    a.sup(b)
}

/// A value together with the span of source text it comes from.
#[derive(Debug)]
pub struct WithSpan<T> {
    pub inner: T,
    pub span: Span,
}

impl<T> WithSpan<T> {
    pub fn new(inner: T, span: Span) -> (r: Self)
        ensures
            r.inner == inner,
            r.span == span,
    {
        WithSpan { inner, span }
    }
}

} // verus!
