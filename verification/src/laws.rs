//! Facts about types that hold of every input.
use vstd::prelude::*;
use crate::model::known;
use crate::types::{
    PartialBasisType, PartialType, Type, compatible, deref_of, error_t, from_basic, is_ptr,
    ptr_to, to_basic, void_ptr_t,
};

verus! {

/// Every type is compatible with itself.
pub proof fn compatible_reflexive(t: PartialType)
    ensures
        compatible(t, t),
{
}

/// The error type, which stands for a type lost to an earlier error, is
/// compatible with every type, on either side.
pub proof fn error_compatible_both_ways(t: PartialType)
    ensures
        compatible(t, error_t()),
        compatible(error_t(), t),
{
}

/// `void*` is compatible with every pointer type, on either side.
pub proof fn void_pointer_compatible(t: PartialType)
    requires
        is_ptr(t),
    ensures
        compatible(t, void_ptr_t()),
        compatible(void_ptr_t(), t),
{
}

/// Between types that do not stem from an error, compatibility does not
/// depend on the order of the two types.
pub proof fn compatible_symmetric(a: PartialType, b: PartialType)
    requires
        a.basis != PartialBasisType::Error,
        b.basis != PartialBasisType::Error,
    ensures
        compatible(a, b) == compatible(b, a),
{
}

/// A fully known type survives the trip through partial types.
pub proof fn basic_round_trip(t: Type)
    ensures
        to_basic(from_basic(t)) == Some(t),
{
}

/// A partial type whose basis is known is the partial type of its fully
/// known type.
pub proof fn known_round_trip(t: PartialType)
    requires
        known(t),
    ensures
        from_basic(to_basic(t).unwrap()) == t,
{
}

/// Dereferencing a pointer to `t` gives `t` back.
pub proof fn deref_of_pointer(t: PartialType)
    requires
        t.indirection_count < usize::MAX,
    ensures
        deref_of(ptr_to(t)) == Some(t),
{
}

} // verus!
