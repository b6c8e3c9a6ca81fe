//! Types of the source language: a basis (`void`, `int`, `bool`) and a
//! number of pointer indirections. During checking a fourth basis,
//! `Error`, stands for "unknown because of an error already reported".
use vstd::prelude::*;

verus! {

/// Basis of a fully known type.
#[derive(Debug, Clone, Copy, PartialEq, Eq, Structural)]
pub enum BasisType {
    Void,
    Int,
    Bool,
}

/// Basis of a type computed while checking: a known basis, or `Error`.
#[derive(Debug, Clone, Copy, PartialEq, Eq, Structural)]
pub enum PartialBasisType {
    Void,
    Int,
    Bool,
    Error,
}

/// A fully known type: `basis` followed by `indirection_count` stars.
#[derive(Debug, Clone, Copy, PartialEq, Eq, Structural)]
pub struct Type {
    pub basis: BasisType,
    pub indirection_count: usize,
}

/// A type computed while checking, whose basis may be `Error`.
#[derive(Debug, Clone, Copy, PartialEq, Eq, Structural)]
pub struct PartialType {
    pub basis: PartialBasisType,
    pub indirection_count: usize,
}

/// The largest indirection count accepted in declared types: with
/// `ast::MAX_DEPTH` levels of `&` on top, a computed type's count stays
/// below 2^31, within a `usize` on 32-bit machines too (a machine limit).
pub const MAX_DECLARED_INDIRECTION: usize = 0x4000_0000;

pub open spec fn basic_of(b: PartialBasisType) -> Option<BasisType> {
    match b {
        PartialBasisType::Void => Some(BasisType::Void),
        PartialBasisType::Int => Some(BasisType::Int),
        PartialBasisType::Bool => Some(BasisType::Bool),
        PartialBasisType::Error => None,
    }
}

pub open spec fn partial_of(b: BasisType) -> PartialBasisType {
    match b {
        BasisType::Void => PartialBasisType::Void,
        BasisType::Int => PartialBasisType::Int,
        BasisType::Bool => PartialBasisType::Bool,
    }
}

pub open spec fn pt(basis: PartialBasisType, n: usize) -> PartialType {
    PartialType { basis, indirection_count: n }
}

pub open spec fn void_t() -> PartialType {
    pt(PartialBasisType::Void, 0)
}

pub open spec fn int_t() -> PartialType {
    pt(PartialBasisType::Int, 0)
}

pub open spec fn bool_t() -> PartialType {
    pt(PartialBasisType::Bool, 0)
}

pub open spec fn error_t() -> PartialType {
    pt(PartialBasisType::Error, 0)
}

/// `void*`, the type of `NULL` and of the memory allocator's result.
pub open spec fn void_ptr_t() -> PartialType {
    pt(PartialBasisType::Void, 1)
}

pub open spec fn full_void() -> Type {
    Type { basis: BasisType::Void, indirection_count: 0 }
}

pub open spec fn full_int() -> Type {
    Type { basis: BasisType::Int, indirection_count: 0 }
}

pub open spec fn is_ptr(t: PartialType) -> bool {
    t.indirection_count > 0
}

/// The partial type of a fully known type.
pub open spec fn from_basic(t: Type) -> PartialType {
    PartialType { basis: partial_of(t.basis), indirection_count: t.indirection_count }
}

/// The fully known type of a partial type, if its basis is known.
pub open spec fn to_basic(t: PartialType) -> Option<Type> {
    match basic_of(t.basis) {
        Some(b) => Some(Type { basis: b, indirection_count: t.indirection_count }),
        None => None,
    }
}

pub open spec fn ptr_to(t: PartialType) -> PartialType {
    PartialType { basis: t.basis, indirection_count: (t.indirection_count + 1) as usize }
}

pub open spec fn deref_of(t: PartialType) -> Option<PartialType> {
    if t.indirection_count > 0 {
        Some(PartialType { basis: t.basis, indirection_count: (t.indirection_count - 1) as usize })
    } else {
        None
    }
}

/// `int` or `bool`, without indirection.
pub open spec fn int_like(t: PartialType) -> bool {
    !is_ptr(t) && (t.basis == PartialBasisType::Int || t.basis == PartialBasisType::Bool)
}

/// Compatibility of two types, as assignment, arguments and operators
/// use it (`left` is the type expected, `right` the one found, except in
/// comparisons). Two types are compatible when:
/// - they are equal;
/// - both are pointers and one of them is `void*`;
/// - the right one stems from an error, unless it is a pointer and the
///   left one is not;
/// - the left one is a non-pointer that stems from an error;
/// - both are `int` or `bool`, in any combination.
pub open spec fn compatible(left: PartialType, right: PartialType) -> bool {
    ||| left == right
    ||| is_ptr(left) && is_ptr(right) && (left == void_ptr_t() || right == void_ptr_t())
    ||| right.basis == PartialBasisType::Error && (is_ptr(left) || !is_ptr(right))
    ||| left.basis == PartialBasisType::Error && !is_ptr(left)
    ||| int_like(left) && int_like(right)
}

pub open spec fn basis_name(b: PartialBasisType) -> Seq<char> {
    match b {
        PartialBasisType::Error => seq!['{', 'u', 'n', 'k', 'n', 'o', 'w', 'n', '}'],
        PartialBasisType::Int => seq!['i', 'n', 't'],
        PartialBasisType::Bool => seq!['b', 'o', 'o', 'l'],
        PartialBasisType::Void => seq!['v', 'o', 'i', 'd'],
    }
}

pub open spec fn stars(n: nat) -> Seq<char>
    decreases n,
{
    if n == 0 {
        Seq::empty()
    } else {
        stars((n - 1) as nat).push('*')
    }
}

/// How a type is written: its basis, then one `*` per indirection.
pub open spec fn written_type(t: PartialType) -> Seq<char> {
    basis_name(t.basis) + stars(t.indirection_count as nat)
}

impl PartialBasisType {
    /// Whether `left` can stand where `right` is expected (see `compatible`).
    pub fn is_eq(left: &PartialType, right: &PartialType) -> (r: bool)
        ensures
            r == compatible(*left, *right),
    {
        *left == *right || if left.indirection_count > 0 {
            (right.indirection_count > 0 && ((left.indirection_count == 1 && left.basis
                == PartialBasisType::Void) || (right.indirection_count == 1 && right.basis
                == PartialBasisType::Void))) || right.basis == PartialBasisType::Error
        } else if right.indirection_count > 0 {
            left.basis == PartialBasisType::Error
        } else {
            match (left.basis, right.basis) {
                (PartialBasisType::Error, _) => true,
                (_, PartialBasisType::Error) => true,
                (PartialBasisType::Int, PartialBasisType::Int) => true,
                (PartialBasisType::Bool, PartialBasisType::Int) => true,
                (PartialBasisType::Int, PartialBasisType::Bool) => true,
                (PartialBasisType::Bool, PartialBasisType::Bool) => true,
                (PartialBasisType::Void, PartialBasisType::Void) => true,
                _ => false,
            }
        }
    }

    /// The known basis, or `None` for `Error`.
    pub fn to_basic(self) -> (r: Option<BasisType>)
        ensures
            r == basic_of(self),
    {
        match self {
            PartialBasisType::Bool => Some(BasisType::Bool),
            PartialBasisType::Int => Some(BasisType::Int),
            PartialBasisType::Void => Some(BasisType::Void),
            _ => None,
        }
    }

    /// The basis as it is written in messages.
    pub fn display(&self) -> (s: String)
        ensures
            s@ == basis_name(*self),
    {
        match self {
            PartialBasisType::Error => {
                let s = String::from_str("{unknown}");
                proof {
                    reveal_strlit("{unknown}");
                }
                s
            },
            PartialBasisType::Int => {
                let s = String::from_str("int");
                proof {
                    reveal_strlit("int");
                }
                s
            },
            PartialBasisType::Bool => {
                let s = String::from_str("bool");
                proof {
                    reveal_strlit("bool");
                }
                s
            },
            PartialBasisType::Void => {
                let s = String::from_str("void");
                proof {
                    reveal_strlit("void");
                }
                s
            },
        }
    }
}

impl PartialType {
    pub fn void_type() -> (t: PartialType)
        ensures
            t == void_t(),
    {
        PartialType { basis: PartialBasisType::Void, indirection_count: 0 }
    }

    pub fn int_type() -> (t: PartialType)
        ensures
            t == int_t(),
    {
        PartialType { basis: PartialBasisType::Int, indirection_count: 0 }
    }

    pub fn bool_type() -> (t: PartialType)
        ensures
            t == bool_t(),
    {
        PartialType { basis: PartialBasisType::Bool, indirection_count: 0 }
    }

    pub fn error_type() -> (t: PartialType)
        ensures
            t == error_t(),
    {
        PartialType { basis: PartialBasisType::Error, indirection_count: 0 }
    }

    pub fn is_void(&self) -> (r: bool)
        ensures
            r == (*self == void_t()),
    {
        *self == PartialType::void_type()
    }

    pub fn is_ptr(&self) -> (r: bool)
        ensures
            r == is_ptr(*self),
    {
        self.indirection_count > 0
    }

    /// A pointer to this type.
    pub fn ptr(&self) -> (t: PartialType)
        requires
            self.indirection_count < usize::MAX,
        ensures
            t == ptr_to(*self),
    {
        PartialType { basis: self.basis, indirection_count: self.indirection_count + 1 }
    }

    /// The pointed-to type, when this is a pointer.
    pub fn deref_ptr(&self) -> (t: Option<PartialType>)
        ensures
            t == deref_of(*self),
    {
        if self.indirection_count > 0 {
            Some(PartialType { basis: self.basis, indirection_count: self.indirection_count - 1 })
        } else {
            None
        }
    }

    /// The fully known type, when the basis is known.
    pub fn to_basic(&self) -> (t: Option<Type>)
        ensures
            t == to_basic(*self),
    {
        match self.basis.to_basic() {
            Some(b) => Some(Type { basis: b, indirection_count: self.indirection_count }),
            None => None,
        }
    }

    /// The type as it is written in messages: basis, then stars.
    pub fn display(&self) -> (s: String)
        ensures
            s@ == written_type(*self),
    {
        let mut s = self.basis.display();
        let mut i: usize = 0;
        while i < self.indirection_count
            invariant
                i <= self.indirection_count,
                s@ == basis_name(self.basis) + stars(i as nat),
            decreases self.indirection_count - i,
        {
            s.append("*");
            proof {
                reveal_strlit("*");
                assert(basis_name(self.basis) + stars((i + 1) as nat) =~= basis_name(self.basis)
                    + stars(i as nat) + seq!['*']);
            }
            i = i + 1;
        }
        s
    }
}

impl Type {
    pub fn void_type() -> (t: Type)
        ensures
            t == full_void(),
    {
        Type { basis: BasisType::Void, indirection_count: 0 }
    }

    pub fn int_type() -> (t: Type)
        ensures
            t == full_int(),
    {
        Type { basis: BasisType::Int, indirection_count: 0 }
    }

    /// The same type, seen as a partial type.
    pub fn from_basic(&self) -> (t: PartialType)
        ensures
            t == from_basic(*self),
    {
        let basis = match self.basis {
            BasisType::Void => PartialBasisType::Void,
            BasisType::Int => PartialBasisType::Int,
            BasisType::Bool => PartialBasisType::Bool,
        };
        PartialType { basis, indirection_count: self.indirection_count }
    }
}

} // verus!
