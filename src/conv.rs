//! Dimension descriptors: type-level tokens that each stand for one size.
use vstd::prelude::*;

verus! {

/// typenum's `UTerm`, the empty binary numeral; used only as a type.
#[verifier::external_type_specification]
#[verifier::external_body]
pub struct ExUTerm(typenum::UTerm);

/// typenum's `B0`, the binary digit zero; used only as a type.
#[verifier::external_type_specification]
#[verifier::external_body]
pub struct ExB0(typenum::B0);

/// typenum's `B1`, the binary digit one; used only as a type.
#[verifier::external_type_specification]
#[verifier::external_body]
pub struct ExB1(typenum::B1);

/// typenum's `UInt<U, B>`, the numeral `U` followed by the digit `B`; used only
/// as a type.
#[verifier::external_type_specification]
#[verifier::external_body]
#[verifier::reject_recursive_types(U)]
#[verifier::reject_recursive_types(B)]
pub struct ExUInt<U, B>(typenum::UInt<U, B>);

/// typenum's `Const<N>`, its literal spelling of `N`; used only as a type.
#[verifier::external_type_specification]
#[verifier::external_body]
pub struct ExTypenumConst<const N: usize>(typenum::Const<N>);

/// nalgebra's `Const<N>`, its dimension of size `N`; used only as a type.
#[verifier::external_type_specification]
#[verifier::external_body]
pub struct ExNalgebraConst<const N: usize>(nalgebra::Const<N>);

/// A dimension descriptor: a type that stands for one size `dim()`.
pub trait Conv {
    /// The size this descriptor stands for.
    spec fn dim() -> nat;

    /// The size as a machine integer.
    fn new_nalg() -> (r: usize)
        requires
            Self::dim() <= usize::MAX,
        ensures
            r == Self::dim(),
    ;
}

/// typenum's terminator: zero.
impl Conv for typenum::UTerm {
    open spec fn dim() -> nat {
        0
    }

    fn new_nalg() -> (r: usize) {
        0
    }
}

/// A binary numeral with a trailing one: twice the leading digits, plus one.
impl<U: Conv> Conv for typenum::UInt<U, typenum::B1> {
    open spec fn dim() -> nat {
        2 * U::dim() + 1
    }

    fn new_nalg() -> (r: usize) {
        2 * U::new_nalg() + 1
    }
}

/// A binary numeral with a trailing zero: twice the leading digits.
impl<U: Conv> Conv for typenum::UInt<U, typenum::B0> {
    open spec fn dim() -> nat {
        2 * U::dim()
    }

    fn new_nalg() -> (r: usize) {
        2 * U::new_nalg()
    }
}

/// typenum's literal spelling of `N`.
impl<const N: usize> Conv for typenum::Const<N> {
    open spec fn dim() -> nat {
        N as nat
    }

    fn new_nalg() -> (r: usize) {
        N
    }
}

/// nalgebra's literal spelling of `N` (nalgebra's `U1`, `U2`, ... name these).
impl<const N: usize> Conv for nalgebra::Const<N> {
    open spec fn dim() -> nat {
        N as nat
    }

    fn new_nalg() -> (r: usize) {
        N
    }
}

/// `D` stands for exactly `n`: the link between a descriptor and the arity of
/// a plain array.
pub open spec fn corresponds<D: Conv>(n: nat) -> bool {
    D::dim() == n
}

/// `A` and `B` stand for the same size, so that storage sized by one may be
/// retagged with the other.
pub open spec fn compatible<A: Conv, B: Conv>() -> bool {
    A::dim() == B::dim()
}

/// Compatibility is symmetric.
pub proof fn lemma_compatible_symmetric<A: Conv, B: Conv>()
    requires
        compatible::<A, B>(),
    ensures
        compatible::<B, A>(),
{
}

/// Compatibility is transitive.
pub proof fn lemma_compatible_transitive<A: Conv, B: Conv, D: Conv>()
    requires
        compatible::<A, B>(),
        compatible::<B, D>(),
    ensures
        compatible::<A, D>(),
{
}

/// Descriptors that stand for different sizes are never compatible.
pub proof fn lemma_different_sizes_incompatible<A: Conv, B: Conv>()
    requires
        A::dim() != B::dim(),
    ensures
        !compatible::<A, B>(),
{
}

/// typenum's and nalgebra's literal spellings of one size are compatible.
pub proof fn lemma_literal_spellings_compatible<const N: usize>()
    ensures
        compatible::<typenum::Const<N>, nalgebra::Const<N>>(),
        compatible::<nalgebra::Const<N>, typenum::Const<N>>(),
{
}

} // verus!
