//! Building storage from plain arrays, and moving it between descriptors.
use crate::conv::{compatible, corresponds, Conv};
use crate::storage::{nested_view, GenericArrayStorage};
use vstd::prelude::*;

verus! {

/// Values that can become storage of `R::dim()` rows and `C::dim()` columns.
pub trait GenericMatrixFromExt<R: Conv, C: Conv>: Sized {
    /// The element type.
    type T;

    /// This value has `R::dim()` rows and `C::dim()` columns.
    spec fn fits(&self) -> bool;

    /// The columns of this value.
    spec fn column_view(&self) -> Seq<Seq<Self::T>>;

    /// Moves the entries into storage, column by column.
    fn into_generic_matrix(self) -> (r: GenericArrayStorage<Self::T, R, C>)
        requires
            self.fits(),
        ensures
            r.wf(),
            r.columns() == self.column_view(),
            r@ == self.column_view().flatten(),
    ;
}

/// An array of `AC` columns of `AR` entries each.
impl<T, const AR: usize, const AC: usize, R: Conv, C: Conv> GenericMatrixFromExt<R, C> for [[T; AR]; AC] {
    type T = T;

    open spec fn fits(&self) -> bool {
        corresponds::<R>(AR as nat) && corresponds::<C>(AC as nat)
    }

    open spec fn column_view(&self) -> Seq<Seq<T>> {
        nested_view(*self)
    }

    fn into_generic_matrix(self) -> (r: GenericArrayStorage<T, R, C>) {
        GenericArrayStorage::from_array(self)
    }
}

/// Storage whose descriptors can be exchanged for compatible ones.
pub trait GenericMatrixExt: Sized {
    /// The element type.
    type T;

    /// The row-count descriptor.
    type R: Conv;

    /// The column-count descriptor.
    type C: Conv;

    /// The elements in storage order.
    spec fn elements(&self) -> Seq<Self::T>;

    /// One element per entry, as `GenericArrayStorage::wf` states.
    spec fn well_formed(&self) -> bool;

    /// Retags with descriptors that stand for the same sizes; no element moves.
    fn conv<NewR: Conv, NewC: Conv>(self) -> (r: GenericArrayStorage<Self::T, NewR, NewC>)
        requires
            self.well_formed(),
            compatible::<Self::R, NewR>(),
            compatible::<Self::C, NewC>(),
        ensures
            r.wf(),
            r@ == self.elements(),
    ;
}

impl<T, R: Conv, C: Conv> GenericMatrixExt for GenericArrayStorage<T, R, C> {
    type T = T;

    type R = R;

    type C = C;

    open spec fn elements(&self) -> Seq<T> {
        self@
    }

    open spec fn well_formed(&self) -> bool {
        self.wf()
    }

    fn conv<NewR: Conv, NewC: Conv>(self) -> (r: GenericArrayStorage<T, NewR, NewC>) {
        self.relabel()
    }
}

/// Building storage from an array and moving it back out gives the array back.
pub proof fn lemma_array_round_trip<T, R: Conv, C: Conv, const AR: usize, const AC: usize>(
    a: [[T; AR]; AC],
    m: GenericArrayStorage<T, R, C>,
    b: [[T; AR]; AC],
)
    requires
        corresponds::<R>(AR as nat),
        corresponds::<C>(AC as nat),
        m.columns() == nested_view(a),
        nested_view(b) == m.columns(),
    ensures
        b == a,
{
    assert forall|j: int| 0 <= j < AC implies #[trigger] b@[j] == a@[j] by {
        assert(nested_view(b)[j] == nested_view(a)[j]);
        assert(b@[j] =~= a@[j]);
    }
    assert(b =~= a);
}

/// Retagging storage with compatible descriptors and then back leaves every
/// element where it was.
pub proof fn lemma_conv_round_trip<T, R: Conv, C: Conv, R2: Conv, C2: Conv>(
    m: GenericArrayStorage<T, R, C>,
    there: GenericArrayStorage<T, R2, C2>,
    back: GenericArrayStorage<T, R, C>,
)
    requires
        compatible::<R, R2>(),
        compatible::<C, C2>(),
        there@ == m.elements(),
        back@ == there.elements(),
    ensures
        back@ == m@,
        back.columns() == m.columns(),
        there.columns() == m.columns(),
{
    assert(there.columns() =~~= m.columns());
    assert(back.columns() =~~= m.columns());
}

/// Storage built from one array holds the same elements in the same order,
/// whichever descriptors spell its sizes.
pub proof fn lemma_layout_independent_of_spelling<
    T,
    R1: Conv,
    C1: Conv,
    R2: Conv,
    C2: Conv,
    const AR: usize,
    const AC: usize,
>(a: [[T; AR]; AC], m1: GenericArrayStorage<T, R1, C1>, m2: GenericArrayStorage<T, R2, C2>)
    requires
        corresponds::<R1>(AR as nat),
        corresponds::<C1>(AC as nat),
        corresponds::<R2>(AR as nat),
        corresponds::<C2>(AC as nat),
        m1@ == nested_view(a).flatten(),
        m2@ == nested_view(a).flatten(),
    ensures
        m1@ == m2@,
        m1.columns() == m2.columns(),
{
    assert(m1.columns() =~~= m2.columns());
}

} // verus!
