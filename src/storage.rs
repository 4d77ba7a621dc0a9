//! Owned, packed, column-major storage for a matrix whose row and column
//! counts are given by two dimension descriptors.
use crate::array::{array_from_vec, array_into_vec};
use crate::conv::{compatible, corresponds, Conv};
use core::marker::PhantomData;
use vstd::prelude::*;

verus! {

/// Offset of entry `(i, j)` in column-major storage with `rows` rows: the row
/// stride is one element and the column stride is `rows` elements.
pub open spec fn linear_index(rows: nat, i: int, j: int) -> int {
    i + j * rows
}

/// The columns of a nested array, outer index first.
pub open spec fn nested_view<T, const AR: usize, const AC: usize>(a: [[T; AR]; AC]) -> Seq<Seq<T>> {
    a@.map_values(|c: [T; AR]| c@)
}

/// Flattening columns of `n` elements each puts entry `(i, j)` at
/// `linear_index(n, i, j)`.
proof fn lemma_flatten_entries<T>(s: Seq<Seq<T>>, n: nat)
    requires
        forall|j: int| 0 <= j < s.len() ==> (#[trigger] s[j]).len() == n,
    ensures
        s.flatten().len() == s.len() * n,
        forall|i: int, j: int|
            0 <= i < n && 0 <= j < s.len() ==> #[trigger] s.flatten()[linear_index(n, i, j)]
                == s[j][i],
    decreases s.len(),
{
    if s.len() > 0 {
        let p = s.drop_last();
        lemma_flatten_entries(p, n);
        assert(s =~= p.push(s.last()));
        p.lemma_flatten_push(s.last());
        assert(s.len() * n == p.len() * n + n) by (nonlinear_arith)
            requires
                s.len() == p.len() + 1,
        ;
        assert forall|i: int, j: int| 0 <= i < n && 0 <= j < s.len() implies #[trigger] s.flatten()[linear_index(n, i, j)]
            == s[j][i] by {
            if j < p.len() {
                assert(i + j * n < p.len() * n) by (nonlinear_arith)
                    requires
                        0 <= i < n,
                        0 <= j < p.len(),
                ;
            } else {
                assert(j * n == p.len() * n);
            }
        }
    }
}

/// An entry inside a `rows` by `cols` matrix lies inside its storage.
proof fn lemma_index_in_bounds(rows: nat, cols: nat, i: int, j: int)
    requires
        0 <= i < rows,
        0 <= j < cols,
    ensures
        0 <= linear_index(rows, i, j) < rows * cols,
{
    assert(0 <= i + j * rows < rows * cols) by (nonlinear_arith)
        requires
            0 <= i < rows,
            0 <= j < cols,
    ;
}

/// Distinct entries of a matrix with `rows` rows lie at distinct offsets.
proof fn lemma_index_injective(rows: nat, a: int, b: int, i: int, j: int)
    requires
        0 <= a < rows,
        0 <= i < rows,
        0 <= b,
        0 <= j,
        linear_index(rows, a, b) == linear_index(rows, i, j),
    ensures
        a == i,
        b == j,
{
    assert(b == j) by (nonlinear_arith)
        requires
            0 <= a < rows,
            0 <= i < rows,
            0 <= b,
            0 <= j,
            a + b * rows == i + j * rows,
    ;
}

/// A matrix of `R::dim()` rows and `C::dim()` columns, stored column by column
/// in one contiguous buffer.
#[derive(Debug)]
pub struct GenericArrayStorage<T, R: Conv, C: Conv> {
    data: Vec<T>,
    dims: PhantomData<(R, C)>,
}

impl<T, R: Conv, C: Conv> View for GenericArrayStorage<T, R, C> {
    type V = Seq<T>;

    /// The elements in storage order.
    closed spec fn view(&self) -> Seq<T> {
        self.data@
    }
}

impl<T, R: Conv, C: Conv> GenericArrayStorage<T, R, C> {
    /// The buffer holds exactly one element per entry, and both sizes fit a
    /// machine integer. Every constructor establishes this and every method
    /// keeps it.
    pub open spec fn wf(&self) -> bool {
        &&& R::dim() <= usize::MAX
        &&& C::dim() <= usize::MAX
        &&& self@.len() == R::dim() * C::dim()
    }

    /// Entry `(i, j)`: row `i`, column `j`.
    pub open spec fn entry(&self, i: int, j: int) -> T {
        self@[linear_index(R::dim(), i, j)]
    }

    /// The matrix as a sequence of columns.
    pub open spec fn columns(&self) -> Seq<Seq<T>> {
        Seq::new(C::dim(), |j: int| Seq::new(R::dim(), |i: int| self.entry(i, j)))
    }

    /// Builds the storage from an array of `C::dim()` columns of `R::dim()`
    /// entries each.
    pub fn from_array<const AR: usize, const AC: usize>(value: [[T; AR]; AC]) -> (r: Self)
        requires
            corresponds::<R>(AR as nat),
            corresponds::<C>(AC as nat),
        ensures
            r.wf(),
            r.columns() == nested_view(value),
            r@ == nested_view(value).flatten(),
    {
        let ghost model = nested_view(value);
        let cols = array_into_vec(value);
        let mut data: Vec<T> = Vec::new();
        for col in it: cols
            invariant
                it.seq() == value@,
                model == nested_view(value),
                data@ == model.take(it.index() as int).flatten(),
        {
            proof {
                assert(model.take(it.index() + 1) =~= model.take(it.index() as int).push(col@));
                model.take(it.index() as int).lemma_flatten_push(col@);
            }
            let mut v = array_into_vec(col);
            data.append(&mut v);
        }
        proof {
            assert(model.take(AC as int) =~= model);
            lemma_flatten_entries(model, AR as nat);
        }
        let r = GenericArrayStorage { data, dims: PhantomData };
        assert forall|j: int| 0 <= j < AC implies #[trigger] r.columns()[j] =~= model[j] by {
            assert forall|i: int| 0 <= i < AR implies r.columns()[j][i] == model[j][i] by {
                assert(r.columns()[j][i] == r.entry(i, j));
            }
        }
        assert(r.columns() =~= model);
        r
    }

    /// Moves the entries out into an array of `C::dim()` columns of
    /// `R::dim()` entries each.
    pub fn into_array<const AR: usize, const AC: usize>(self) -> (r: [[T; AR]; AC])
        requires
            self.wf(),
            corresponds::<R>(AR as nat),
            corresponds::<C>(AC as nat),
        ensures
            nested_view(r) == self.columns(),
    {
        let ghost cols = self.columns();
        let ghost flat = self@;
        let mut data = self.data;
        let mut reversed: Vec<[T; AR]> = Vec::new();
        proof {
            assert(data@.len() == data.len());
        }
        let mut k: usize = AC;
        while k > 0
            invariant
                k <= AC,
                R::dim() == AR,
                cols.len() == AC,
                flat.len() == AR * AC,
                AR * AC <= usize::MAX,
                cols == self.columns(),
                flat == self@,
                data@ == flat.take(k * AR),
                reversed@.len() == AC - k,
                forall|m: int| 0 <= m < AC - k ==> (#[trigger] reversed@[m])@ == cols[AC - 1 - m],
            decreases k,
        {
            assert((k - 1) * AR + AR == k * AR && k * AR <= AC * AR) by (nonlinear_arith)
                requires
                    1 <= k <= AC,
            ;
            let start: usize = (k - 1) * AR;
            let tail = data.split_off(start);
            let col: [T; AR] = array_from_vec(tail);
            assert(col@ =~= cols[k - 1]) by {
                assert forall|i: int| 0 <= i < AR implies col@[i] == cols[k - 1][i] by {
                    assert(cols[k - 1][i] == self.entry(i, k - 1));
                }
            }
            reversed.push(col);
            k = k - 1;
        }
        let mut ordered: Vec<[T; AR]> = Vec::new();
        while reversed.len() > 0
            invariant
                ordered@.len() + reversed@.len() == AC,
                cols.len() == AC,
                forall|m: int| 0 <= m < ordered@.len() ==> (#[trigger] ordered@[m])@ == cols[m],
                forall|m: int| 0 <= m < reversed@.len() ==> (#[trigger] reversed@[m])@ == cols[AC - 1 - m],
            decreases reversed.len(),
        {
            let col = reversed.pop().unwrap();
            ordered.push(col);
        }
        let r: [[T; AR]; AC] = array_from_vec(ordered);
        assert(nested_view(r) =~= cols);
        r
    }

    /// Takes over a column-major buffer, if it holds exactly one element per
    /// entry.
    pub fn from_column_vec(data: Vec<T>) -> (r: Option<Self>)
        requires
            R::dim() <= usize::MAX,
            C::dim() <= usize::MAX,
        ensures
            r is Some <==> data@.len() == R::dim() * C::dim(),
            r matches Some(m) ==> m.wf() && m@ == data@,
    {
        let len: usize = data.len();
        match R::new_nalg().checked_mul(C::new_nalg()) {
            Some(n) => {
                if len == n {
                    Some(GenericArrayStorage { data, dims: PhantomData })
                } else {
                    None
                }
            },
            None => None,
        }
    }

    /// The number of rows and of columns.
    pub fn shape(&self) -> (r: (usize, usize))
        requires
            self.wf(),
        ensures
            r.0 == R::dim(),
            r.1 == C::dim(),
    {
        (R::new_nalg(), C::new_nalg())
    }

    /// The distance, in elements, between vertically and between horizontally
    /// adjacent entries.
    pub fn strides(&self) -> (r: (usize, usize))
        requires
            self.wf(),
        ensures
            r.0 == 1,
            r.1 == R::dim(),
            forall|i: int, j: int|
                #![trigger self.entry(i, j)]
                self.entry(i, j) == self@[i * r.0 + j * r.1],
    {
        (1, R::new_nalg())
    }

    /// The elements always occupy one unbroken region.
    pub fn is_contiguous(&self) -> (r: bool)
        ensures
            r,
    {
        true
    }

    /// All elements, in storage order.
    pub fn as_slice(&self) -> (r: &[T])
        requires
            self.wf(),
        ensures
            r@ == self@,
            r@.len() == R::dim() * C::dim(),
    {
        self.data.as_slice()
    }

    /// Entry `(i, j)`.
    pub fn get(&self, i: usize, j: usize) -> (r: &T)
        requires
            self.wf(),
            i < R::dim(),
            j < C::dim(),
        ensures
            *r == self.entry(i as int, j as int),
    {
        proof {
            lemma_index_in_bounds(R::dim(), C::dim(), i as int, j as int);
            assert(self.data@.len() == self.data.len());
        }
        &self.data[i + j * R::new_nalg()]
    }

    /// Writes `v` into entry `(i, j)`; every other entry stays as it was.
    pub fn set(&mut self, i: usize, j: usize, v: T)
        requires
            old(self).wf(),
            i < R::dim(),
            j < C::dim(),
        ensures
            final(self).wf(),
            final(self)@ == old(self)@.update(linear_index(R::dim(), i as int, j as int), v),
            final(self).entry(i as int, j as int) == v,
            forall|a: int, b: int|
                #![trigger final(self).entry(a, b)]
                0 <= a < R::dim() && 0 <= b < C::dim() && (a != i || b != j) ==> final(self).entry(a, b)
                    == old(self).entry(a, b),
    {
        proof {
            lemma_index_in_bounds(R::dim(), C::dim(), i as int, j as int);
            assert(self.data@.len() == self.data.len());
        }
        let k: usize = i + j * R::new_nalg();
        self.data[k] = v;
        proof {
            assert forall|a: int, b: int|
                0 <= a < R::dim() && 0 <= b < C::dim() && (a != i || b != j) implies #[trigger] self.entry(a, b)
                    == old(self).entry(a, b) by {
                lemma_index_in_bounds(R::dim(), C::dim(), a, b);
                if linear_index(R::dim(), a, b) == k {
                    lemma_index_injective(R::dim(), a, b, i as int, j as int);
                }
            }
        }
    }

    /// Takes the elements out, in storage order.
    pub fn into_owned(self) -> (r: Vec<T>)
        requires
            self.wf(),
        ensures
            r@ == self@,
            r@.len() == R::dim() * C::dim(),
    {
        self.data
    }
}

impl<T, R: Conv, C: Conv> GenericArrayStorage<T, R, C> {
    /// The same elements under descriptors that stand for the same sizes; no
    /// element moves.
    pub(crate) fn relabel<NewR: Conv, NewC: Conv>(self) -> (r: GenericArrayStorage<T, NewR, NewC>)
        requires
            self.wf(),
            compatible::<R, NewR>(),
            compatible::<C, NewC>(),
        ensures
            r.wf(),
            r@ == self@,
    {
        GenericArrayStorage { data: self.data, dims: PhantomData }
    }
}

impl<T: Clone, R: Conv, C: Conv> GenericArrayStorage<T, R, C> {
    /// Copies a column-major slice of `R::dim() * C::dim()` elements.
    pub fn from_column_slice(s: &[T]) -> (r: Self)
        requires
            R::dim() <= usize::MAX,
            C::dim() <= usize::MAX,
            s@.len() == R::dim() * C::dim(),
        ensures
            r.wf(),
            r@.len() == s@.len(),
            forall|k: int| 0 <= k < s@.len() ==> cloned(s@[k], #[trigger] r@[k]),
    {
        let mut data: Vec<T> = Vec::new();
        let mut k: usize = 0;
        while k < s.len()
            invariant
                k <= s@.len(),
                data@.len() == k,
                forall|m: int| 0 <= m < k ==> cloned(s@[m], #[trigger] data@[m]),
            decreases s@.len() - k,
        {
            data.push(s[k].clone());
            k = k + 1;
        }
        GenericArrayStorage { data, dims: PhantomData }
    }

    /// Copies the elements out, in storage order.
    pub fn clone_owned(&self) -> (r: Vec<T>)
        requires
            self.wf(),
        ensures
            r@.len() == R::dim() * C::dim(),
            forall|k: int| 0 <= k < self@.len() ==> cloned(self@[k], #[trigger] r@[k]),
            forall|i: int, j: int|
                0 <= i < R::dim() && 0 <= j < C::dim() ==> cloned(
                    self.entry(i, j),
                    #[trigger] r@[linear_index(R::dim(), i, j)],
                ),
    {
        let r = self.data.clone();
        assert forall|i: int, j: int| 0 <= i < R::dim() && 0 <= j < C::dim() implies cloned(
            self.entry(i, j),
            #[trigger] r@[linear_index(R::dim(), i, j)],
        ) by {
            lemma_index_in_bounds(R::dim(), C::dim(), i, j);
        }
        r
    }
}

impl<T: Clone, R: Conv, C: Conv> Clone for GenericArrayStorage<T, R, C> {
    fn clone(&self) -> (r: Self)
        ensures
            self.wf() ==> r.wf(),
            r@.len() == self@.len(),
            forall|k: int| 0 <= k < self@.len() ==> cloned(self@[k], #[trigger] r@[k]),
            forall|i: int, j: int|
                0 <= i < R::dim() && 0 <= j < C::dim() && self.wf() ==> cloned(
                    self.entry(i, j),
                    #[trigger] r.entry(i, j),
                ),
    {
        let r = GenericArrayStorage { data: self.data.clone(), dims: PhantomData };
        assert forall|i: int, j: int|
            0 <= i < R::dim() && 0 <= j < C::dim() && self.wf() implies cloned(
                self.entry(i, j),
                #[trigger] r.entry(i, j),
            ) by {
            lemma_index_in_bounds(R::dim(), C::dim(), i, j);
        }
        r
    }
}

} // verus!
