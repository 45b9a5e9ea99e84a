//! Checked views of a flat row as its slots.
//!
//! A view borrows the row; nothing is copied and nothing is reordered. A row
//! of the wrong length is refused when the view is made, so a view in hand
//! always has `VECTOR_LEN` slots of equal width.

use crate::layout::{
    check_layout, lemma_flatten_split, lemma_replace_slot, lemma_slot_bounds, lemma_slot_shape,
    mismatch, replace_slot, split_row, LayoutMismatch,
};
use vstd::prelude::*;

verus! {

/// A row read as `VECTOR_LEN` column records, one per permutation computed in
/// the row.
pub struct VectorizedPoseidon2Cols<'a, T, const VECTOR_LEN: usize> {
    row: &'a [T],
    width: usize,
}

impl<'a, T, const VECTOR_LEN: usize> View for VectorizedPoseidon2Cols<'a, T, VECTOR_LEN> {
    type V = Seq<Seq<T>>;

    /// The records, in slot order.
    open spec fn view(&self) -> Seq<Seq<T>> {
        split_row(self.spec_row(), self.spec_width(), VECTOR_LEN as nat)
    }
}

impl<'a, T, const VECTOR_LEN: usize> VectorizedPoseidon2Cols<'a, T, VECTOR_LEN> {
    #[verifier::type_invariant]
    spec fn well_formed(self) -> bool {
        self.row@.len() == VECTOR_LEN * self.width
    }

    /// The flat row that is viewed.
    pub closed spec fn spec_row(&self) -> Seq<T> {
        self.row@
    }

    /// The number of columns of one record.
    pub closed spec fn spec_width(&self) -> nat {
        self.width as nat
    }

    /// Reads `row` as `VECTOR_LEN` records of `width` columns each. The row
    /// is refused unless it has exactly `VECTOR_LEN * width` elements.
    pub fn borrow(row: &'a [T], width: usize) -> (r: Result<Self, LayoutMismatch>)
        ensures
            r is Ok <==> row@.len() == VECTOR_LEN * width,
            r matches Ok(cols) ==> cols.spec_row() == row@ && cols.spec_width() == width && cols@
                == split_row(row@, width as nat, VECTOR_LEN as nat),
            r matches Err(e) ==> e == mismatch(row@.len(), VECTOR_LEN as nat, width as nat),
    {
        match check_layout(row.len(), VECTOR_LEN, width) {
            Ok(()) => Ok(VectorizedPoseidon2Cols { row, width }),
            Err(e) => Err(e),
        }
    }

    /// The number of columns of one record.
    pub fn width(&self) -> (w: usize)
        ensures
            w == self.spec_width(),
    {
        self.width
    }

    /// The record of slot `i`: the elements `[i * width, (i + 1) * width)` of
    /// the row.
    pub fn slot(&self, i: usize) -> (cols: &'a [T])
        requires
            i < VECTOR_LEN,
        ensures
            cols@ == self@[i as int],
            cols@.len() == self.spec_width(),
    {
        proof {
            use_type_invariant(self);
            lemma_slot_bounds(self.width as nat, VECTOR_LEN as nat, i as int);
            lemma_slot_shape(self.row@, self.width as nat, VECTOR_LEN as nat, i as int);
            assert(self.row@.len() == self.row.len()) by {
                vstd::slice::axiom_spec_len(self.row);
            }
        }
        let start: usize = i * self.width;
        let end: usize = start + self.width;
        &self.row[start..end]
    }

    /// Back to the flat row: the records joined in slot order, which is the
    /// row the view was made from.
    pub fn as_row(&self) -> (row: &'a [T])
        ensures
            row@ == self.spec_row(),
            row@ == self@.flatten(),
            row@.len() == VECTOR_LEN * self.spec_width(),
    {
        proof {
            use_type_invariant(self);
            lemma_flatten_split(self.row@, self.width as nat, VECTOR_LEN as nat);
        }
        self.row
    }
}

/// A row read, for writing, as `VECTOR_LEN` column records.
///
/// The view holds the exclusive borrow of the row: what is written through
/// the view is written to the row.
pub struct VectorizedPoseidon2ColsMut<'a, T, const VECTOR_LEN: usize> {
    row: &'a mut [T],
    width: usize,
}

impl<'a, T, const VECTOR_LEN: usize> View for VectorizedPoseidon2ColsMut<'a, T, VECTOR_LEN> {
    type V = Seq<Seq<T>>;

    /// The records as they are now, in slot order.
    open spec fn view(&self) -> Seq<Seq<T>> {
        split_row(self.spec_row(), self.spec_width(), VECTOR_LEN as nat)
    }
}

impl<'a, T, const VECTOR_LEN: usize> VectorizedPoseidon2ColsMut<'a, T, VECTOR_LEN> {
    /// The flat row as it is now.
    pub closed spec fn spec_row(&self) -> Seq<T> {
        self.row@
    }

    /// The number of columns of one record.
    pub closed spec fn spec_width(&self) -> nat {
        self.width as nat
    }

    /// The borrow of the row that the view holds. Its final value is the row
    /// as the view leaves it.
    pub closed spec fn spec_borrowed(&self) -> &mut [T] {
        self.row
    }

    /// The row has exactly `VECTOR_LEN` records of `spec_width()` columns.
    ///
    /// A view is made well formed, and stays so as long as what is written
    /// to a slot fills the slot, which a slice cannot fail to do.
    pub open spec fn wf(&self) -> bool {
        self.spec_row().len() == VECTOR_LEN * self.spec_width()
    }

    /// Reads `row`, for writing, as `VECTOR_LEN` records of `width` columns
    /// each. The row is refused, and left as it is, unless it has exactly
    /// `VECTOR_LEN * width` elements.
    pub fn borrow_mut(row: &'a mut [T], width: usize) -> (r: Result<Self, LayoutMismatch>)
        ensures
            r is Ok <==> old(row)@.len() == VECTOR_LEN * width,
            r matches Ok(cols) ==> cols.wf() && cols.spec_row() == old(row)@ && cols.spec_width()
                == width && cols@ == split_row(old(row)@, width as nat, VECTOR_LEN as nat),
            r matches Ok(cols) ==> final(row)@ == final(cols.spec_borrowed())@,
            r matches Err(e) ==> e == mismatch(old(row)@.len(), VECTOR_LEN as nat, width as nat)
                && final(row)@ == old(row)@,
    {
        match check_layout(row.len(), VECTOR_LEN, width) {
            Ok(()) => Ok(VectorizedPoseidon2ColsMut { row, width }),
            Err(e) => Err(e),
        }
    }

    /// The number of columns of one record.
    pub fn width(&self) -> (w: usize)
        ensures
            w == self.spec_width(),
    {
        self.width
    }

    /// The record of slot `i`, for reading.
    pub fn slot(&self, i: usize) -> (cols: &[T])
        requires
            self.wf(),
            i < VECTOR_LEN,
        ensures
            cols@ == self@[i as int],
            cols@.len() == self.spec_width(),
    {
        proof {
            lemma_slot_bounds(self.width as nat, VECTOR_LEN as nat, i as int);
            lemma_slot_shape(self.row@, self.width as nat, VECTOR_LEN as nat, i as int);
            assert(self.row@.len() == self.row.len()) by {
                vstd::slice::axiom_spec_len(self.row);
            }
        }
        let start: usize = i * self.width;
        let end: usize = start + self.width;
        &self.row[start..end]
    }

    /// The record of slot `i`, for writing. What is written to it replaces
    /// the columns of slot `i` in the row; every other slot stays as it is.
    pub fn slot_mut(&mut self, i: usize) -> (cols: &mut [T])
        requires
            old(self).wf(),
            i < VECTOR_LEN,
        ensures
            cols@ == old(self)@[i as int],
            cols@.len() == old(self).spec_width(),
            final(self).spec_width() == old(self).spec_width(),
            final(self).spec_row() == replace_slot(
                old(self).spec_row(),
                old(self).spec_width(),
                i as int,
                final(cols)@,
            ),
            final(cols)@.len() == old(self).spec_width() ==> final(self).wf(),
            final(cols)@.len() == old(self).spec_width() ==> final(self)@ == old(self)@.update(
                i as int,
                final(cols)@,
            ),
            final(final(self).spec_borrowed())@ == final(old(self).spec_borrowed())@,
    {
        proof {
            lemma_slot_bounds(self.width as nat, VECTOR_LEN as nat, i as int);
            lemma_slot_shape(self.row@, self.width as nat, VECTOR_LEN as nat, i as int);
            assert(self.row@.len() == self.row.len()) by {
                vstd::slice::axiom_spec_len(self.row);
            }
        }
        proof {
            // Whatever is written to the slot, as long as it fills it.
            let before = self.row@;
            let width = self.width as nat;
            assert forall|written: Seq<T>| written.len() == width implies {
                let changed = replace_slot(before, width, i as int, written);
                &&& changed.len() == before.len()
                &&& split_row(changed, width, VECTOR_LEN as nat) == #[trigger] split_row(
                    before,
                    width,
                    VECTOR_LEN as nat,
                ).update(i as int, written)
            } by {
                lemma_replace_slot(before, width, VECTOR_LEN as nat, i as int, written);
            }
        }
        let start: usize = i * self.width;
        let end: usize = start + self.width;
        part_mut(self.row, start, end)
    }

    /// Gives the borrow of the row back.
    pub fn into_row(self) -> (row: &'a mut [T])
        ensures
            row@ == self.spec_row(),
            final(row)@ == final(self.spec_borrowed())@,
    {
        self.row
    }
}

/// The elements `[start, end)` of `row`, for writing.
fn part_mut<T>(row: &mut [T], start: usize, end: usize) -> (part: &mut [T])
    requires
        start <= end <= old(row)@.len(),
    ensures
        part@ == old(row)@.subrange(start as int, end as int),
        final(row)@ == old(row)@.subrange(0, start as int) + final(part)@ + old(row)@.subrange(
            end as int,
            old(row)@.len() as int,
        ),
{
    let (_head, rest) = row.split_at_mut(start);
    let (part, _tail) = rest.split_at_mut(end - start);
    part
}

} // verus!
