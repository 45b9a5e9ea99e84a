//! The layout of a vectorized row.
//!
//! A row of `slots * width` elements is read as `slots` records of `width`
//! elements each, slot after slot: slot `i` is the elements
//! `[i * width, (i + 1) * width)`. The order is slot-major: the columns of one
//! slot are adjacent, and nothing lies between two slots.

use vstd::prelude::*;

verus! {

/// The columns of slot `i` in a flat row whose slots are `width` columns wide.
pub open spec fn slot_of<T>(row: Seq<T>, width: nat, i: int) -> Seq<T> {
    row.subrange(i * width, (i + 1) * width)
}

/// A flat row read as `slots` records of `width` columns each, in order.
pub open spec fn split_row<T>(row: Seq<T>, width: nat, slots: nat) -> Seq<Seq<T>> {
    Seq::new(slots, |i: int| slot_of(row, width, i))
}

/// The row with the columns of slot `i` replaced by `cols`.
pub open spec fn replace_slot<T>(row: Seq<T>, width: nat, i: int, cols: Seq<T>) -> Seq<T> {
    row.subrange(0, i * width) + cols + row.subrange((i + 1) * width, row.len() as int)
}

/// Whether position `k` of a flat row lies in slot `i`.
pub open spec fn in_slot(k: int, width: nat, i: int) -> bool {
    i * width <= k < (i + 1) * width
}

/// A row whose length is not `slots * slot_width`: it cannot be read as
/// `slots` records of `slot_width` columns.
#[derive(Clone, Copy, Debug, PartialEq, Eq, Structural)]
pub struct LayoutMismatch {
    /// The number of slots the row was to be read as.
    pub slots: usize,
    /// The number of columns of one slot.
    pub slot_width: usize,
    /// The length of the row that was given.
    pub row_len: usize,
}

/// The mismatch that a row of `row_len` elements makes with a layout of
/// `slots` records of `width` columns.
pub open spec fn mismatch(row_len: nat, slots: nat, width: nat) -> LayoutMismatch {
    LayoutMismatch { slots: slots as usize, slot_width: width as usize, row_len: row_len as usize }
}

/// What reading a row of `row_len` elements as `slots` records of `width`
/// columns comes to: it succeeds exactly when the row has `slots * width`
/// elements, and names the mismatch otherwise.
pub open spec fn layout_of(row_len: nat, slots: nat, width: nat) -> Result<(), LayoutMismatch> {
    if row_len == slots * width {
        Ok(())
    } else {
        Err(mismatch(row_len, slots, width))
    }
}

/// Where slot `i` begins and ends, and that it lies inside the row.
pub proof fn lemma_slot_bounds(width: nat, slots: nat, i: int)
    requires
        0 <= i < slots,
    ensures
        0 <= i * width,
        (i + 1) * width == i * width + width,
        (i + 1) * width <= slots * width,
{
    assert((i + 1) * width == i * width + width) by (nonlinear_arith);
    assert(0 <= i * width) by (nonlinear_arith)
        requires
            0 <= i,
    ;
    assert((i + 1) * width <= slots * width) by (nonlinear_arith)
        requires
            i + 1 <= slots,
    ;
}

/// Slots do not overlap: a position lies in at most one slot.
pub proof fn lemma_slots_disjoint(k: int, width: nat, i: int, j: int)
    requires
        in_slot(k, width, i),
        in_slot(k, width, j),
    ensures
        i == j,
{
    if i < j {
        assert((i + 1) * width <= j * width) by (nonlinear_arith)
            requires
                i + 1 <= j,
        ;
    } else if j < i {
        assert((j + 1) * width <= i * width) by (nonlinear_arith)
            requires
                j + 1 <= i,
        ;
    }
}

/// Every slot of a row of the right length has exactly `width` columns, and
/// column `c` of slot `i` is element `i * width + c` of the row.
pub proof fn lemma_slot_shape<T>(row: Seq<T>, width: nat, slots: nat, i: int)
    requires
        row.len() == slots * width,
        0 <= i < slots,
    ensures
        split_row(row, width, slots).len() == slots,
        split_row(row, width, slots)[i] == slot_of(row, width, i),
        slot_of(row, width, i).len() == width,
        forall|c: int| 0 <= c < width ==> #[trigger] slot_of(row, width, i)[c] == row[i * width + c],
{
    lemma_slot_bounds(width, slots, i);
}

/// The first `k` slots of a row, joined, are the first `k * width` elements.
proof fn lemma_flatten_prefix<T>(row: Seq<T>, width: nat, slots: nat, k: nat)
    requires
        row.len() == slots * width,
        k <= slots,
    ensures
        k * width <= row.len(),
        split_row(row, width, k).flatten() == row.subrange(0, k * width as int),
    decreases k,
{
    if k == 0 {
        assert(0 * width == 0) by (nonlinear_arith);
        assert(split_row(row, width, 0) =~= Seq::<Seq<T>>::empty());
        assert(row.subrange(0, 0) =~= Seq::<T>::empty());
    } else {
        let j = (k - 1) as nat;
        lemma_flatten_prefix(row, width, slots, j);
        lemma_slot_bounds(width, slots, j as int);
        let last = slot_of(row, width, j as int);
        assert(split_row(row, width, k) =~= split_row(row, width, j).push(last));
        split_row(row, width, j).lemma_flatten_push(last);
        assert(row.subrange(0, j * width as int) + last =~= row.subrange(0, k * width as int));
    }
}

/// Joining the slots of a row gives the row back: reading a row as slots
/// loses nothing and moves nothing.
pub proof fn lemma_flatten_split<T>(row: Seq<T>, width: nat, slots: nat)
    requires
        row.len() == slots * width,
    ensures
        split_row(row, width, slots).flatten() == row,
{
    lemma_flatten_prefix(row, width, slots, slots);
    assert(row.subrange(0, slots * width as int) =~= row);
}

/// Splitting the join of records that are all `width` wide gives the records
/// back: every sequence of such records is the reading of exactly one row.
pub proof fn lemma_split_flatten<T>(records: Seq<Seq<T>>, width: nat)
    requires
        forall|i: int| 0 <= i < records.len() ==> #[trigger] records[i].len() == width,
    ensures
        records.flatten().len() == records.len() * width,
        split_row(records.flatten(), width, records.len()) == records,
    decreases records.len(),
{
    let n = records.len();
    if n == 0 {
        assert(0 * width == 0) by (nonlinear_arith);
        assert(split_row(records.flatten(), width, 0) =~= records);
    } else {
        let init = records.drop_last();
        let last = records.last();
        lemma_split_flatten(init, width);
        assert(records =~= init.push(last));
        init.lemma_flatten_push(last);
        let flat = records.flatten();
        assert(flat =~= init.flatten() + last);
        lemma_slot_bounds(width, n, n - 1);
        assert forall|i: int| 0 <= i < n implies #[trigger] slot_of(flat, width, i) == records[i] by {
            lemma_slot_bounds(width, n, i);
            if i < n - 1 {
                lemma_slot_bounds(width, (n - 1) as nat, i);
                assert(slot_of(flat, width, i) =~= slot_of(init.flatten(), width, i));
                assert(split_row(init.flatten(), width, init.len())[i] == init[i]);
            } else {
                assert(slot_of(flat, width, i) =~= last);
            }
        }
        assert(split_row(flat, width, n) =~= records);
    }
}

/// With a single slot, the slot is the whole row.
pub proof fn lemma_single_slot<T>(row: Seq<T>, width: nat)
    requires
        row.len() == width,
    ensures
        slot_of(row, width, 0) == row,
        split_row(row, width, 1) == seq![row],
{
    assert(0 * width == 0) by (nonlinear_arith);
    assert((0 + 1) * width == width) by (nonlinear_arith);
    assert(slot_of(row, width, 0) =~= row);
    assert(split_row(row, width, 1) =~= seq![row]);
}

/// Slots are independent: two rows that differ only inside slot `i` have the
/// same slot `j` for every other `j`, so the reading of the second row is
/// that of the first with slot `i` replaced.
pub proof fn lemma_slot_independence<T>(a: Seq<T>, b: Seq<T>, width: nat, slots: nat, i: int)
    requires
        a.len() == slots * width,
        b.len() == slots * width,
        0 <= i < slots,
        forall|k: int| 0 <= k < a.len() && !in_slot(k, width, i) ==> a[k] == b[k],
    ensures
        forall|j: int| 0 <= j < slots && j != i ==> #[trigger] slot_of(a, width, j) == slot_of(b, width, j),
        split_row(b, width, slots) == split_row(a, width, slots).update(i, slot_of(b, width, i)),
{
    assert forall|j: int| 0 <= j < slots && j != i implies #[trigger] slot_of(a, width, j) == slot_of(
        b,
        width,
        j,
    ) by {
        lemma_slot_bounds(width, slots, j);
        assert forall|c: int| 0 <= c < width implies slot_of(a, width, j)[c] == slot_of(b, width, j)[c] by {
            let k = j * width + c;
            if in_slot(k, width, i) {
                lemma_slots_disjoint(k, width, i, j);
            }
        }
        assert(slot_of(a, width, j) =~= slot_of(b, width, j));
    }
    assert(split_row(b, width, slots) =~= split_row(a, width, slots).update(i, slot_of(b, width, i)));
}

/// Replacing the columns of slot `i` in a row replaces slot `i` of its
/// reading and leaves every other slot as it was.
pub proof fn lemma_replace_slot<T>(row: Seq<T>, width: nat, slots: nat, i: int, cols: Seq<T>)
    requires
        row.len() == slots * width,
        0 <= i < slots,
        cols.len() == width,
    ensures
        replace_slot(row, width, i, cols).len() == row.len(),
        slot_of(replace_slot(row, width, i, cols), width, i) == cols,
        split_row(replace_slot(row, width, i, cols), width, slots) == split_row(
            row,
            width,
            slots,
        ).update(i, cols),
{
    lemma_slot_bounds(width, slots, i);
    let changed = replace_slot(row, width, i, cols);
    assert(slot_of(changed, width, i) =~= cols);
    assert forall|k: int| 0 <= k < row.len() && !in_slot(k, width, i) implies row[k] == changed[k] by {
    }
    lemma_slot_independence(row, changed, width, slots, i);
}

/// Checks that a row of `row_len` elements can be read as `slots` records of
/// `width` columns. A product that does not fit the machine word matches no
/// row.
pub fn check_layout(row_len: usize, slots: usize, width: usize) -> (r: Result<(), LayoutMismatch>)
    ensures
        r == layout_of(row_len as nat, slots as nat, width as nat),
{
    let fits = match slots.checked_mul(width) {
        Some(total) => total == row_len,
        None => false,
    };
    if fits {
        Ok(())
    } else {
        Err(LayoutMismatch { slots, slot_width: width, row_len })
    }
}

} // verus!
