//! The vectorized AIR definition.
//!
//! The definition wraps one inner, single-instance definition. What the
//! inner definition is made of is not this crate's business: it is a value
//! of some type `A`, and the routines that belong to it (its constructor, its
//! width, its evaluation of one column record) are handed in as functions.
//! The contracts say what is done with them in terms of the calls made:
//! which calls, on which arguments, in which order.

use crate::cols::VectorizedPoseidon2Cols;
use crate::layout::{
    in_slot, layout_of, lemma_single_slot, lemma_slot_independence, slot_of, split_row,
    LayoutMismatch,
};
use vstd::prelude::*;

verus! {

/// `call`, a borrow of the builder, is one evaluation of `inner_eval` for
/// the definition `air` on a record whose columns are `cols`.
pub open spec fn evaluates<A, B, T, E: Fn(&A, &mut B, &[T])>(
    inner_eval: E,
    air: A,
    call: &mut B,
    cols: Seq<T>,
) -> bool {
    exists|record: &[T]| record@ == cols && #[trigger] call_ensures(inner_eval, (&air, call, record), ())
}

/// `calls` is the evaluation of the slots of `row`, in slot order, on one
/// builder: there is one call per slot, and call `i` is an evaluation of the
/// inner routine on the columns of slot `i`. The first call starts from the
/// builder `before`, each later one from the builder that the call before it
/// left, and `after` is the builder that the last call left (`before`, where
/// there is no slot). `left[i]` stands for the builder as call `i` leaves it.
pub open spec fn evaluates_slots<A, B, T, E: Fn(&A, &mut B, &[T])>(
    inner_eval: E,
    air: A,
    row: Seq<T>,
    width: nat,
    slots: nat,
    before: B,
    calls: Seq<&mut B>,
    left: Seq<B>,
    after: B,
) -> bool {
    &&& calls.len() == slots
    &&& left.len() == slots
    &&& forall|i: int|
        0 <= i < slots ==> evaluates(inner_eval, air, #[trigger] calls[i], slot_of(row, width, i))
    &&& forall|i: int|
        0 <= i < slots ==> *(#[trigger] calls[i]) == (if i == 0 {
            before
        } else {
            left[i - 1]
        })
    &&& after == (if slots == 0 {
        before
    } else {
        left[slots - 1]
    })
}

/// With a single slot, evaluating the slot is evaluating the row: a call is
/// an evaluation of the inner routine on slot 0 exactly when it is one on
/// the whole row.
pub proof fn lemma_single_slot_evaluation<A, B, T, E: Fn(&A, &mut B, &[T])>(
    inner_eval: E,
    air: A,
    call: &mut B,
    row: Seq<T>,
    width: nat,
)
    requires
        row.len() == width,
    ensures
        evaluates(inner_eval, air, call, slot_of(row, width, 0)) == evaluates(inner_eval, air, call, row),
{
    lemma_single_slot(row, width);
}

/// Slots are evaluated independently: if two rows differ only inside slot
/// `i`, then for every other slot `j` a call is an evaluation of the inner
/// routine on slot `j` of the one row exactly when it is one on slot `j` of
/// the other. Only the evaluation of slot `i` can tell the rows apart.
pub proof fn lemma_evaluation_independent<A, B, T, E: Fn(&A, &mut B, &[T])>(
    inner_eval: E,
    air: A,
    call: &mut B,
    a: Seq<T>,
    b: Seq<T>,
    width: nat,
    slots: nat,
    i: int,
    j: int,
)
    requires
        a.len() == slots * width,
        b.len() == slots * width,
        0 <= i < slots,
        0 <= j < slots,
        j != i,
        forall|k: int| 0 <= k < a.len() && !in_slot(k, width, i) ==> a[k] == b[k],
    ensures
        evaluates(inner_eval, air, call, slot_of(a, width, j)) == evaluates(
            inner_eval,
            air,
            call,
            slot_of(b, width, j),
        ),
{
    lemma_slot_independence(a, b, width, slots, i);
}

/// A definition that proves `VECTOR_LEN` permutations per row: it wraps one
/// inner definition, of type `A`, and applies it to every slot of the row.
///
/// There is one inner definition, not one per slot: all slots are held to
/// the same constraints with the same constants.
pub struct VectorizedPoseidon2Air<A, const VECTOR_LEN: usize> {
    air: A,
    inner_width: usize,
}

impl<A, const VECTOR_LEN: usize> VectorizedPoseidon2Air<A, VECTOR_LEN> {
    /// The inner definition that every slot is held to.
    pub closed spec fn spec_air(&self) -> A {
        self.air
    }

    /// The number of columns of one instance of the inner definition.
    pub closed spec fn spec_inner_width(&self) -> usize {
        self.inner_width
    }

    /// The number of columns of a row: `VECTOR_LEN` records of the inner
    /// width.
    pub open spec fn spec_width(&self) -> nat {
        (self.spec_inner_width() * VECTOR_LEN) as nat
    }

    /// Wraps the inner definition `air`, whose records are `inner_width`
    /// columns wide.
    pub fn new(air: A, inner_width: usize) -> (r: Self)
        ensures
            r.spec_air() == air,
            r.spec_inner_width() == inner_width,
    {
        VectorizedPoseidon2Air { air, inner_width }
    }

    /// Draws the inner definition from `rng` with its own constructor,
    /// `new_inner`, asks it for its width with `width_of`, and wraps it.
    ///
    /// The constructor is called once: the one definition it returns serves
    /// every slot, and nothing else is drawn from `rng`.
    pub fn new_from_rng<R, C, W>(rng: &mut R, new_inner: C, width_of: W) -> (r: Self) where
        C: FnOnce(&mut R) -> A,
        W: FnOnce(&A) -> usize,

        requires
            forall|source: &mut R| *source == *old(rng) ==> call_requires(new_inner, (source,)),
            forall|air: &A| call_requires(width_of, (air,)),
        ensures
            (exists|source: &mut R|
                *source == *old(rng) && *final(source) == *final(rng) && #[trigger] call_ensures(
                    new_inner,
                    (source,),
                    r.spec_air(),
                )),
            call_ensures(width_of, (&r.spec_air(),), r.spec_inner_width()),
    {
        let air = new_inner(rng);
        let inner_width = width_of(&air);
        let ghost drawn = air;
        let r = VectorizedPoseidon2Air { air, inner_width };
        assert(r.spec_air() == drawn);
        r
    }

    /// The inner definition.
    pub fn air(&self) -> (air: &A)
        ensures
            *air == self.spec_air(),
    {
        &self.air
    }

    /// The number of columns of one instance of the inner definition.
    pub fn inner_width(&self) -> (w: usize)
        ensures
            w == self.spec_inner_width(),
    {
        self.inner_width
    }

    /// The number of columns of a row.
    pub fn width(&self) -> (w: usize)
        requires
            self.spec_width() <= usize::MAX,
        ensures
            w == self.spec_inner_width() * VECTOR_LEN,
            w == self.spec_width(),
    {
        self.inner_width * VECTOR_LEN
    }

    /// Evaluates the constraints of a row: reads `row` as `VECTOR_LEN` records
    /// and hands each, from slot 0 up, to `inner_eval` together with the
    /// inner definition and the one `builder`.
    ///
    /// Every slot is evaluated, whatever an earlier slot asserted; what a
    /// failed constraint means is the builder's business. A row that does not
    /// have `VECTOR_LEN` records of the inner width is refused before anything
    /// is evaluated, and the builder is left as it was.
    ///
    /// What is done to the builder is stated through the calls made: see
    /// [`evaluates_slots`]. With a single slot it is one evaluation of the
    /// inner routine on the row itself.
    pub fn eval<B, T, E>(&self, builder: &mut B, row: &[T], inner_eval: E) -> (r: Result<
        (),
        LayoutMismatch,
    >) where E: Fn(&A, &mut B, &[T])
        requires
            forall|call: &mut B, record: &[T]|
                record@.len() == self.spec_inner_width() ==> call_requires(
                    inner_eval,
                    (&self.spec_air(), call, record),
                ),
        ensures
            r == layout_of(row@.len(), VECTOR_LEN as nat, self.spec_inner_width() as nat),
            r is Ok <==> row@.len() == self.spec_width(),
            r is Err ==> *final(builder) == *old(builder),
            r is Ok ==> (exists|calls: Seq<&mut B>, left: Seq<B>| #[trigger]
                evaluates_slots(
                    inner_eval,
                    self.spec_air(),
                    row@,
                    self.spec_inner_width() as nat,
                    VECTOR_LEN as nat,
                    *old(builder),
                    calls,
                    left,
                    *final(builder),
                ) && forall|i: int|
                    #![trigger calls[i]]
                    #![trigger left[i]]
                    0 <= i < VECTOR_LEN ==> *final(calls[i]) == left[i]),
            r is Ok && VECTOR_LEN == 1 ==> (exists|call: &mut B|
                *call == *old(builder) && *final(call) == *final(builder) && #[trigger] call_ensures(
                    inner_eval,
                    (&self.spec_air(), call, row),
                    (),
                )),
    {
        assert(VECTOR_LEN * self.inner_width == self.inner_width * VECTOR_LEN) by (nonlinear_arith);
        let cols = match VectorizedPoseidon2Cols::<T, VECTOR_LEN>::borrow(row, self.inner_width) {
            Ok(cols) => cols,
            Err(e) => {
                return Err(e);
            },
        };
        let ghost width = self.inner_width as nat;
        assert(evaluates_slots(
            inner_eval,
            self.spec_air(),
            row@,
            width,
            0,
            *old(builder),
            Seq::<&mut B>::empty(),
            Seq::<B>::empty(),
            *builder,
        ));
        let mut i: usize = 0;
        while i < VECTOR_LEN
            invariant
                i <= VECTOR_LEN,
                width == self.spec_inner_width(),
                row@.len() == VECTOR_LEN * width,
                cols@ == split_row(row@, width, VECTOR_LEN as nat),
                cols.spec_width() == width,
                forall|call: &mut B, record: &[T]|
                    record@.len() == self.spec_inner_width() ==> call_requires(
                        inner_eval,
                        (&self.spec_air(), call, record),
                    ),
                exists|calls: Seq<&mut B>, left: Seq<B>| #[trigger]
                    evaluates_slots(
                        inner_eval,
                        self.spec_air(),
                        row@,
                        width,
                        i as nat,
                        *old(builder),
                        calls,
                        left,
                        *builder,
                    ) && forall|j: int|
                        #![trigger calls[j]]
                        #![trigger left[j]]
                        0 <= j < i ==> *final(calls[j]) == left[j],
                i == 1 && VECTOR_LEN == 1 ==> exists|call: &mut B|
                    *call == *old(builder) && *final(call) == *builder && #[trigger] call_ensures(
                        inner_eval,
                        (&self.spec_air(), call, row),
                        (),
                    ),
            decreases VECTOR_LEN - i,
        {
            let record = cols.slot(i);
            let ghost before = *builder;
            assert(self.spec_air() == self.air);
            assert(record@ == slot_of(row@, width, i as int));
            proof {
                if VECTOR_LEN == 1 {
                    lemma_single_slot(row@, width);
                    vstd::slice::axiom_slice_ext_equal(record, row);
                    assert(record =~= row);
                }
            }
            inner_eval(&self.air, builder, record);
            assert(exists|calls: Seq<&mut B>, left: Seq<B>| #[trigger]
                evaluates_slots(
                    inner_eval,
                    self.spec_air(),
                    row@,
                    width,
                    (i + 1) as nat,
                    *old(builder),
                    calls,
                    left,
                    *builder,
                ) && forall|j: int|
                    #![trigger calls[j]]
                    #![trigger left[j]]
                    0 <= j < i + 1 ==> *final(calls[j]) == left[j]) by {
                let (done, ends) = choose|calls: Seq<&mut B>, left: Seq<B>| #[trigger]
                    evaluates_slots(
                        inner_eval,
                        self.spec_air(),
                        row@,
                        width,
                        i as nat,
                        *old(builder),
                        calls,
                        left,
                        before,
                    ) && forall|j: int|
                        #![trigger calls[j]]
                        #![trigger left[j]]
                        0 <= j < i ==> *final(calls[j]) == left[j];
                let call = choose|call: &mut B|
                    *call == before && *final(call) == *builder && call_ensures(
                        inner_eval,
                        (&self.air, call, record),
                        (),
                    );
                assert(evaluates_slots(
                    inner_eval,
                    self.spec_air(),
                    row@,
                    width,
                    (i + 1) as nat,
                    *old(builder),
                    done.push(call),
                    ends.push(*builder),
                    *builder,
                ));
            }
            i += 1;
        }
        Ok(())
    }
}

} // verus!
