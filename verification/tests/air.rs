use poseidon2_air::{LayoutMismatch, VectorizedPoseidon2Air};
use rand::rngs::StdRng;
use rand::{Rng, SeedableRng};

/// A stand-in for a single-instance definition: its constants, drawn once.
#[derive(Clone, Debug, PartialEq, Eq)]
struct Inner {
    constants: [u64; 4],
}

impl Inner {
    fn draw(rng: &mut StdRng) -> Inner {
        Inner { constants: [rng.gen(), rng.gen(), rng.gen(), rng.gen()] }
    }

    fn width(&self) -> usize {
        8
    }
}

/// A builder that records what was asserted: for each call of the inner
/// routine, the constants it was given and the record it was handed.
#[derive(Clone, Debug, Default, PartialEq, Eq)]
struct Recorder {
    calls: Vec<([u64; 4], Vec<u64>)>,
}

fn record(air: &Inner, builder: &mut Recorder, cols: &[u64]) {
    builder.calls.push((air.constants, cols.to_vec()));
}

/// A builder that accumulates constraint values, one per call: the sum of
/// the record's columns, each times a constant.
fn weigh(air: &Inner, sums: &mut Vec<u64>, cols: &[u64]) {
    let mut sum = 0u64;
    for (k, c) in cols.iter().enumerate() {
        sum = sum.wrapping_add(c.wrapping_mul(air.constants[k % 4]));
    }
    sums.push(sum);
}

fn inner() -> Inner {
    Inner { constants: [3, 5, 7, 11] }
}

#[test]
fn width_is_inner_width_times_vector_len() {
    assert_eq!(VectorizedPoseidon2Air::<Inner, 1>::new(inner(), 8).width(), 8);
    assert_eq!(VectorizedPoseidon2Air::<Inner, 2>::new(inner(), 8).width(), 16);
    assert_eq!(VectorizedPoseidon2Air::<Inner, 4>::new(inner(), 8).width(), 32);
    assert_eq!(VectorizedPoseidon2Air::<Inner, 8>::new(inner(), 8).width(), 64);
    assert_eq!(VectorizedPoseidon2Air::<Inner, 16>::new(inner(), 301).width(), 4816);
    assert_eq!(VectorizedPoseidon2Air::<Inner, 4>::new(inner(), 0).width(), 0);
    assert_eq!(VectorizedPoseidon2Air::<Inner, 3>::new(inner(), 5).width(), 15);
}

#[test]
fn getters_give_back_what_was_wrapped() {
    let air = VectorizedPoseidon2Air::<Inner, 4>::new(inner(), 8);
    assert_eq!(air.air(), &inner());
    assert_eq!(air.inner_width(), 8);
}

#[test]
fn four_slots_of_eight_are_evaluated_in_order() {
    let air = VectorizedPoseidon2Air::<Inner, 4>::new(inner(), 8);
    assert_eq!(air.width(), 32);
    let row: Vec<u64> = (100..132).collect();
    let mut builder = Recorder::default();
    assert_eq!(air.eval(&mut builder, &row, record), Ok(()));
    assert_eq!(builder.calls.len(), 4);
    for (i, (constants, cols)) in builder.calls.iter().enumerate() {
        assert_eq!(constants, &[3, 5, 7, 11]);
        assert_eq!(cols.len(), 8);
        assert_eq!(cols[0], 100 + 8 * i as u64);
        assert_eq!(&cols[..], &row[8 * i..8 * (i + 1)]);
    }
}

#[test]
fn evaluation_appends_to_what_the_builder_holds() {
    let air = VectorizedPoseidon2Air::<Inner, 2>::new(inner(), 2);
    let mut sums = vec![99u64];
    assert_eq!(air.eval(&mut sums, &[1, 2, 3, 4], weigh), Ok(()));
    assert_eq!(sums, vec![99, 1 * 3 + 2 * 5, 3 * 3 + 4 * 5]);
}

#[test]
fn single_slot_is_the_inner_definition_on_the_row() {
    let mut rng = StdRng::seed_from_u64(11);
    let drawn = Inner::draw(&mut rng);
    let air = VectorizedPoseidon2Air::<Inner, 1>::new(drawn.clone(), 6);
    for _ in 0..20 {
        let row: Vec<u64> = (0..6).map(|_| rng.gen()).collect();
        let mut vectorized = Recorder::default();
        assert_eq!(air.eval(&mut vectorized, &row, record), Ok(()));
        let mut direct = Recorder::default();
        record(&drawn, &mut direct, &row);
        assert_eq!(vectorized, direct);

        let mut vectorized_sums = vec![1u64];
        assert_eq!(air.eval(&mut vectorized_sums, &row, weigh), Ok(()));
        let mut direct_sums = vec![1u64];
        weigh(&drawn, &mut direct_sums, &row);
        assert_eq!(vectorized_sums, direct_sums);
    }
}

#[test]
fn perturbing_one_slot_changes_only_its_contribution() {
    let mut rng = StdRng::seed_from_u64(23);
    let air = VectorizedPoseidon2Air::<Inner, 8>::new(Inner::draw(&mut rng), 5);
    let row: Vec<u64> = (0..40).map(|_| rng.gen()).collect();
    let mut base = Vec::new();
    assert_eq!(air.eval(&mut base, &row, weigh), Ok(()));
    assert_eq!(base.len(), 8);
    for i in 0..8 {
        for c in 0..5 {
            let mut changed = row.clone();
            changed[i * 5 + c] = changed[i * 5 + c].wrapping_add(1);
            let mut sums = Vec::new();
            assert_eq!(air.eval(&mut sums, &changed, weigh), Ok(()));
            for j in 0..8 {
                if j == i {
                    let weight = air.air().constants[c % 4];
                    assert_eq!(sums[j], base[j].wrapping_add(weight));
                } else {
                    assert_eq!(sums[j], base[j]);
                }
            }
        }
    }
}

#[test]
fn every_slot_is_evaluated_whatever_came_before() {
    // The first slot violates the constraint "all columns are zero"; the
    // others are still evaluated.
    fn all_zero(_air: &Inner, violations: &mut Vec<bool>, cols: &[u64]) {
        violations.push(cols.iter().any(|c| *c != 0));
    }
    let air = VectorizedPoseidon2Air::<Inner, 3>::new(inner(), 2);
    let mut violations = Vec::new();
    assert_eq!(air.eval(&mut violations, &[1, 0, 0, 0, 0, 2], all_zero), Ok(()));
    assert_eq!(violations, vec![true, false, true]);
}

#[test]
fn malformed_rows_are_rejected_before_anything_is_evaluated() {
    let air = VectorizedPoseidon2Air::<Inner, 4>::new(inner(), 8);
    let long = [0u64; 33];
    let mut builder = Recorder::default();
    assert_eq!(
        air.eval(&mut builder, &long[..31], record),
        Err(LayoutMismatch { slots: 4, slot_width: 8, row_len: 31 })
    );
    assert_eq!(
        air.eval(&mut builder, &long, record),
        Err(LayoutMismatch { slots: 4, slot_width: 8, row_len: 33 })
    );
    assert_eq!(
        air.eval(&mut builder, &long[..8], record),
        Err(LayoutMismatch { slots: 4, slot_width: 8, row_len: 8 })
    );
    assert_eq!(
        air.eval(&mut builder, &long[..0], record),
        Err(LayoutMismatch { slots: 4, slot_width: 8, row_len: 0 })
    );
    assert_eq!(builder, Recorder::default());
    assert_eq!(air.eval(&mut builder, &long[..32], record), Ok(()));
    assert_eq!(builder.calls.len(), 4);
}

#[test]
fn a_total_width_that_overflows_matches_no_row() {
    let air = VectorizedPoseidon2Air::<Inner, 2>::new(inner(), usize::MAX);
    let mut builder = Recorder::default();
    assert_eq!(
        air.eval(&mut builder, &[5, 6], record),
        Err(LayoutMismatch { slots: 2, slot_width: usize::MAX, row_len: 2 })
    );
    assert!(builder.calls.is_empty());
}

#[test]
fn zero_width_and_zero_slots() {
    let none: [u64; 0] = [];
    let air = VectorizedPoseidon2Air::<Inner, 3>::new(inner(), 0);
    let mut builder = Recorder::default();
    assert_eq!(air.eval(&mut builder, &none, record), Ok(()));
    assert_eq!(builder.calls, vec![([3, 5, 7, 11], vec![]); 3]);

    let air = VectorizedPoseidon2Air::<Inner, 0>::new(inner(), 8);
    assert_eq!(air.width(), 0);
    let mut builder = Recorder::default();
    assert_eq!(air.eval(&mut builder, &none, record), Ok(()));
    assert!(builder.calls.is_empty());
    assert_eq!(
        air.eval(&mut builder, &[1u64; 8], record),
        Err(LayoutMismatch { slots: 0, slot_width: 8, row_len: 8 })
    );
}

#[test]
fn same_seed_gives_the_same_definition() {
    let mut first = StdRng::seed_from_u64(2024);
    let mut second = StdRng::seed_from_u64(2024);
    let a = VectorizedPoseidon2Air::<Inner, 4>::new_from_rng(&mut first, Inner::draw, Inner::width);
    let b = VectorizedPoseidon2Air::<Inner, 4>::new_from_rng(&mut second, Inner::draw, Inner::width);
    assert_eq!(a.air(), b.air());
    assert_eq!(a.inner_width(), 8);
    assert_eq!(a.width(), 32);
    // The generators were advanced alike, and by one draw of the inner
    // constructor only.
    let mut reference = StdRng::seed_from_u64(2024);
    assert_eq!(a.air(), &Inner::draw(&mut reference));
    assert_eq!(first.gen::<u64>(), reference.gen::<u64>());

    let mut other = StdRng::seed_from_u64(2025);
    let c = VectorizedPoseidon2Air::<Inner, 4>::new_from_rng(&mut other, Inner::draw, Inner::width);
    assert_ne!(a.air(), c.air());
}

#[test]
fn all_slots_share_the_one_drawn_definition() {
    let mut rng = StdRng::seed_from_u64(99);
    let air = VectorizedPoseidon2Air::<Inner, 8>::new_from_rng(&mut rng, Inner::draw, |_: &Inner| 3);
    let row: Vec<u64> = (0..24).collect();
    let mut builder = Recorder::default();
    assert_eq!(air.eval(&mut builder, &row, record), Ok(()));
    assert_eq!(builder.calls.len(), 8);
    for (constants, _) in &builder.calls {
        assert_eq!(constants, &air.air().constants);
    }
}

#[test]
fn closures_can_serve_as_the_inner_routine() {
    let air = VectorizedPoseidon2Air::<u64, 2>::new(10, 3);
    let mut total = 0u64;
    let r = air.eval(&mut total, &[1u64, 2, 3, 4, 5, 6], |scale: &u64, acc: &mut u64, cols: &[u64]| {
        *acc = *acc * *scale + cols.iter().sum::<u64>();
    });
    assert_eq!(r, Ok(()));
    assert_eq!(total, (0 * 10 + 6) * 10 + 15);
}
