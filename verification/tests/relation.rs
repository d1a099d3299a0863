use std::cell::Cell;

use bberg::circuit::Circuit;
use bberg::field::{DecodeError, FieldElement};
use bberg::polynomials::compute_polynomials;
use bberg::relation::{
    check_relation, first_nonzero, ConstraintViolation, Relation, RelationParameters,
};
use bberg::schema::ColumnSchema;
use bberg::trace::{Row, RowView};

fn names(list: &[&str]) -> Vec<String> {
    list.iter().map(|name| name.to_string()).collect()
}

fn element(n: u64) -> FieldElement {
    let mut bytes = [0u8; 32];
    bytes[24..].copy_from_slice(&n.to_be_bytes());
    FieldElement::decode(&bytes)
}

fn number(x: &FieldElement) -> u64 {
    let bytes = x.encode();
    let mut low = [0u8; 8];
    low.copy_from_slice(&bytes[24..]);
    u64::from_be_bytes(low)
}

fn elements(values: &[u64]) -> Vec<FieldElement> {
    values.iter().map(|n| element(*n)).collect()
}

fn stream(values: &[u64]) -> Vec<u8> {
    let mut bytes = Vec::new();
    for n in values {
        bytes.extend_from_slice(&element(*n).encode());
    }
    bytes
}

fn row(fixed: &[u64], witness: &[u64], shifts: &[u64]) -> Row {
    Row { fixed: elements(fixed), witness: elements(witness), shifts: elements(shifts) }
}

fn schema(fixed: &[&str], witness: &[&str], shifted: &[&str]) -> ColumnSchema {
    ColumnSchema::new(names(fixed), names(witness), names(shifted)).ok().unwrap()
}

/// A relation given by a function from a row to the values of its
/// sub-relations. It counts its evaluations and records whether every one of
/// them started from zeros, without parameters and with a scaling of one.
struct Table<F: Fn(&Row) -> Vec<u64>> {
    count: usize,
    values: F,
    evaluations: Cell<usize>,
    regular: Cell<bool>,
}

impl<F: Fn(&Row) -> Vec<u64>> Table<F> {
    fn new(count: usize, values: F) -> Self {
        Table { count, values, evaluations: Cell::new(0), regular: Cell::new(true) }
    }
}

impl<F: Fn(&Row) -> Vec<u64>> Relation for Table<F> {
    fn subrelations(&self) -> vstd::prelude::nat {
        unreachable!()
    }

    fn accumulated(
        &self,
        _accumulator: vstd::seq::Seq<FieldElement>,
        _row: RowView,
        _parameters: vstd::seq::Seq<FieldElement>,
        _scaling: FieldElement,
    ) -> vstd::seq::Seq<FieldElement> {
        unreachable!()
    }

    fn subrelation_count(&self) -> usize {
        self.count
    }

    fn accumulate(
        &self,
        accumulator: &mut Vec<FieldElement>,
        row: &Row,
        parameters: &RelationParameters,
        scaling: &FieldElement,
    ) {
        self.evaluations.set(self.evaluations.get() + 1);
        let fresh = accumulator.len() == self.count && accumulator.iter().all(|x| x.is_zero());
        if !(fresh && parameters.values.is_empty() && *scaling == FieldElement::one()) {
            self.regular.set(false);
        }
        let values = (self.values)(row);
        for j in 0..self.count {
            accumulator[j] = element(number(&accumulator[j]) + values[j] * number(scaling));
        }
    }
}

fn sample_rows() -> Vec<Row> {
    vec![
        row(&[1, 0], &[10], &[20]),
        row(&[2, 0], &[20], &[30]),
        row(&[3, 0], &[30], &[40]),
        row(&[4, 0], &[40], &[50]),
        row(&[5, 1], &[50], &[0]),
    ]
}

#[test]
fn first_nonzero_finds_the_first() {
    assert_eq!(first_nonzero(&elements(&[0, 0, 5, 0, 7])), Some(2));
    assert_eq!(first_nonzero(&elements(&[1])), Some(0));
    assert_eq!(first_nonzero(&elements(&[0, 0, 0, 1])), Some(3));
}

#[test]
fn first_nonzero_of_zeros_is_none() {
    assert_eq!(first_nonzero(&elements(&[0, 0, 0])), None);
    assert_eq!(first_nonzero(&elements(&[])), None);
}

#[test]
fn first_nonzero_sees_high_bytes() {
    let mut bytes = [0u8; 32];
    bytes[0] = 1;
    assert_eq!(first_nonzero(&vec![FieldElement::zero(), FieldElement::decode(&bytes)]), Some(1));
}

#[test]
fn relation_that_is_always_zero_passes() {
    let schema = schema(&["C", "ISLAST"], &["W"], &["W"]);
    for count in 0..6 {
        let rows: Vec<Row> = sample_rows().into_iter().take(count).collect();
        let polynomials = compute_polynomials(&rows, &schema);
        let relation = Table::new(3, |_row: &Row| vec![0, 0, 0]);
        assert_eq!(check_relation(&polynomials, &relation), Ok(()));
        assert_eq!(relation.evaluations.get(), polynomials.subgroup_size());
        assert!(relation.regular.get());
    }
}

#[test]
fn relation_without_sub_relations_passes() {
    let schema = schema(&["C", "ISLAST"], &["W"], &["W"]);
    let polynomials = compute_polynomials(&sample_rows(), &schema);
    let relation = Table::new(0, |_row: &Row| vec![]);
    assert_eq!(check_relation(&polynomials, &relation), Ok(()));
    assert_eq!(relation.evaluations.get(), 8);
}

#[test]
fn relation_that_fails_at_a_chosen_row_reports_that_row() {
    let schema = schema(&["C", "ISLAST"], &["W"], &["W"]);
    let polynomials = compute_polynomials(&sample_rows(), &schema);
    for chosen in 1..=5u64 {
        let relation =
            Table::new(2, move |row: &Row| vec![0, if number(&row.fixed[0]) == chosen { 9 } else { 0 }]);
        assert_eq!(
            check_relation(&polynomials, &relation),
            Err(ConstraintViolation { row_index: (chosen - 1) as usize, sub_relation_index: 1 })
        );
        assert_eq!(relation.evaluations.get(), chosen as usize);
        assert!(relation.regular.get());
    }
}

#[test]
fn relation_that_fails_on_padding_reports_the_padding_index() {
    let schema = schema(&["C", "ISLAST"], &["W"], &["W"]);
    let polynomials = compute_polynomials(&sample_rows(), &schema);
    let relation = Table::new(1, |row: &Row| vec![if number(&row.fixed[0]) == 0 { 1 } else { 0 }]);
    assert_eq!(
        check_relation(&polynomials, &relation),
        Err(ConstraintViolation { row_index: 5, sub_relation_index: 0 })
    );
    assert_eq!(relation.evaluations.get(), 6);
}

#[test]
fn only_the_first_violation_is_reported() {
    let schema = schema(&["C", "ISLAST"], &["W"], &["W"]);
    let polynomials = compute_polynomials(&sample_rows(), &schema);
    let relation = Table::new(4, |row: &Row| {
        let c = number(&row.fixed[0]);
        vec![0, if c >= 3 { 1 } else { 0 }, if c >= 2 { 1 } else { 0 }, 1]
    });
    assert_eq!(
        check_relation(&polynomials, &relation),
        Err(ConstraintViolation { row_index: 0, sub_relation_index: 3 })
    );
    assert_eq!(relation.evaluations.get(), 1);
    let later = Table::new(3, |row: &Row| {
        let c = number(&row.fixed[0]);
        vec![0, if c >= 3 { 1 } else { 0 }, if c >= 3 { 1 } else { 0 }]
    });
    assert_eq!(
        check_relation(&polynomials, &later),
        Err(ConstraintViolation { row_index: 2, sub_relation_index: 1 })
    );
    assert_eq!(later.evaluations.get(), 3);
}

#[test]
fn checking_twice_gives_the_same_verdict() {
    let schema = schema(&["C", "ISLAST"], &["W"], &["W"]);
    let polynomials = compute_polynomials(&sample_rows(), &schema);
    let relation = Table::new(1, |row: &Row| vec![if number(&row.witness[0]) == 30 { 4 } else { 0 }]);
    let first = check_relation(&polynomials, &relation);
    let second = check_relation(&polynomials, &relation);
    assert_eq!(first, second);
    assert_eq!(first, Err(ConstraintViolation { row_index: 2, sub_relation_index: 0 }));
}

fn step_by_ten(row: &Row) -> Vec<u64> {
    let active = number(&row.fixed[0]) != 0 && number(&row.fixed[1]) == 0;
    if active && number(&row.shifts[0]) != number(&row.witness[0]) + 10 {
        vec![1]
    } else {
        vec![0]
    }
}

#[test]
fn three_row_circuit_end_to_end() {
    let schema = schema(&["C", "ISLAST"], &["W"], &["W"]);
    let mut circuit = Circuit::new(schema);
    assert_eq!(circuit.get_num_gates(), 0);
    let witness = stream(&[10, 20, 30]);
    let constants = stream(&[1, 0, 2, 0, 3, 1]);
    assert_eq!(circuit.build_circuit(&witness, &constants), Ok(()));
    assert_eq!(circuit.get_num_gates(), 3);
    assert_eq!(circuit.get_circuit_subgroup_size(), 4);
    let shifts: Vec<FieldElement> = circuit.get_rows().iter().map(|r| r.shifts[0]).collect();
    assert_eq!(shifts, elements(&[20, 30, 0]));
    assert!(circuit.get_polynomials().is_none());
    circuit.compute_polynomials();
    {
        let polynomials = circuit.get_polynomials().unwrap();
        assert_eq!(polynomials.subgroup_size(), 4);
        assert_eq!(polynomials.witness_polynomial(0), &elements(&[10, 20, 30, 0]));
        assert_eq!(polynomials.shifted_polynomial(0), &elements(&[20, 30, 0, 0]));
        assert_eq!(polynomials.fixed_polynomial(0), &elements(&[1, 2, 3, 0]));
        assert_eq!(polynomials.fixed_polynomial(1), &elements(&[0, 0, 1, 0]));
    }
    let relation = Table::new(1, step_by_ten);
    assert_eq!(circuit.check_circuit(&relation), Ok(()));
    assert_eq!(relation.evaluations.get(), 4);
    assert!(relation.regular.get());
}

#[test]
fn three_row_circuit_with_a_wrong_step_fails_at_that_row() {
    let schema = schema(&["C", "ISLAST"], &["W"], &["W"]);
    let mut circuit = Circuit::new(schema);
    let witness = stream(&[10, 20, 31]);
    let constants = stream(&[1, 0, 2, 0, 3, 1]);
    assert_eq!(circuit.build_circuit(&witness, &constants), Ok(()));
    let relation = Table::new(1, step_by_ten);
    assert_eq!(
        circuit.check_circuit(&relation),
        Err(ConstraintViolation { row_index: 1, sub_relation_index: 0 })
    );
    assert!(circuit.get_polynomials().is_some());
}

#[test]
fn circuit_computes_polynomials_when_checking() {
    let schema = schema(&["C", "ISLAST"], &["W"], &["W"]);
    let mut circuit = Circuit::new(schema);
    assert_eq!(circuit.build_circuit(&stream(&[1, 2]), &stream(&[1, 0, 1, 1])), Ok(()));
    assert!(circuit.get_polynomials().is_none());
    let relation = Table::new(2, |_row: &Row| vec![0, 0]);
    assert_eq!(circuit.check_circuit(&relation), Ok(()));
    assert_eq!(circuit.get_polynomials().unwrap().subgroup_size(), 2);
}

#[test]
fn circuit_drops_polynomials_when_it_is_built_anew() {
    let schema = schema(&["ISLAST"], &["W"], &[]);
    let mut circuit = Circuit::new(schema);
    assert_eq!(circuit.build_circuit(&stream(&[1, 2, 3]), &stream(&[0, 0, 1])), Ok(()));
    circuit.compute_polynomials();
    assert_eq!(circuit.get_polynomials().unwrap().subgroup_size(), 4);
    assert_eq!(circuit.build_circuit(&stream(&[1]), &stream(&[1])), Ok(()));
    assert!(circuit.get_polynomials().is_none());
    assert_eq!(circuit.get_num_gates(), 1);
    assert_eq!(circuit.get_circuit_subgroup_size(), 1);
}

#[test]
fn circuit_keeps_its_trace_when_reading_fails() {
    let schema = schema(&["ISLAST"], &["W"], &[]);
    let mut circuit = Circuit::new(schema);
    assert_eq!(circuit.build_circuit(&stream(&[1, 2]), &stream(&[0, 1])), Ok(()));
    circuit.compute_polynomials();
    let mut broken = stream(&[7, 8]);
    broken.extend_from_slice(&[1, 2, 3]);
    assert_eq!(
        circuit.build_circuit(&broken, &stream(&[0, 1])),
        Err(DecodeError { offset: 64, available: 3 })
    );
    assert_eq!(circuit.get_rows(), &vec![row(&[0], &[1], &[]), row(&[1], &[2], &[])]);
    assert!(circuit.get_polynomials().is_some());
}

#[test]
fn truncated_witness_file_is_an_error_and_no_short_trace() {
    let schema = schema(&["C", "ISLAST"], &["W"], &["W"]);
    let mut circuit = Circuit::new(schema);
    let mut witness = stream(&[10, 20]);
    witness.extend_from_slice(&[0u8; 17]);
    let constants = stream(&[1, 0, 2, 1]);
    assert_eq!(
        circuit.build_circuit(&witness, &constants),
        Err(DecodeError { offset: 64, available: 17 })
    );
    assert_eq!(circuit.get_num_gates(), 0);
}

#[test]
fn empty_circuit_is_checked_on_one_padding_row() {
    let schema = schema(&["ISLAST"], &["W"], &["W"]);
    let mut circuit = Circuit::new(schema);
    assert_eq!(circuit.get_circuit_subgroup_size(), 1);
    let relation = Table::new(1, |row: &Row| vec![number(&row.witness[0]) + 1]);
    assert_eq!(
        circuit.check_circuit(&relation),
        Err(ConstraintViolation { row_index: 0, sub_relation_index: 0 })
    );
    assert_eq!(circuit.get_schema().witness_count(), 1);
}

#[test]
fn unconstrained_relation_passes_everywhere() {
    let schema = schema(&["C", "ISLAST"], &["W"], &["W"]);
    let polynomials = compute_polynomials(&sample_rows(), &schema);
    for sub_relations in 0..4 {
        let relation = bberg::relation::Unconstrained { sub_relations };
        assert_eq!(relation.subrelation_count(), sub_relations);
        assert_eq!(check_relation(&polynomials, &relation), Ok(()));
    }
    let mut accumulator = elements(&[3, 0, 5]);
    bberg::relation::Unconstrained { sub_relations: 3 }.accumulate(
        &mut accumulator,
        &row(&[1, 0], &[2], &[3]),
        &RelationParameters::empty(),
        &FieldElement::one(),
    );
    assert_eq!(accumulator, elements(&[3, 0, 5]));
}
