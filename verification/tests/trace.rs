use bberg::field::{DecodeError, FieldElement};
use bberg::schema::{ColumnRef, ColumnSchema};
use bberg::trace::{discard_trailing_row, fill_shifts, read_rows, read_trace, Row};

fn names(list: &[&str]) -> Vec<String> {
    list.iter().map(|name| name.to_string()).collect()
}

fn element(n: u64) -> FieldElement {
    let mut bytes = [0u8; 32];
    bytes[24..].copy_from_slice(&n.to_be_bytes());
    FieldElement::decode(&bytes)
}

fn elements(values: &[u64]) -> Vec<FieldElement> {
    values.iter().map(|n| element(*n)).collect()
}

fn stream(values: &[u64]) -> Vec<u8> {
    let mut bytes = Vec::new();
    for n in values {
        bytes.extend_from_slice(&element(*n).encode());
    }
    bytes
}

fn row(fixed: &[u64], witness: &[u64], shifts: &[u64]) -> Row {
    Row { fixed: elements(fixed), witness: elements(witness), shifts: elements(shifts) }
}

fn schema(fixed: &[&str], witness: &[&str], shifted: &[&str]) -> ColumnSchema {
    ColumnSchema::new(names(fixed), names(witness), names(shifted)).ok().unwrap()
}

#[test]
fn reader_appends_one_row_past_the_end() {
    let schema = schema(&["C", "ISLAST"], &["W"], &["W"]);
    let witness = stream(&[10, 20, 30]);
    let constants = stream(&[1, 0, 2, 0, 3, 1]);
    let rows = read_rows(&witness, &constants, &schema).unwrap();
    assert_eq!(
        rows,
        vec![
            row(&[1, 0], &[10], &[0]),
            row(&[2, 0], &[20], &[0]),
            row(&[3, 1], &[30], &[0]),
            row(&[0, 0], &[0], &[0]),
        ]
    );
}

#[test]
fn reader_fills_the_trailing_row_from_longer_constants() {
    let schema = schema(&["C", "ISLAST"], &["W"], &[]);
    let witness = stream(&[10]);
    let constants = stream(&[1, 0, 2, 1, 3, 1]);
    let rows = read_rows(&witness, &constants, &schema).unwrap();
    assert_eq!(rows, vec![row(&[1, 0], &[10], &[]), row(&[2, 1], &[0], &[])]);
}

#[test]
fn reader_of_an_empty_witness_stream_gives_the_trailing_row_alone() {
    let schema = schema(&["ISLAST"], &["W", "V"], &["W"]);
    let rows = read_rows(&[], &stream(&[5]), &schema).unwrap();
    assert_eq!(rows, vec![row(&[5], &[0, 0], &[0])]);
}

#[test]
fn discard_removes_exactly_one_row() {
    let mut rows = vec![row(&[1], &[2], &[]), row(&[3], &[4], &[]), row(&[5], &[6], &[])];
    discard_trailing_row(&mut rows);
    assert_eq!(rows, vec![row(&[1], &[2], &[]), row(&[3], &[4], &[])]);
    discard_trailing_row(&mut rows);
    assert_eq!(rows, vec![row(&[1], &[2], &[])]);
}

#[test]
fn discard_leaves_an_empty_trace_empty() {
    let mut rows: Vec<Row> = Vec::new();
    discard_trailing_row(&mut rows);
    assert!(rows.is_empty());
}

#[test]
fn trace_has_the_rows_of_the_witness_stream() {
    let schema = schema(&["C", "ISLAST"], &["W"], &["W"]);
    let witness = stream(&[10, 20, 30]);
    let constants = stream(&[1, 0, 2, 0, 3, 1]);
    let rows = read_trace(&witness, &constants, &schema).unwrap();
    assert_eq!(
        rows,
        vec![row(&[1, 0], &[10], &[20]), row(&[2, 0], &[20], &[30]), row(&[3, 1], &[30], &[0])]
    );
}

#[test]
fn trace_reads_columns_in_schema_order() {
    let schema = schema(&["A", "ISLAST", "B"], &["X", "Y"], &[]);
    let witness = stream(&[100, 101, 200, 201]);
    let constants = stream(&[1, 2, 3, 4, 5, 6]);
    let rows = read_trace(&witness, &constants, &schema).unwrap();
    assert_eq!(rows, vec![row(&[1, 2, 3], &[100, 101], &[]), row(&[4, 5, 6], &[200, 201], &[])]);
}

#[test]
fn trace_of_an_empty_witness_stream_is_empty() {
    let schema = schema(&["ISLAST"], &["W"], &["W"]);
    assert_eq!(read_trace(&[], &stream(&[1, 2, 3]), &schema), Ok(vec![]));
    assert_eq!(read_trace(&[], &[], &schema), Ok(vec![]));
}

#[test]
fn trace_of_a_single_row_has_zero_shifts() {
    let schema = schema(&["ISLAST"], &["W"], &["W", "ISLAST"]);
    let rows = read_trace(&stream(&[9]), &stream(&[1]), &schema).unwrap();
    assert_eq!(rows, vec![row(&[1], &[9], &[0, 0])]);
}

#[test]
fn short_constants_read_as_zero() {
    let schema = schema(&["C", "ISLAST"], &["W"], &[]);
    let witness = stream(&[10, 20, 30]);
    let constants = stream(&[1, 0, 2]);
    let rows = read_trace(&witness, &constants, &schema).unwrap();
    assert_eq!(rows, vec![row(&[1, 0], &[10], &[]), row(&[2, 0], &[20], &[]), row(&[0, 0], &[30], &[])]);
}

#[test]
fn constants_that_break_off_inside_an_element_read_as_zero_from_there() {
    let schema = schema(&["C", "ISLAST"], &["W"], &[]);
    let witness = stream(&[10, 20]);
    let mut constants = stream(&[1, 0, 2]);
    constants.extend_from_slice(&[0xff; 31]);
    let rows = read_trace(&witness, &constants, &schema).unwrap();
    assert_eq!(rows, vec![row(&[1, 0], &[10], &[]), row(&[2, 0], &[20], &[])]);
}

#[test]
fn missing_constants_read_as_zero() {
    let schema = schema(&["C", "ISLAST"], &["W"], &[]);
    let rows = read_trace(&stream(&[10, 20]), &[], &schema).unwrap();
    assert_eq!(rows, vec![row(&[0, 0], &[10], &[]), row(&[0, 0], &[20], &[])]);
}

#[test]
fn longer_constants_are_ignored() {
    let schema = schema(&["ISLAST"], &["W"], &[]);
    let rows = read_trace(&stream(&[10]), &stream(&[1, 2, 3, 4]), &schema).unwrap();
    assert_eq!(rows, vec![row(&[1], &[10], &[])]);
}

#[test]
fn truncated_witness_stream_is_refused() {
    let schema = schema(&["C", "ISLAST"], &["W"], &["W"]);
    let constants = stream(&[1, 0, 2, 0, 3, 1]);
    for extra in 1..32usize {
        let mut witness = stream(&[10, 20]);
        witness.extend_from_slice(&vec![0x5a; extra]);
        assert_eq!(
            read_trace(&witness, &constants, &schema),
            Err(DecodeError { offset: 64, available: extra })
        );
        assert_eq!(
            read_rows(&witness, &constants, &schema),
            Err(DecodeError { offset: 64, available: extra })
        );
    }
}

#[test]
fn truncated_witness_stream_of_wide_rows_is_refused() {
    let schema = schema(&["ISLAST"], &["X", "Y", "Z"], &[]);
    let mut witness = stream(&[1, 2, 3, 4, 5, 6]);
    witness.push(0);
    assert_eq!(
        read_trace(&witness, &stream(&[0, 1]), &schema),
        Err(DecodeError { offset: 192, available: 1 })
    );
}

#[test]
fn witness_stream_that_ends_between_the_elements_of_a_row_is_refused() {
    let schema = schema(&["ISLAST"], &["X", "Y", "Z"], &[]);
    assert_eq!(
        read_trace(&stream(&[1, 2, 3, 4]), &stream(&[0, 1]), &schema),
        Err(DecodeError { offset: 128, available: 0 })
    );
    assert_eq!(
        read_trace(&stream(&[1, 2, 3, 4, 5]), &stream(&[0, 1]), &schema),
        Err(DecodeError { offset: 160, available: 0 })
    );
    let mut witness = stream(&[1, 2, 3, 4]);
    witness.extend_from_slice(&[7; 20]);
    assert_eq!(
        read_trace(&witness, &stream(&[0, 1]), &schema),
        Err(DecodeError { offset: 128, available: 20 })
    );
}

#[test]
fn witness_stream_shorter_than_one_element_is_refused() {
    let schema = schema(&["ISLAST"], &["W"], &[]);
    assert_eq!(read_trace(&[1, 2, 3], &[], &schema), Err(DecodeError { offset: 0, available: 3 }));
}

#[test]
fn schema_without_witness_columns_takes_only_an_empty_stream() {
    let schema = schema(&["ISLAST"], &[], &[]);
    assert_eq!(read_trace(&[], &stream(&[1, 1]), &schema), Ok(vec![]));
    assert_eq!(read_rows(&[], &stream(&[1, 1]), &schema), Ok(vec![row(&[1], &[], &[])]));
    assert_eq!(
        read_trace(&stream(&[1, 2]), &stream(&[1, 1]), &schema),
        Err(DecodeError { offset: 64, available: 0 })
    );
    assert_eq!(read_trace(&[9; 40], &[], &schema), Err(DecodeError { offset: 32, available: 8 }));
}

#[test]
fn shifts_look_one_row_ahead() {
    let schema = schema(&["C", "ISLAST"], &["W", "V"], &["V", "C", "W"]);
    let mut rows = vec![
        row(&[1, 0], &[10, 100], &[0, 0, 0]),
        row(&[2, 0], &[20, 200], &[0, 0, 0]),
        row(&[3, 0], &[30, 300], &[0, 0, 0]),
        row(&[4, 1], &[40, 400], &[0, 0, 0]),
    ];
    fill_shifts(&mut rows, &schema);
    assert_eq!(
        rows,
        vec![
            row(&[1, 0], &[10, 100], &[200, 2, 20]),
            row(&[2, 0], &[20, 200], &[300, 3, 30]),
            row(&[3, 0], &[30, 300], &[400, 4, 40]),
            row(&[4, 1], &[40, 400], &[0, 0, 0]),
        ]
    );
}

#[test]
fn shifts_do_not_wrap_round() {
    let schema = schema(&["ISLAST"], &["W"], &["W"]);
    let mut rows = vec![row(&[0], &[7], &[0]), row(&[1], &[8], &[0])];
    fill_shifts(&mut rows, &schema);
    assert_eq!(rows[1].shifts, elements(&[0]));
    assert_ne!(rows[1].shifts, elements(&[7]));
    assert_eq!(rows[0].shifts, elements(&[8]));
}

#[test]
fn shifts_leave_the_last_row_as_it_is() {
    let schema = schema(&["ISLAST"], &["W"], &["W"]);
    let mut rows = vec![row(&[0], &[7], &[55]), row(&[1], &[8], &[66])];
    fill_shifts(&mut rows, &schema);
    assert_eq!(rows, vec![row(&[0], &[7], &[8]), row(&[1], &[8], &[66])]);
}

#[test]
fn shifts_of_short_traces() {
    let schema = schema(&["ISLAST"], &["W"], &["W"]);
    let mut none: Vec<Row> = Vec::new();
    fill_shifts(&mut none, &schema);
    assert!(none.is_empty());
    let mut one = vec![row(&[1], &[2], &[3])];
    fill_shifts(&mut one, &schema);
    assert_eq!(one, vec![row(&[1], &[2], &[3])]);
}

#[test]
fn row_value_picks_the_column() {
    let r = row(&[1, 2], &[3, 4], &[5]);
    assert_eq!(r.value(ColumnRef::Fixed(0)), element(1));
    assert_eq!(r.value(ColumnRef::Fixed(1)), element(2));
    assert_eq!(r.value(ColumnRef::Witness(0)), element(3));
    assert_eq!(r.value(ColumnRef::Witness(1)), element(4));
}
