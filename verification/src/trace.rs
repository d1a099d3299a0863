//! Rows, and the three steps that make a trace of two byte streams: reading
//! the rows, dropping the row that the reader appends past the end, and
//! filling the shifts.

use vstd::prelude::*;
use crate::field::{ByteCursor, DecodeError, FieldElement};
use crate::schema::{ColumnRef, ColumnSchema};

verus! {

/// One step of the execution: a value for every column of the schema.
#[derive(Clone, Debug, PartialEq, Eq)]
pub struct Row {
    /// Values of the fixed columns, in schema order.
    pub fixed: Vec<FieldElement>,
    /// Values of the witness columns, in schema order.
    pub witness: Vec<FieldElement>,
    /// For each shifted column, the value that its source has in the next row.
    pub shifts: Vec<FieldElement>,
}

/// What a row holds.
pub ghost struct RowView {
    pub fixed: Seq<FieldElement>,
    pub witness: Seq<FieldElement>,
    pub shifts: Seq<FieldElement>,
}

impl View for Row {
    type V = RowView;

    open spec fn view(&self) -> RowView {
        RowView { fixed: self.fixed@, witness: self.witness@, shifts: self.shifts@ }
    }
}

impl RowView {
    /// The value in `column`.
    pub open spec fn value(self, column: ColumnRef) -> FieldElement {
        match column {
            ColumnRef::Fixed(at) => self.fixed[at as int],
            ColumnRef::Witness(at) => self.witness[at as int],
        }
    }

    /// Whether the row has exactly the columns of `schema`.
    pub open spec fn fits(self, schema: ColumnSchema) -> bool {
        &&& self.fixed.len() == schema.fixed_names().len()
        &&& self.witness.len() == schema.witness_names().len()
        &&& self.shifts.len() == schema.shifted_names().len()
    }
}

/// What each row holds, in order.
pub open spec fn views(rows: Seq<Row>) -> Seq<RowView> {
    rows.map_values(|row: Row| row@)
}

/// Whether every row has exactly the columns of `schema`.
pub open spec fn all_fit(rows: Seq<RowView>, schema: ColumnSchema) -> bool {
    forall|i: int| 0 <= i < rows.len() ==> (#[trigger] rows[i]).fits(schema)
}

/// `n` times the additive identity.
pub open spec fn zeros(n: nat) -> Seq<FieldElement> {
    Seq::new(n, |i: int| FieldElement::zero())
}

/// The element that stands at place `index` of a stream of encodings, or zero
/// where the stream ends before that element is complete.
pub open spec fn element_at(stream: Seq<u8>, index: nat) -> FieldElement {
    if (index + 1) * 32 <= stream.len() {
        FieldElement::from_encoding(stream.subrange((index * 32) as int, (index * 32 + 32) as int))
    } else {
        FieldElement::zero()
    }
}

impl Row {
    /// Tells whether the row has exactly the columns of `schema`.
    pub fn fits(&self, schema: &ColumnSchema) -> (fits: bool)
        ensures
            fits == self@.fits(*schema),
    {
        self.fixed.len() == schema.fixed_count() && self.witness.len() == schema.witness_count()
            && self.shifts.len() == schema.shifted_count()
    }

    /// The value in `column`.
    pub fn value(&self, column: ColumnRef) -> (out: FieldElement)
        requires
            match column {
                ColumnRef::Fixed(at) => at < self.fixed.len(),
                ColumnRef::Witness(at) => at < self.witness.len(),
            },
        ensures
            out == self@.value(column),
    {
        match column {
            ColumnRef::Fixed(at) => self.fixed[at],
            ColumnRef::Witness(at) => self.witness[at],
        }
    }
}

/// `n` times the additive identity.
pub fn zero_values(n: usize) -> (out: Vec<FieldElement>)
    ensures
        out@ == zeros(n as nat),
{
    let mut out: Vec<FieldElement> = Vec::new();
    let mut i: usize = 0;
    while i < n
        invariant
            i <= n,
            out@ == zeros(i as nat),
        decreases n - i,
    {
        out.push(FieldElement::zero());
        assert(out@ =~= zeros((i + 1) as nat));
        i += 1;
    }
    out
}

/// Number of bytes that one row takes in the witness stream.
pub open spec fn row_bytes(schema: ColumnSchema) -> nat {
    32 * schema.witness_names().len()
}

/// Whether a witness stream of `length` bytes ends where a row ends. Under a
/// schema without witness columns a row takes no bytes, and only the empty
/// stream does.
pub open spec fn ends_on_row(length: nat, schema: ColumnSchema) -> bool {
    if row_bytes(schema) == 0 {
        length == 0
    } else {
        length % row_bytes(schema) == 0
    }
}

/// Number of whole rows in a witness stream of `length` bytes; none under a
/// schema without witness columns.
pub open spec fn whole_rows(length: nat, schema: ColumnSchema) -> nat {
    if row_bytes(schema) == 0 {
        0
    } else {
        length / row_bytes(schema)
    }
}

/// Row `i` as the two streams hold it: column `j` of its fixed part is
/// element `i * F + j` of the constants, column `j` of its witness part is
/// element `i * W + j` of the witness stream, for `F` fixed and `W` witness
/// columns, and its shifts are zero. Where a stream has ended, the element
/// is zero.
pub open spec fn file_row(
    witness: Seq<u8>,
    constants: Seq<u8>,
    schema: ColumnSchema,
    i: nat,
) -> RowView {
    RowView {
        fixed: Seq::new(
            schema.fixed_names().len(),
            |j: int| element_at(constants, (i * schema.fixed_names().len() + j) as nat),
        ),
        witness: Seq::new(
            schema.witness_names().len(),
            |j: int| element_at(witness, (i * schema.witness_names().len() + j) as nat),
        ),
        shifts: zeros(schema.shifted_names().len()),
    }
}

/// The first `n` rows of the two streams.
pub open spec fn file_rows(
    witness: Seq<u8>,
    constants: Seq<u8>,
    schema: ColumnSchema,
    n: nat,
) -> Seq<RowView> {
    Seq::new(n, |i: int| file_row(witness, constants, schema, i as nat))
}

/// Reads `count` values from the constants, of which `next` is the number of
/// values asked of them before. A value that the stream cannot deliver any
/// more is zero, and no error.
fn read_constants(cursor: &mut ByteCursor, count: usize, Ghost(next): Ghost<nat>) -> (values: Vec<
    FieldElement,
>)
    requires
        old(cursor).consumed() % 32 == 0,
        old(cursor).consumed() <= 32 * next,
        old(cursor).consumed() < 32 * next ==> old(cursor).remaining().len() < 32,
    ensures
        final(cursor).stream() == old(cursor).stream(),
        values.len() == count,
        forall|j: int|
            0 <= j < count ==> #[trigger] values@[j] == element_at(
                old(cursor).stream(),
                (next + j) as nat,
            ),
        final(cursor).consumed() % 32 == 0,
        final(cursor).consumed() <= 32 * (next + count),
        final(cursor).consumed() < 32 * (next + count) ==> final(cursor).remaining().len() < 32,
{
    let mut values: Vec<FieldElement> = Vec::new();
    let mut j: usize = 0;
    while j < count
        invariant
            j <= count,
            values.len() == j,
            cursor.stream() == old(cursor).stream(),
            cursor.consumed() % 32 == 0,
            cursor.consumed() <= 32 * (next + j),
            cursor.consumed() < 32 * (next + j) ==> cursor.remaining().len() < 32,
            forall|k: int|
                0 <= k < j ==> #[trigger] values@[k] == element_at(
                    old(cursor).stream(),
                    (next + k) as nat,
                ),
        decreases count - j,
    {
        let ghost at = cursor.consumed();
        let ghost stream = cursor.stream();
        let value = match cursor.read_field() {
            Ok(value) => {
                assert(stream.skip(at as int).take(32) =~= stream.subrange(
                    at as int,
                    (at + 32) as int,
                ));
                value
            },
            Err(_) => FieldElement::zero(),
        };
        values.push(value);
        j += 1;
    }
    values
}

/// Reads the `count` witness values of one row, or finds the stream at its
/// end. A stream that ends inside the row is an error.
fn read_witness_values(cursor: &mut ByteCursor, count: usize) -> (result: Result<
    Option<Vec<FieldElement>>,
    DecodeError,
>)
    requires
        count > 0,
        old(cursor).consumed() % 32 == 0,
    ensures
        final(cursor).stream() == old(cursor).stream(),
        old(cursor).consumed() + old(cursor).remaining().len() == old(cursor).stream().len(),
        match result {
            Ok(Some(values)) => {
                &&& old(cursor).remaining().len() >= 32 * count
                &&& final(cursor).consumed() == old(cursor).consumed() + 32 * count
                &&& values.len() == count
                &&& forall|j: int|
                    0 <= j < count ==> #[trigger] values@[j] == element_at(
                        old(cursor).stream(),
                        (old(cursor).consumed() / 32 + j) as nat,
                    )
            },
            Ok(None) => {
                &&& old(cursor).remaining().len() == 0
                &&& final(cursor).consumed() == old(cursor).consumed()
            },
            Err(error) => {
                &&& 0 < old(cursor).remaining().len() < 32 * count
                &&& error.offset == old(cursor).stream().len() / 32 * 32
                &&& error.available == old(cursor).stream().len() % 32
            },
        },
{
    let mut values: Vec<FieldElement> = Vec::new();
    let ghost start = cursor.consumed();
    let ghost stream = cursor.stream();
    let mut j: usize = 0;
    while j < count
        invariant
            j <= count,
            values.len() == j,
            cursor.stream() == stream,
            stream == old(cursor).stream(),
            start == old(cursor).consumed(),
            start % 32 == 0,
            cursor.consumed() == start + 32 * j,
            j > 0 ==> cursor.consumed() <= stream.len() && start + old(cursor).remaining().len()
                == stream.len(),
            forall|k: int|
                0 <= k < j ==> #[trigger] values@[k] == element_at(stream, (start / 32 + k) as nat),
        decreases count - j,
    {
        let ghost at = cursor.consumed();
        match cursor.read_field() {
            Ok(value) => {
                assert(stream.skip(at as int).take(32) =~= stream.subrange(
                    at as int,
                    (at + 32) as int,
                ));
                values.push(value);
            },
            Err(error) => {
                if j == 0 && error.available == 0 {
                    return Ok(None);
                }
                return Err(error);
            },
        }
        j += 1;
    }
    Ok(Some(values))
}

/// Reads rows for as long as the witness stream delivers them, and one more.
///
/// The end of the witness stream shows only when a read runs into it, so the
/// loop is entered once more after the last row. That pass appends a row too:
/// its fixed part is whatever the constants still hold, its witness part is
/// zero. The result therefore has one row more than the witness stream has,
/// and [`discard_trailing_row`] has to follow.
///
/// The constants are never checked against the witness stream. If they end
/// early, the fixed columns they can no longer fill are zero, which shows
/// only in the values.
///
/// Under a schema without witness columns no read can run into the end of
/// the witness stream. Such a schema takes the empty stream alone, and the
/// result is then the trailing row by itself.
pub fn read_rows(witness: &[u8], constants: &[u8], schema: &ColumnSchema) -> (result: Result<
    Vec<Row>,
    DecodeError,
>)
    ensures
        match result {
            Ok(rows) => {
                &&& ends_on_row(witness@.len(), *schema)
                &&& views(rows@) == file_rows(
                    witness@,
                    constants@,
                    *schema,
                    whole_rows(witness@.len(), *schema) + 1,
                )
            },
            Err(error) => {
                &&& !ends_on_row(witness@.len(), *schema)
                &&& error.offset == witness@.len() / 32 * 32
                &&& error.available == witness@.len() % 32
            },
        },
{
    let fixed_count = schema.fixed_count();
    let witness_count = schema.witness_count();
    let shifted_count = schema.shifted_count();
    let mut witness_cursor = ByteCursor::new(witness);
    let mut constants_cursor = ByteCursor::new(constants);
    let mut rows: Vec<Row> = Vec::new();
    if witness_count == 0 {
        if witness.len() > 0 {
            return Err(
                DecodeError { offset: witness.len() / 32 * 32, available: witness.len() % 32 },
            );
        }
        let fixed = read_constants(&mut constants_cursor, fixed_count, Ghost(0));
        let row = Row { fixed, witness: Vec::new(), shifts: zero_values(shifted_count) };
        assert(row@ =~= file_row(witness@, constants@, *schema, 0)) by {
            assert(row@.fixed =~= file_row(witness@, constants@, *schema, 0).fixed);
            assert(row@.witness =~= file_row(witness@, constants@, *schema, 0).witness);
        }
        rows.push(row);
        assert(views(rows@) =~= file_rows(witness@, constants@, *schema, 1));
        return Ok(rows);
    }
    let ghost mut fixed_base: nat = 0;
    let ghost mut witness_base: nat = 0;
    proof {
        assert(rows.len() * fixed_count == 0 && rows.len() * witness_count == 0)
            by (nonlinear_arith)
            requires
                rows.len() == 0,
        ;
    }
    loop
        invariant
            fixed_count == schema.fixed_names().len(),
            witness_count == schema.witness_names().len(),
            shifted_count == schema.shifted_names().len(),
            witness_count > 0,
            witness_cursor.stream() == witness@,
            constants_cursor.stream() == constants@,
            fixed_base == rows.len() * fixed_count,
            witness_base == rows.len() * witness_count,
            witness_cursor.consumed() == 32 * witness_base,
            witness_cursor.consumed() <= witness@.len(),
            constants_cursor.consumed() % 32 == 0,
            constants_cursor.consumed() <= 32 * fixed_base,
            constants_cursor.consumed() < 32 * fixed_base ==> constants_cursor.remaining().len()
                < 32,
            views(rows@) == file_rows(witness@, constants@, *schema, rows.len() as nat),
        decreases witness@.len() - witness_cursor.consumed(),
    {
        let ghost read = rows.len() as nat;
        let ghost before = rows@;
        let fixed = read_constants(&mut constants_cursor, fixed_count, Ghost(fixed_base));
        assert(fixed@ =~= file_row(witness@, constants@, *schema, read).fixed);
        match read_witness_values(&mut witness_cursor, witness_count) {
            Ok(Some(values)) => {
                proof {
                    assert(values@ =~= file_row(witness@, constants@, *schema, read).witness);
                    assert((read + 1) * fixed_count == fixed_base + fixed_count) by (nonlinear_arith)
                        requires
                            fixed_base == read * fixed_count,
                    ;
                    assert((read + 1) * witness_count == witness_base + witness_count)
                        by (nonlinear_arith)
                        requires
                            witness_base == read * witness_count,
                    ;
                    fixed_base = (fixed_base + fixed_count) as nat;
                    witness_base = (witness_base + witness_count) as nat;
                }
                let row = Row { fixed, witness: values, shifts: zero_values(shifted_count) };
                assert(row@ == file_row(witness@, constants@, *schema, read));
                rows.push(row);
                proof {
                    assert forall|i: int| 0 <= i < read + 1 implies #[trigger] views(rows@)[i]
                        == file_rows(witness@, constants@, *schema, read + 1)[i] by {
                        if i < read {
                            assert(views(rows@)[i] == views(before)[i]);
                        }
                    }
                    assert(views(rows@) =~= file_rows(witness@, constants@, *schema, read + 1));
                }
            },
            Ok(None) => {
                let values = zero_values(witness_count);
                proof {
                    assert(values@ =~= file_row(witness@, constants@, *schema, read).witness);
                    lemma_whole_rows(witness@.len(), witness_count as nat, read, 0);
                }
                let row = Row { fixed, witness: values, shifts: zero_values(shifted_count) };
                assert(row@ == file_row(witness@, constants@, *schema, read));
                rows.push(row);
                proof {
                    assert forall|i: int| 0 <= i < read + 1 implies #[trigger] views(rows@)[i]
                        == file_rows(witness@, constants@, *schema, read + 1)[i] by {
                        if i < read {
                            assert(views(rows@)[i] == views(before)[i]);
                        }
                    }
                    assert(views(rows@) =~= file_rows(witness@, constants@, *schema, read + 1));
                }
                return Ok(rows);
            },
            Err(error) => {
                proof {
                    lemma_whole_rows(
                        witness@.len(),
                        witness_count as nat,
                        read,
                        (witness@.len() - 32 * witness_base) as nat,
                    );
                }
                return Err(error);
            },
        }
    }
}

proof fn lemma_whole_rows(length: nat, columns: nat, rows: nat, rest: nat)
    requires
        columns > 0,
        length == 32 * (rows * columns) + rest,
        rest < 32 * columns,
    ensures
        length / (32 * columns) == rows,
        length % (32 * columns) == rest,
{
    assert(length == rows * (32 * columns) + rest) by (nonlinear_arith)
        requires
            length == 32 * (rows * columns) + rest,
    ;
    vstd::arithmetic::div_mod::lemma_fundamental_div_mod_converse(
        length as int,
        (32 * columns) as int,
        rows as int,
        rest as int,
    );
}

/// Removes the last row, which the reader appended past the end of the
/// witness stream. Exactly one row goes, whatever it holds.
pub fn discard_trailing_row(rows: &mut Vec<Row>)
    ensures
        old(rows).len() > 0 ==> final(rows)@ == old(rows)@.drop_last(),
        old(rows).len() == 0 ==> final(rows)@ == old(rows)@,
{
    rows.pop();
}

/// The trace that the two streams hold: as many rows as the witness stream
/// has whole rows, each with the next row's values in its shifts, and the
/// last with zeros there.
pub open spec fn trace_of(witness: Seq<u8>, constants: Seq<u8>, schema: ColumnSchema) -> Seq<
    RowView,
> {
    with_shifts(
        file_rows(witness, constants, schema, whole_rows(witness.len(), schema)),
        schema.sources(),
    )
}

/// After the shifts are filled, each row but the last holds in every shift
/// the value that the shift's source has in the next row, and the last row
/// holds what it held before.
pub proof fn lemma_shifts_look_ahead(rows: Seq<RowView>, sources: Seq<ColumnRef>, i: int, k: int)
    requires
        0 <= i < rows.len(),
        0 <= k < sources.len(),
    ensures
        with_shifts(rows, sources).len() == rows.len(),
        i + 1 < rows.len() ==> with_shifts(rows, sources)[i].shifts[k] == with_shifts(
            rows,
            sources,
        )[i + 1].value(sources[k]),
        i + 1 == rows.len() ==> with_shifts(rows, sources)[i].shifts == rows[i].shifts,
{
}

/// In a trace that was read, each row but the last holds in every shift the
/// value that the shift's source has in the next row, and the last row holds
/// zero in every shift.
pub proof fn lemma_trace_shifts(
    witness: Seq<u8>,
    constants: Seq<u8>,
    schema: ColumnSchema,
    i: int,
    k: int,
)
    requires
        schema.valid(),
        0 <= i < whole_rows(witness.len(), schema),
        0 <= k < schema.shifted_names().len(),
    ensures
        trace_of(witness, constants, schema).len() == whole_rows(witness.len(), schema),
        i + 1 < whole_rows(witness.len(), schema) ==> trace_of(
            witness,
            constants,
            schema,
        )[i].shifts[k] == trace_of(witness, constants, schema)[i + 1].value(schema.sources()[k]),
        i + 1 == whole_rows(witness.len(), schema) ==> trace_of(
            witness,
            constants,
            schema,
        )[i].shifts[k] == FieldElement::zero(),
{
    schema.lemma_valid();
}

/// A witness stream of `rows` rows and a rest of less than a row has `rows`
/// whole rows, and ends on a row boundary exactly if the rest is empty.
pub proof fn lemma_rows_and_rest(length: nat, schema: ColumnSchema, rows: nat, rest: nat)
    requires
        length == rows * row_bytes(schema) + rest,
        rest < row_bytes(schema),
    ensures
        whole_rows(length, schema) == rows,
        ends_on_row(length, schema) <==> rest == 0,
{
    let columns = schema.witness_names().len();
    assert(length == 32 * (rows * columns) + rest) by (nonlinear_arith)
        requires
            length == rows * (32 * columns) + rest,
    ;
    lemma_whole_rows(length, columns, rows, rest);
}

/// A witness stream that holds whole rows and then less than one encoding is
/// refused, however many rows stand before the remainder.
pub proof fn lemma_truncated_stream(length: nat, schema: ColumnSchema, rows: nat, extra: nat)
    requires
        length == rows * row_bytes(schema) + extra,
        0 < extra < 32,
    ensures
        !ends_on_row(length, schema),
{
    let columns = schema.witness_names().len();
    if columns > 0 {
        assert(length == 32 * (rows * columns) + extra) by (nonlinear_arith)
            requires
                length == rows * (32 * columns) + extra,
        ;
        lemma_whole_rows(length, columns, rows, extra);
    }
}

/// Reads the trace that the two streams hold: reads the rows, drops the
/// trailing one and fills the shifts.
///
/// The trace has as many rows as the witness stream has whole rows. A witness
/// stream that does not end on a row boundary is an error, whether it breaks
/// off inside an element or between two elements of a row. The error names
/// the place where the whole elements end and the number of bytes behind it.
pub fn read_trace(witness: &[u8], constants: &[u8], schema: &ColumnSchema) -> (result: Result<
    Vec<Row>,
    DecodeError,
>)
    ensures
        match result {
            Ok(rows) => {
                &&& ends_on_row(witness@.len(), *schema)
                &&& views(rows@) == trace_of(witness@, constants@, *schema)
                &&& all_fit(views(rows@), *schema)
            },
            Err(error) => {
                &&& !ends_on_row(witness@.len(), *schema)
                &&& error.offset == witness@.len() / 32 * 32
                &&& error.available == witness@.len() % 32
            },
        },
{
    let mut rows = match read_rows(witness, constants, schema) {
        Ok(rows) => rows,
        Err(error) => {
            return Err(error);
        },
    };
    let ghost count = whole_rows(witness@.len(), *schema);
    let ghost appended = rows@;
    assert(appended.len() == views(appended).len() == count + 1);
    discard_trailing_row(&mut rows);
    proof {
        assert(rows@ == appended.drop_last());
        assert forall|i: int| 0 <= i < count implies #[trigger] views(rows@)[i] == file_rows(
            witness@,
            constants@,
            *schema,
            count,
        )[i] by {
            assert(views(rows@)[i] == views(appended)[i]);
        }
        assert(views(rows@) =~= file_rows(witness@, constants@, *schema, count));
    }
    fill_shifts(&mut rows, schema);
    Ok(rows)
}

/// The shifts that the rows get: every row but the last holds, for each
/// shifted column, the value of its source in the next row; the last row
/// keeps what it had.
pub open spec fn with_shifts(rows: Seq<RowView>, sources: Seq<ColumnRef>) -> Seq<RowView> {
    Seq::new(
        rows.len(),
        |i: int|
            RowView {
                fixed: rows[i].fixed,
                witness: rows[i].witness,
                shifts: if i + 1 < rows.len() {
                    Seq::new(sources.len(), |k: int| rows[i + 1].value(sources[k]))
                } else {
                    rows[i].shifts
                },
            },
    )
}

/// Gives every row but the last the next row's values of the shifted columns.
/// The last row is left as it is; nothing wraps round to the first.
pub fn fill_shifts(rows: &mut Vec<Row>, schema: &ColumnSchema)
    requires
        all_fit(views(old(rows)@), *schema),
    ensures
        views(final(rows)@) == with_shifts(views(old(rows)@), schema.sources()),
        all_fit(views(final(rows)@), *schema),
{
    let count = schema.shifted_count();
    let mut i: usize = 1;
    while i < rows.len()
        invariant
            1 <= i,
            count == schema.sources().len(),
            count == schema.shifted_names().len(),
            rows.len() == old(rows).len(),
            all_fit(views(rows@), *schema),
            forall|r: int| i - 1 <= r < rows.len() ==> (#[trigger] rows@[r])@ == old(rows)@[r]@,
            forall|r: int|
                0 <= r < i - 1 ==> (#[trigger] rows@[r])@ == with_shifts(
                    views(old(rows)@),
                    schema.sources(),
                )[r],
        decreases rows.len() - i,
    {
        let mut shifts: Vec<FieldElement> = Vec::new();
        let mut k: usize = 0;
        assert(views(rows@)[i as int].fits(*schema));
        while k < count
            invariant
                k <= count,
                i < rows.len(),
                count == schema.sources().len(),
                count == schema.shifted_names().len(),
                rows@[i as int]@.fits(*schema),
                shifts.len() == k,
                forall|j: int|
                    0 <= j < k ==> #[trigger] shifts@[j] == rows@[i as int]@.value(
                        schema.sources()[j],
                    ),
            decreases count - k,
        {
            let column = schema.shift_source(k);
            let value = rows[i].value(column);
            shifts.push(value);
            k += 1;
        }
        let ghost before = rows@;
        let ghost filled = shifts@;
        assert(views(before)[i - 1].fits(*schema));
        rows[i - 1].shifts = shifts;
        proof {
            let target = with_shifts(views(old(rows)@), schema.sources())[i - 1];
            assert(rows@.len() == before.len());
            assert(forall|r: int| 0 <= r < rows.len() && r != i - 1 ==> rows@[r] == before[r]);
            assert(rows@[i - 1].fixed == before[i - 1].fixed);
            assert(rows@[i - 1].witness == before[i - 1].witness);
            assert(rows@[i - 1].shifts@ == filled);
            assert(before[i as int]@ == old(rows)@[i as int]@);
            assert(before[i - 1]@ == old(rows)@[i - 1]@);
            assert(filled =~= target.shifts);
            assert(rows@[i - 1]@ == target);
            assert forall|r: int| 0 <= r < rows.len() implies (#[trigger] views(rows@)[r]).fits(
                *schema,
            ) by {
                if r != i - 1 {
                    assert(views(before)[r].fits(*schema));
                }
            }
        }
        i += 1;
    }
    proof {
        assert(views(rows@) =~= with_shifts(views(old(rows)@), schema.sources()));
    }
}

} // verus!
