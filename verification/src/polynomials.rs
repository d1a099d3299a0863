//! The trace laid out by column: one polynomial per column, as long as the
//! subgroup, with the rows' values in front and zeros behind them.

use vstd::prelude::*;
use crate::field::FieldElement;
use crate::schema::{ColumnRef, ColumnSchema};
use crate::subgroup::{get_circuit_subgroup_size, next_pow2};
use crate::trace::{all_fit, views, with_shifts, zeros, Row, RowView};

verus! {

/// What a polynomial set holds: for each column its values by row index.
pub ghost struct PolynomialsView {
    pub fixed: Seq<Seq<FieldElement>>,
    pub witness: Seq<Seq<FieldElement>>,
    pub shifted: Seq<Seq<FieldElement>>,
}

impl PolynomialsView {
    /// The values of all columns at index `i`.
    pub open spec fn row(self, i: int) -> RowView {
        RowView {
            fixed: Seq::new(self.fixed.len(), |c: int| self.fixed[c][i]),
            witness: Seq::new(self.witness.len(), |c: int| self.witness[c][i]),
            shifts: Seq::new(self.shifted.len(), |c: int| self.shifted[c][i]),
        }
    }

    /// The polynomial of `column`.
    pub open spec fn column(self, column: ColumnRef) -> Seq<FieldElement> {
        match column {
            ColumnRef::Fixed(at) => self.fixed[at as int],
            ColumnRef::Witness(at) => self.witness[at as int],
        }
    }

    /// Whether every polynomial has `size` values.
    pub open spec fn all_of_size(self, size: nat) -> bool {
        &&& forall|c: int| 0 <= c < self.fixed.len() ==> (#[trigger] self.fixed[c]).len() == size
        &&& forall|c: int|
            0 <= c < self.witness.len() ==> (#[trigger] self.witness[c]).len() == size
        &&& forall|c: int|
            0 <= c < self.shifted.len() ==> (#[trigger] self.shifted[c]).len() == size
    }
}

/// The polynomial of one column: the column's value in each row, then zeros
/// up to `size`.
pub open spec fn padded_column(
    rows: Seq<RowView>,
    size: nat,
    pick: spec_fn(RowView) -> FieldElement,
) -> Seq<FieldElement> {
    Seq::new(
        size,
        |i: int|
            if i < rows.len() {
                pick(rows[i])
            } else {
                FieldElement::zero()
            },
    )
}

/// The rows of a trace turned into polynomials of `size` values each.
pub open spec fn transposed(rows: Seq<RowView>, schema: ColumnSchema, size: nat) -> PolynomialsView {
    PolynomialsView {
        fixed: Seq::new(
            schema.fixed_names().len(),
            |c: int| padded_column(rows, size, |row: RowView| row.fixed[c]),
        ),
        witness: Seq::new(
            schema.witness_names().len(),
            |c: int| padded_column(rows, size, |row: RowView| row.witness[c]),
        ),
        shifted: Seq::new(
            schema.shifted_names().len(),
            |c: int| padded_column(rows, size, |row: RowView| row.shifts[c]),
        ),
    }
}

/// A polynomial moved one place towards the front: every value is replaced
/// by the one behind it, and the last by zero.
pub open spec fn shifted_left(polynomial: Seq<FieldElement>) -> Seq<FieldElement> {
    Seq::new(
        polynomial.len(),
        |i: int|
            if i + 1 < polynomial.len() {
                polynomial[i + 1]
            } else {
                FieldElement::zero()
            },
    )
}

/// In the polynomials of a trace, the values at an index below the row count
/// are those of the row with that index, and the values at an index from the
/// row count on are zero, in every column.
pub proof fn lemma_transposition(rows: Seq<RowView>, schema: ColumnSchema, size: nat, i: int)
    requires
        all_fit(rows, schema),
        0 <= i < size,
    ensures
        transposed(rows, schema, size).all_of_size(size),
        i < rows.len() ==> transposed(rows, schema, size).row(i) == rows[i],
        i >= rows.len() ==> transposed(rows, schema, size).row(i) == (RowView {
            fixed: zeros(schema.fixed_names().len()),
            witness: zeros(schema.witness_names().len()),
            shifts: zeros(schema.shifted_names().len()),
        }),
{
    let row = transposed(rows, schema, size).row(i);
    if i < rows.len() {
        assert(rows[i].fits(schema));
        assert(row.fixed =~= rows[i].fixed);
        assert(row.witness =~= rows[i].witness);
        assert(row.shifts =~= rows[i].shifts);
    } else {
        assert(row.fixed =~= zeros(schema.fixed_names().len()));
        assert(row.witness =~= zeros(schema.witness_names().len()));
        assert(row.shifts =~= zeros(schema.shifted_names().len()));
    }
}

/// A shifted polynomial can be had in two ways that agree: from the shifts
/// that the rows were given, or by moving the polynomial of the shift's
/// source one place towards the front. The rows are taken as they are before
/// their shifts are filled, the last of them with zero in the shift.
pub proof fn lemma_shift_derivations_agree(
    rows: Seq<RowView>,
    schema: ColumnSchema,
    size: nat,
    k: int,
)
    requires
        schema.valid(),
        all_fit(rows, schema),
        rows.len() <= size,
        0 <= k < schema.shifted_names().len(),
        rows.len() > 0 ==> rows.last().shifts[k] == FieldElement::zero(),
    ensures
        transposed(with_shifts(rows, schema.sources()), schema, size).shifted[k] == shifted_left(
            transposed(with_shifts(rows, schema.sources()), schema, size).column(
                schema.sources()[k],
            ),
        ),
{
    schema.lemma_valid();
    let source = schema.sources()[k];
    assert(schema.has_column(source));
    let filled = with_shifts(rows, schema.sources());
    let polynomials = transposed(filled, schema, size);
    let base = polynomials.column(source);
    assert(base.len() == size);
    assert forall|i: int| 0 <= i < size implies polynomials.shifted[k][i] == shifted_left(base)[i] by {
        if i + 1 < rows.len() {
            assert(base[i + 1] == filled[i + 1].value(source));
        } else if i + 1 < size {
            assert(base[i + 1] == FieldElement::zero());
        }
    }
    assert(polynomials.shifted[k] =~= shifted_left(base));
}

/// The polynomials of a trace.
pub struct PolynomialSet {
    fixed: Vec<Vec<FieldElement>>,
    witness: Vec<Vec<FieldElement>>,
    shifted: Vec<Vec<FieldElement>>,
    size: usize,
}

/// The values of each polynomial, in order.
pub open spec fn columns(polynomials: Seq<Vec<FieldElement>>) -> Seq<Seq<FieldElement>> {
    polynomials.map_values(|polynomial: Vec<FieldElement>| polynomial@)
}

impl View for PolynomialSet {
    type V = PolynomialsView;

    closed spec fn view(&self) -> PolynomialsView {
        PolynomialsView {
            fixed: columns(self.fixed@),
            witness: columns(self.witness@),
            shifted: columns(self.shifted@),
        }
    }
}

impl PolynomialSet {
    /// The length that every polynomial of the set has.
    pub closed spec fn size(self) -> nat {
        self.size as nat
    }

    /// Every polynomial of the set has the length of the set.
    #[verifier::type_invariant]
    pub closed spec fn valid(self) -> bool {
        self@.all_of_size(self.size())
    }

    /// The length that every polynomial of the set has.
    pub fn subgroup_size(&self) -> (size: usize)
        ensures
            size == self.size(),
            self@.all_of_size(self.size()),
    {
        proof {
            use_type_invariant(self);
        }
        self.size
    }

    /// The polynomial of the fixed column `c`.
    pub fn fixed_polynomial(&self, c: usize) -> (polynomial: &Vec<FieldElement>)
        requires
            c < self@.fixed.len(),
        ensures
            polynomial@ == self@.fixed[c as int],
            polynomial.len() == self.size(),
    {
        proof {
            use_type_invariant(self);
        }
        &self.fixed[c]
    }

    /// The polynomial of the witness column `c`.
    pub fn witness_polynomial(&self, c: usize) -> (polynomial: &Vec<FieldElement>)
        requires
            c < self@.witness.len(),
        ensures
            polynomial@ == self@.witness[c as int],
            polynomial.len() == self.size(),
    {
        proof {
            use_type_invariant(self);
        }
        &self.witness[c]
    }

    /// The polynomial of the shifted column `c`.
    pub fn shifted_polynomial(&self, c: usize) -> (polynomial: &Vec<FieldElement>)
        requires
            c < self@.shifted.len(),
        ensures
            polynomial@ == self@.shifted[c as int],
            polynomial.len() == self.size(),
    {
        proof {
            use_type_invariant(self);
        }
        &self.shifted[c]
    }

    /// The values of all columns at index `i`.
    pub fn get_row(&self, i: usize) -> (row: Row)
        requires
            i < self.size(),
        ensures
            row@ == self@.row(i as int),
    {
        proof {
            use_type_invariant(self);
            assert(self@.all_of_size(self.size()));
            assert(self@.fixed == columns(self.fixed@));
            assert(self@.witness == columns(self.witness@));
            assert(self@.shifted == columns(self.shifted@));
        }
        let fixed = values_at(&self.fixed, i, Ghost(self.size()));
        let witness = values_at(&self.witness, i, Ghost(self.size()));
        let shifts = values_at(&self.shifted, i, Ghost(self.size()));
        Row { fixed, witness, shifts }
    }
}

fn values_at(polynomials: &Vec<Vec<FieldElement>>, i: usize, Ghost(size): Ghost<nat>) -> (out: Vec<
    FieldElement,
>)
    requires
        i < size,
        forall|c: int|
            0 <= c < polynomials.len() ==> (#[trigger] columns(polynomials@)[c]).len() == size,
    ensures
        out@ == Seq::new(polynomials.len() as nat, |c: int| columns(polynomials@)[c][i as int]),
{
    let mut out: Vec<FieldElement> = Vec::new();
    let mut c: usize = 0;
    while c < polynomials.len()
        invariant
            c <= polynomials.len(),
            i < size,
            forall|k: int|
                0 <= k < polynomials.len() ==> (#[trigger] columns(polynomials@)[k]).len() == size,
            out.len() == c,
            forall|k: int| 0 <= k < c ==> #[trigger] out@[k] == columns(polynomials@)[k][i as int],
        decreases polynomials.len() - c,
    {
        assert(columns(polynomials@)[c as int].len() == size);
        out.push(polynomials[c][i]);
        c += 1;
    }
    assert(out@ =~= Seq::new(
        polynomials.len() as nat,
        |c: int| columns(polynomials@)[c][i as int],
    ));
    out
}

enum Part {
    Fixed,
    Witness,
    Shifts,
}

spec fn part(row: RowView, which: Part) -> Seq<FieldElement> {
    match which {
        Part::Fixed => row.fixed,
        Part::Witness => row.witness,
        Part::Shifts => row.shifts,
    }
}

fn part_of<'a>(row: &'a Row, which: &Part) -> (values: &'a Vec<FieldElement>)
    ensures
        values@ == part(row@, *which),
{
    match which {
        Part::Fixed => &row.fixed,
        Part::Witness => &row.witness,
        Part::Shifts => &row.shifts,
    }
}

fn transpose_column(rows: &Vec<Row>, which: &Part, c: usize, size: usize) -> (out: Vec<
    FieldElement,
>)
    requires
        forall|i: int| 0 <= i < rows.len() ==> c < part(#[trigger] rows@[i]@, *which).len(),
    ensures
        out@ == padded_column(views(rows@), size as nat, |row: RowView| part(row, *which)[c as int]),
{
    let mut out: Vec<FieldElement> = Vec::new();
    let mut i: usize = 0;
    while i < size
        invariant
            i <= size,
            out.len() == i,
            forall|r: int| 0 <= r < rows.len() ==> c < part(#[trigger] rows@[r]@, *which).len(),
            forall|k: int|
                0 <= k < i ==> #[trigger] out@[k] == padded_column(
                    views(rows@),
                    size as nat,
                    |row: RowView| part(row, *which)[c as int],
                )[k],
        decreases size - i,
    {
        if i < rows.len() {
            assert(c < part(rows@[i as int]@, *which).len());
            out.push(part_of(&rows[i], which)[c]);
        } else {
            out.push(FieldElement::zero());
        }
        i += 1;
    }
    assert(out@ =~= padded_column(
        views(rows@),
        size as nat,
        |row: RowView| part(row, *which)[c as int],
    ));
    out
}

fn transpose_part(rows: &Vec<Row>, which: &Part, count: usize, size: usize) -> (out: Vec<
    Vec<FieldElement>,
>)
    requires
        forall|i: int| 0 <= i < rows.len() ==> part(#[trigger] rows@[i]@, *which).len() == count,
    ensures
        out.len() == count,
        forall|c: int|
            0 <= c < count ==> (#[trigger] columns(out@)[c]) == padded_column(
                views(rows@),
                size as nat,
                |row: RowView| part(row, *which)[c],
            ),
{
    let mut out: Vec<Vec<FieldElement>> = Vec::new();
    let mut c: usize = 0;
    while c < count
        invariant
            c <= count,
            out.len() == c,
            forall|i: int|
                0 <= i < rows.len() ==> part(#[trigger] rows@[i]@, *which).len() == count,
            forall|k: int|
                0 <= k < c ==> (#[trigger] columns(out@)[k]) == padded_column(
                    views(rows@),
                    size as nat,
                    |row: RowView| part(row, *which)[k],
                ),
        decreases count - c,
    {
        let ghost before = columns(out@);
        let column = transpose_column(rows, which, c, size);
        out.push(column);
        proof {
            assert forall|k: int| 0 <= k < c + 1 implies (#[trigger] columns(out@)[k])
                == padded_column(
                views(rows@),
                size as nat,
                |row: RowView| part(row, *which)[k],
            ) by {
                if k < c {
                    assert(columns(out@)[k] == before[k]);
                }
            }
        }
        c += 1;
    }
    out
}

/// Lays the rows of a trace out by column, over the subgroup that the row
/// count calls for: polynomial `c` holds at index `i` the value of column
/// `c` in row `i`, and zero from the row count on.
pub fn compute_polynomials(rows: &Vec<Row>, schema: &ColumnSchema) -> (out: PolynomialSet)
    requires
        all_fit(views(rows@), *schema),
        next_pow2(rows.len() as nat) <= usize::MAX,
    ensures
        out.size() == next_pow2(rows.len() as nat),
        out@ == transposed(views(rows@), *schema, next_pow2(rows.len() as nat)),
{
    let size = get_circuit_subgroup_size(rows.len());
    proof {
        assert forall|i: int| 0 <= i < rows.len() implies (#[trigger] rows@[i])@.fits(*schema) by {
            assert(views(rows@)[i].fits(*schema));
        }
    }
    let fixed = transpose_part(rows, &Part::Fixed, schema.fixed_count(), size);
    let witness = transpose_part(rows, &Part::Witness, schema.witness_count(), size);
    let shifted = transpose_part(rows, &Part::Shifts, schema.shifted_count(), size);
    let out = PolynomialSet { fixed, witness, shifted, size };
    proof {
        let wanted = transposed(views(rows@), *schema, size as nat);
        assert(out@.fixed =~~= wanted.fixed);
        assert(out@.witness =~~= wanted.witness);
        assert(out@.shifted =~~= wanted.shifted);
    }
    out
}

/// Moves a polynomial one place towards the front and puts zero at its end.
pub fn shift_polynomial(polynomial: &Vec<FieldElement>) -> (out: Vec<FieldElement>)
    ensures
        out@ == shifted_left(polynomial@),
{
    let mut out: Vec<FieldElement> = Vec::new();
    let mut i: usize = 0;
    while i < polynomial.len()
        invariant
            i <= polynomial.len(),
            out.len() == i,
            forall|k: int| 0 <= k < i ==> #[trigger] out@[k] == shifted_left(polynomial@)[k],
        decreases polynomial.len() - i,
    {
        if i + 1 < polynomial.len() {
            out.push(polynomial[i + 1]);
        } else {
            out.push(FieldElement::zero());
        }
        i += 1;
    }
    assert(out@ =~= shifted_left(polynomial@));
    out
}

} // verus!
