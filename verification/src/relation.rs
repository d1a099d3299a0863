//! Evaluating a relation on the polynomials of a trace.
//!
//! A relation is a set of identities, its sub-relations, that every row of a
//! valid trace satisfies. It is known here only by what it adds to an
//! accumulator for one row; the evaluator applies it at every index of the
//! subgroup and stops at the first index at which a sub-relation is not zero.

use vstd::prelude::*;
use crate::field::FieldElement;
use crate::polynomials::{PolynomialSet, PolynomialsView};
use crate::trace::{zero_values, zeros, Row, RowView};

verus! {

/// Values that a relation takes besides the row. The evaluator passes none.
pub struct RelationParameters {
    pub values: Vec<FieldElement>,
}

impl View for RelationParameters {
    type V = Seq<FieldElement>;

    open spec fn view(&self) -> Seq<FieldElement> {
        self.values@
    }
}

impl RelationParameters {
    /// No parameters.
    pub fn empty() -> (out: RelationParameters)
        ensures
            out@ == Seq::<FieldElement>::empty(),
    {
        RelationParameters { values: Vec::new() }
    }
}

/// The identities of one circuit.
///
/// A relation is handed every index of the subgroup, padding included, and
/// rows of whatever schema the trace was read under. It has to come to a
/// result on each of them.
pub trait Relation {
    /// Number of sub-relations.
    spec fn subrelations(&self) -> nat;

    /// The accumulator after the contributions of `row` have been added to
    /// `accumulator`, each scaled by `scaling`.
    spec fn accumulated(
        &self,
        accumulator: Seq<FieldElement>,
        row: RowView,
        parameters: Seq<FieldElement>,
        scaling: FieldElement,
    ) -> Seq<FieldElement>;

    /// Number of sub-relations.
    fn subrelation_count(&self) -> (count: usize)
        ensures
            count == self.subrelations(),
    ;

    /// Adds to `accumulator` what each sub-relation contributes for `row`.
    fn accumulate(
        &self,
        accumulator: &mut Vec<FieldElement>,
        row: &Row,
        parameters: &RelationParameters,
        scaling: &FieldElement,
    )
        requires
            old(accumulator).len() == self.subrelations(),
        ensures
            final(accumulator)@ == self.accumulated(
                old(accumulator)@,
                row@,
                parameters@,
                *scaling,
            ),
    ;
}

/// The relation that constrains nothing: it has `sub_relations`
/// sub-relations, and each of them is zero on every row.
pub struct Unconstrained {
    pub sub_relations: usize,
}

impl Relation for Unconstrained {
    open spec fn subrelations(&self) -> nat {
        self.sub_relations as nat
    }

    open spec fn accumulated(
        &self,
        accumulator: Seq<FieldElement>,
        row: RowView,
        parameters: Seq<FieldElement>,
        scaling: FieldElement,
    ) -> Seq<FieldElement> {
        accumulator
    }

    fn subrelation_count(&self) -> (count: usize) {
        self.sub_relations
    }

    fn accumulate(
        &self,
        accumulator: &mut Vec<FieldElement>,
        row: &Row,
        parameters: &RelationParameters,
        scaling: &FieldElement,
    ) {
    }
}

/// The first sub-relation that is not zero at some index of the subgroup.
#[derive(Clone, Copy, Debug, PartialEq, Eq, Structural)]
pub struct ConstraintViolation {
    /// Index of the row, or of the padding behind the rows.
    pub row_index: usize,
    /// Index of the sub-relation.
    pub sub_relation_index: usize,
}

/// Whether `at` is the first position of `values` that does not hold zero.
pub open spec fn is_first_nonzero(values: Seq<FieldElement>, at: int) -> bool {
    &&& 0 <= at < values.len()
    &&& values[at] != FieldElement::zero()
    &&& forall|k: int| 0 <= k < at ==> #[trigger] values[k] == FieldElement::zero()
}

/// Whether `values` holds nothing but zeros.
pub open spec fn all_zero(values: Seq<FieldElement>) -> bool {
    forall|k: int| 0 <= k < values.len() ==> #[trigger] values[k] == FieldElement::zero()
}

/// What the sub-relations of `relation` come to on `row` alone: the
/// accumulator that started at zero, with no parameters and a scaling of one.
pub open spec fn evaluation<R: Relation>(relation: &R, row: RowView) -> Seq<FieldElement> {
    relation.accumulated(
        zeros(relation.subrelations()),
        row,
        Seq::empty(),
        FieldElement::one(),
    )
}

/// Whether `verdict` is what evaluating `relation` on polynomials of `size`
/// values comes to: the first index at which a sub-relation is not zero, with
/// the first such sub-relation, or success if there is no such index.
pub open spec fn is_verdict<R: Relation>(
    relation: &R,
    polynomials: PolynomialsView,
    size: nat,
    verdict: Result<(), ConstraintViolation>,
) -> bool {
    match verdict {
        Ok(_) => forall|i: int|
            0 <= i < size ==> all_zero(#[trigger] evaluation(relation, polynomials.row(i))),
        Err(violation) => {
            &&& violation.row_index < size
            &&& is_first_nonzero(
                evaluation(relation, polynomials.row(violation.row_index as int)),
                violation.sub_relation_index as int,
            )
            &&& forall|i: int|
                0 <= i < violation.row_index ==> all_zero(
                    #[trigger] evaluation(relation, polynomials.row(i)),
                )
        },
    }
}

/// A relation has one verdict on given polynomials: any two verdicts are equal.
pub proof fn lemma_verdict_unique<R: Relation>(
    relation: &R,
    polynomials: PolynomialsView,
    size: nat,
    first: Result<(), ConstraintViolation>,
    second: Result<(), ConstraintViolation>,
)
    requires
        is_verdict(relation, polynomials, size, first),
        is_verdict(relation, polynomials, size, second),
    ensures
        first == second,
{
    match (first, second) {
        (Err(a), Err(b)) => {
            let at_a = evaluation(relation, polynomials.row(a.row_index as int));
            let at_b = evaluation(relation, polynomials.row(b.row_index as int));
            if a.row_index < b.row_index {
                assert(all_zero(at_a));
                assert(at_a[a.sub_relation_index as int] == FieldElement::zero());
            } else if b.row_index < a.row_index {
                assert(all_zero(at_b));
                assert(at_b[b.sub_relation_index as int] == FieldElement::zero());
            } else if a.sub_relation_index < b.sub_relation_index {
                assert(at_b[a.sub_relation_index as int] == FieldElement::zero());
            } else if b.sub_relation_index < a.sub_relation_index {
                assert(at_a[b.sub_relation_index as int] == FieldElement::zero());
            }
            assert(a == b);
        },
        (Err(a), Ok(_)) => {
            let at_a = evaluation(relation, polynomials.row(a.row_index as int));
            assert(all_zero(at_a));
            assert(at_a[a.sub_relation_index as int] == FieldElement::zero());
        },
        (Ok(_), Err(b)) => {
            let at_b = evaluation(relation, polynomials.row(b.row_index as int));
            assert(all_zero(at_b));
            assert(at_b[b.sub_relation_index as int] == FieldElement::zero());
        },
        (Ok(x), Ok(y)) => {
            assert(x == y);
        },
    }
}

/// A relation that comes to zero at every index passes, whatever the trace.
pub proof fn lemma_zero_relation_passes<R: Relation>(
    relation: &R,
    polynomials: PolynomialsView,
    size: nat,
    verdict: Result<(), ConstraintViolation>,
)
    requires
        forall|i: int|
            0 <= i < size ==> all_zero(#[trigger] evaluation(relation, polynomials.row(i))),
        is_verdict(relation, polynomials, size, verdict),
    ensures
        verdict is Ok,
{
    if let Err(violation) = verdict {
        let at = evaluation(relation, polynomials.row(violation.row_index as int));
        assert(all_zero(at));
        assert(at[violation.sub_relation_index as int] == FieldElement::zero());
    }
}

/// A relation that is not zero at `row`, and is zero at every index before
/// it, fails, and the failure names `row`.
pub proof fn lemma_violation_reported<R: Relation>(
    relation: &R,
    polynomials: PolynomialsView,
    size: nat,
    row: int,
    verdict: Result<(), ConstraintViolation>,
)
    requires
        0 <= row < size,
        !all_zero(evaluation(relation, polynomials.row(row))),
        forall|i: int|
            0 <= i < row ==> all_zero(#[trigger] evaluation(relation, polynomials.row(i))),
        is_verdict(relation, polynomials, size, verdict),
    ensures
        verdict is Err,
        verdict->Err_0.row_index == row,
{
    match verdict {
        Ok(_) => {
            assert(all_zero(evaluation(relation, polynomials.row(row))));
        },
        Err(violation) => {
            let at = evaluation(relation, polynomials.row(violation.row_index as int));
            if violation.row_index < row {
                assert(all_zero(at));
                assert(at[violation.sub_relation_index as int] == FieldElement::zero());
            } else if violation.row_index > row {
                assert(all_zero(evaluation(relation, polynomials.row(row))));
            }
        },
    }
}

/// The relation that constrains nothing passes on all polynomials.
pub proof fn lemma_unconstrained_passes(
    relation: &Unconstrained,
    polynomials: PolynomialsView,
    size: nat,
    verdict: Result<(), ConstraintViolation>,
)
    requires
        is_verdict(relation, polynomials, size, verdict),
    ensures
        verdict is Ok,
{
    lemma_zero_relation_passes(relation, polynomials, size, verdict);
}

/// Finds the first value that is not zero.
pub fn first_nonzero(values: &Vec<FieldElement>) -> (found: Option<usize>)
    ensures
        match found {
            Some(at) => is_first_nonzero(values@, at as int),
            None => all_zero(values@),
        },
{
    let mut k: usize = 0;
    while k < values.len()
        invariant
            k <= values.len(),
            forall|j: int| 0 <= j < k ==> #[trigger] values@[j] == FieldElement::zero(),
        decreases values.len() - k,
    {
        if !values[k].is_zero() {
            proof {
                values@[k as int].lemma_zero_element();
            }
            return Some(k);
        }
        proof {
            values@[k as int].lemma_zero_element();
        }
        k += 1;
    }
    None
}

/// Evaluates `relation` at every index of the subgroup, rows and padding
/// alike, each time on an accumulator of zeros, without parameters and with
/// a scaling of one. Stops at the first index at which a sub-relation is not
/// zero and reports that index with the first such sub-relation.
pub fn check_relation<R: Relation>(polynomials: &PolynomialSet, relation: &R) -> (result: Result<
    (),
    ConstraintViolation,
>)
    ensures
        is_verdict(relation, polynomials@, polynomials.size(), result),
{
    let size = polynomials.subgroup_size();
    let count = relation.subrelation_count();
    let parameters = RelationParameters::empty();
    let scaling = FieldElement::one();
    let mut i: usize = 0;
    while i < size
        invariant
            i <= size,
            size == polynomials.size(),
            count == relation.subrelations(),
            parameters@ == Seq::<FieldElement>::empty(),
            scaling == FieldElement::one(),
            forall|r: int|
                0 <= r < i ==> all_zero(#[trigger] evaluation(relation, polynomials@.row(r))),
        decreases size - i,
    {
        let row = polynomials.get_row(i);
        let mut accumulator = zero_values(count);
        relation.accumulate(&mut accumulator, &row, &parameters, &scaling);
        match first_nonzero(&accumulator) {
            Some(at) => {
                return Err(ConstraintViolation { row_index: i, sub_relation_index: at });
            },
            None => {},
        }
        i += 1;
    }
    Ok(())
}

} // verus!
