//! One run: the trace of a circuit and, once they are computed, its
//! polynomials, under the schema that both follow.
//!
//! The methods carry the names of the class that the emitters write out, and
//! do what the emitted methods do.

use vstd::prelude::*;
use crate::field::DecodeError;
use crate::polynomials::{compute_polynomials, transposed, PolynomialSet, PolynomialsView};
use crate::relation::{check_relation, is_verdict, ConstraintViolation, Relation};
use crate::schema::ColumnSchema;
use crate::subgroup::{get_circuit_subgroup_size, lemma_next_pow2, lemma_next_pow2_found, next_pow2};
use crate::trace::{all_fit, ends_on_row, read_trace, trace_of, views, whole_rows, Row, RowView};

verus! {

/// The trace and the polynomials of one run.
pub struct Circuit {
    schema: ColumnSchema,
    rows: Vec<Row>,
    polynomials: Option<PolynomialSet>,
}

impl Circuit {
    /// The schema of the run.
    pub closed spec fn schema(self) -> ColumnSchema {
        self.schema
    }

    /// The rows of the trace.
    pub closed spec fn rows(self) -> Seq<RowView> {
        views(self.rows@)
    }

    /// The polynomials, if they have been computed for the present rows.
    pub closed spec fn polynomials(self) -> Option<PolynomialSet> {
        self.polynomials
    }

    /// What the polynomials of the present rows are.
    pub open spec fn layout(self) -> PolynomialsView {
        transposed(self.rows(), self.schema(), next_pow2(self.rows().len()))
    }

    /// Every row follows the schema, the subgroup of the rows has a size that
    /// the machine can hold, and polynomials that are present are those of
    /// the rows.
    #[verifier::type_invariant]
    pub closed spec fn valid(self) -> bool {
        &&& all_fit(views(self.rows@), self.schema)
        &&& next_pow2(self.rows@.len()) <= usize::MAX
        &&& match self.polynomials {
            Some(polynomials) => {
                &&& polynomials.size() == next_pow2(self.rows@.len())
                &&& polynomials@ == transposed(
                    views(self.rows@),
                    self.schema,
                    next_pow2(self.rows@.len()),
                )
            },
            None => true,
        }
    }

    /// A run under `schema`, with an empty trace.
    pub fn new(schema: ColumnSchema) -> (out: Circuit)
        ensures
            out.schema() == schema,
            out.rows() == Seq::<RowView>::empty(),
            out.polynomials() is None,
    {
        proof {
            lemma_next_pow2_found(0, 1);
        }
        let out = Circuit { schema, rows: Vec::new(), polynomials: None };
        assert(out.rows() =~= Seq::<RowView>::empty());
        out
    }

    /// Reads the trace from the contents of the witness file and of the
    /// constants file, in place of the trace that was there. Polynomials
    /// computed before are dropped. If the witness stream does not end on a
    /// row boundary, nothing changes.
    pub fn build_circuit(&mut self, witness: &[u8], constants: &[u8]) -> (result: Result<
        (),
        DecodeError,
    >)
        ensures
            final(self).schema() == old(self).schema(),
            match result {
                Ok(_) => {
                    &&& ends_on_row(witness@.len(), old(self).schema())
                    &&& final(self).rows() == trace_of(witness@, constants@, old(self).schema())
                    &&& final(self).polynomials() is None
                },
                Err(error) => {
                    &&& !ends_on_row(witness@.len(), old(self).schema())
                    &&& error.offset == witness@.len() / 32 * 32
                    &&& error.available == witness@.len() % 32
                    &&& final(self).rows() == old(self).rows()
                    &&& final(self).polynomials() == old(self).polynomials()
                },
            },
    {
        proof {
            use_type_invariant(&*self);
        }
        match read_trace(witness, constants, &self.schema) {
            Ok(rows) => {
                proof {
                    vstd::slice::axiom_spec_len(witness);
                    lemma_rows_bound(witness@.len(), self.schema);
                }
                self.polynomials = None;
                self.rows = rows;
                Ok(())
            },
            Err(error) => Err(error),
        }
    }

    /// The rows of the trace.
    pub fn get_rows(&self) -> (rows: &Vec<Row>)
        ensures
            views(rows@) == self.rows(),
            all_fit(self.rows(), self.schema()),
    {
        proof {
            use_type_invariant(self);
        }
        &self.rows
    }

    /// The schema of the run.
    pub fn get_schema(&self) -> (schema: &ColumnSchema)
        ensures
            *schema == self.schema(),
    {
        &self.schema
    }

    /// Number of rows of the trace, before any padding.
    pub fn get_num_gates(&self) -> (n: usize)
        ensures
            n == self.rows().len(),
    {
        self.rows.len()
    }

    /// Size of the subgroup over which the trace is laid out.
    pub fn get_circuit_subgroup_size(&self) -> (size: usize)
        ensures
            size == next_pow2(self.rows().len()),
    {
        proof {
            use_type_invariant(self);
        }
        get_circuit_subgroup_size(self.rows.len())
    }

    /// Computes the polynomials of the present rows and keeps them.
    pub fn compute_polynomials(&mut self)
        ensures
            final(self).schema() == old(self).schema(),
            final(self).rows() == old(self).rows(),
            match final(self).polynomials() {
                Some(polynomials) => {
                    &&& polynomials.size() == next_pow2(old(self).rows().len())
                    &&& polynomials@ == old(self).layout()
                },
                None => false,
            },
    {
        proof {
            use_type_invariant(&*self);
        }
        let polynomials = compute_polynomials(&self.rows, &self.schema);
        self.polynomials = Some(polynomials);
    }

    /// The polynomials, if they have been computed for the present rows.
    pub fn get_polynomials(&self) -> (found: Option<&PolynomialSet>)
        ensures
            match found {
                Some(polynomials) => {
                    &&& self.polynomials() == Some(*polynomials)
                    &&& polynomials.size() == next_pow2(self.rows().len())
                    &&& polynomials@ == self.layout()
                },
                None => self.polynomials() is None,
            },
    {
        proof {
            use_type_invariant(self);
        }
        self.polynomials.as_ref()
    }

    /// Checks `relation` on the trace: computes the polynomials if they are
    /// not there yet, then evaluates the relation at every index of the
    /// subgroup and reports the first sub-relation that is not zero.
    pub fn check_circuit<R: Relation>(&mut self, relation: &R) -> (result: Result<
        (),
        ConstraintViolation,
    >)
        ensures
            final(self).schema() == old(self).schema(),
            final(self).rows() == old(self).rows(),
            final(self).polynomials() is Some,
            is_verdict(
                relation,
                old(self).layout(),
                next_pow2(old(self).rows().len()),
                result,
            ),
    {
        if self.polynomials.is_none() {
            self.compute_polynomials();
        }
        proof {
            use_type_invariant(&*self);
        }
        check_relation(self.polynomials.as_ref().unwrap(), relation)
    }
}

/// A trace read from a stream has few enough rows for its subgroup to have a
/// size that the machine can hold.
proof fn lemma_rows_bound(length: nat, schema: ColumnSchema)
    requires
        length <= usize::MAX,
    ensures
        next_pow2(whole_rows(length, schema)) <= usize::MAX,
{
    let rows = whole_rows(length, schema);
    lemma_next_pow2(rows);
    let columns = schema.witness_names().len();
    if rows == 0 {
        lemma_next_pow2_found(0, 1);
    }
    if rows >= 1 {
        assert(32 * rows <= length) by (nonlinear_arith)
            requires
                rows == length / (32 * columns),
                columns >= 1,
        ;
    }
}

} // verus!
