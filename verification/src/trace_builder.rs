//! Emits the C++ trace builder of a circuit: the source that reads the two
//! binary column files into rows, and the header of the class that turns the
//! rows into polynomials and checks the circuit's relation on them.
//!
//! Every emitter is specified by the exact text it returns. The text is put
//! together from the constants of [`crate::templates`] and the names of the
//! schema; nothing else enters it.

use vstd::prelude::*;
use vstd::string::StringExecFns;
use crate::circuit_builder::BBFiles;
use crate::schema::{find_marker, has_marker, is_marker_name, is_marker_position};
use crate::templates;
use crate::text::{
    contains,
    decimal,
    decimal_text,
    join_lines,
    joined,
    replaced,
    texts,
    underscore_dots,
    NEWLINE,
};

verus! {

/// Each name between `head` and `tail`.
pub open spec fn wrapped(names: Seq<Seq<char>>, head: Seq<char>, tail: Seq<char>) -> Seq<
    Seq<char>,
> {
    names.map_values(|name: Seq<char>| head + name + tail)
}

/// For each name the statement `head name middle name tail`.
pub open spec fn wrapped_twice(
    names: Seq<Seq<char>>,
    head: Seq<char>,
    middle: Seq<char>,
    tail: Seq<char>,
) -> Seq<Seq<char>> {
    names.map_values(|name: Seq<char>| head + name + middle + name + tail)
}

/// Each name with its dots turned into underscores.
pub open spec fn identifiers(names: Seq<Seq<char>>) -> Seq<Seq<char>> {
    names.map_values(|name: Seq<char>| replaced(name, '.', '_'))
}

/// The names that are not the marker's, in order.
pub open spec fn without_marker(names: Seq<Seq<char>>) -> Seq<Seq<char>> {
    names.filter(|name: Seq<char>| !is_marker_name(name))
}

/// The first marker name in `names`.
pub open spec fn first_marker(names: Seq<Seq<char>>) -> Seq<char> {
    names[choose|at: int| is_marker_position(names, at)]
}

/// The include block of the trace source.
pub open spec fn cpp_includes_text(relation_path: Seq<char>, name: Seq<char>) -> Seq<char> {
    NEWLINE@
        + templates::INCLUDES_BOILERPLATE@
        + templates::INCLUDE_RELATION@
        + relation_path
        + templates::PATH_SEPARATOR@
        + name
        + templates::INCLUDE_RELATION_END@
        + name
        + templates::INCLUDE_ARITH_END@
}

/// The include block of the builder header.
pub open spec fn hpp_includes_text(name: Seq<char>) -> Seq<char> {
    templates::HEADER_INCLUDES@
        + name
        + templates::HEADER_INCLUDE_FLAVOR@
        + name
        + templates::HEADER_INCLUDE_ARITH@
        + name
        + templates::HEADER_INCLUDE_RELATION@
        + name
        + templates::HEADER_INCLUDES_END@
}

/// The loop that gives every row but the last the next row's value of each
/// column in `shifted`.
pub open spec fn shifts_text(shifted: Seq<Seq<char>>) -> Seq<char> {
    templates::SHIFT_LOOP_OPEN@
        + joined(
            wrapped_twice(
                shifted,
                templates::SHIFT_TARGET@,
                templates::SHIFT_SOURCE@,
                templates::STATEMENT_END@,
            ),
        )
        + templates::SHIFT_LOOP_CLOSE@
}

/// The statements that append a closing row: one in the first marker column,
/// zero in every column that is no marker.
pub open spec fn empty_row_text(all_cols: Seq<Seq<char>>) -> Seq<char> {
    templates::EMPTY_ROW_OPEN@
        + first_marker(all_cols)
        + templates::EMPTY_ROW_ONE@
        + joined(
            wrapped(
                without_marker(all_cols),
                templates::EMPTY_ROW_FIELD@,
                templates::EMPTY_ROW_ZERO@,
            ),
        )
        + templates::EMPTY_ROW_PUSH@
}

/// The alias under which the trace source knows the row type of the circuit.
pub open spec fn row_alias_text(name: Seq<char>) -> Seq<char> {
    templates::ROW_ALIAS@ + name + templates::ROW_ALIAS_END@
}

/// The trace source: the field reader and the function that reads both files
/// into rows, drops the trailing row and fills the shifts.
pub open spec fn trace_source_text(
    relation_path: Seq<char>,
    name: Seq<char>,
    fixed: Seq<Seq<char>>,
    witness: Seq<Seq<char>>,
    to_be_shifted: Seq<Seq<char>>,
) -> Seq<char> {
    templates::SOURCE_HEAD@
        + cpp_includes_text(relation_path, name)
        + templates::SOURCE_NAMESPACE@
        + row_alias_text(name)
        + templates::SOURCE_READER@
        + joined(
            wrapped(identifiers(fixed), templates::CURRENT_ROW_FIELD@, templates::READ_CONSTANT@),
        )
        + templates::SOURCE_BETWEEN_READS@
        + joined(
            wrapped(
                identifiers(witness),
                templates::CURRENT_ROW_FIELD_INDENTED@,
                templates::READ_COMMITTED@,
            ),
        )
        + templates::SOURCE_AFTER_READS@
        + shifts_text(to_be_shifted)
        + templates::SOURCE_TAIL@
}

/// The builder header: the class with its column counts, `build_circuit`,
/// `compute_polynomials`, `check_circuit` and the two size getters. The first
/// count is that of all columns with the shifted ones, the second that of all
/// columns without them.
pub open spec fn trace_header_text(
    name: Seq<char>,
    all_cols: Seq<Seq<char>>,
    to_be_shifted: Seq<Seq<char>>,
) -> Seq<char> {
    NEWLINE@
        + hpp_includes_text(name)
        + templates::HEADER_CLASS@
        + name
        + templates::HEADER_FF@
        + name
        + templates::HEADER_ROW@
        + name
        + templates::HEADER_POLYNOMIAL@
        + name
        + templates::HEADER_ALL_POLYNOMIALS@
        + name
        + templates::HEADER_NUM_COLUMNS@
        + decimal_text(all_cols.len() + to_be_shifted.len())
        + templates::HEADER_NUM_POLYS@
        + decimal_text(all_cols.len())
        + templates::HEADER_COMPUTE_POLYNOMIALS@
        + joined(
            wrapped_twice(
                all_cols,
                templates::POLY_TARGET@,
                templates::POLY_FROM_ROW@,
                templates::STATEMENT_END@,
            ),
        )
        + templates::HEADER_AFTER_COPIES@
        + joined(
            wrapped_twice(
                to_be_shifted,
                templates::POLY_TARGET@,
                templates::POLY_SHIFT_FROM@,
                templates::POLY_SHIFT_END@,
            ),
        )
        + templates::HEADER_CHECK_CIRCUIT@
        + name
        + templates::HEADER_RELATION_TYPE@
        + name
        + templates::HEADER_RELATION_LABEL@
        + name
        + templates::HEADER_TAIL@
}

/// An emitter of trace builders.
pub trait TraceBuilder {
    /// Directory of the relation headers that the trace source includes.
    spec fn relation_path(&self) -> Seq<char>;

    /// The trace source that was emitted last, if any.
    spec fn emitted_source(&self) -> Option<Seq<char>>;

    /// Emits the trace source for the circuit `name` and keeps a copy of it.
    fn create_trace_builder_cpp(
        &mut self,
        name: &str,
        fixed: &Vec<String>,
        witness: &Vec<String>,
        to_be_shifted: &Vec<String>,
    ) -> (out: String)
        ensures
            out@ == trace_source_text(
                old(self).relation_path(),
                name@,
                texts(fixed@),
                texts(witness@),
                texts(to_be_shifted@),
            ),
            final(self).relation_path() == old(self).relation_path(),
            final(self).emitted_source() == Some(out@),
    ;

    /// Emits the builder header for the circuit `name`; the emitter is unchanged.
    fn create_trace_builder_hpp(
        &mut self,
        name: &str,
        fixed: &Vec<String>,
        shifted: &Vec<String>,
    ) -> (out: String)
        ensures
            out@ == trace_header_text(name@, texts(fixed@), texts(shifted@)),
            final(self).relation_path() == old(self).relation_path(),
            final(self).emitted_source() == old(self).emitted_source(),
    ;
}

fn wrap_each(names: &Vec<String>, head: &str, tail: &str) -> (lines: Vec<String>)
    ensures
        texts(lines@) == wrapped(texts(names@), head@, tail@),
{
    let mut lines: Vec<String> = Vec::new();
    let mut i: usize = 0;
    while i < names.len()
        invariant
            i <= names.len(),
            lines.len() == i,
            forall|j: int| 0 <= j < i ==> (#[trigger] lines@[j])@ == head@ + names@[j]@ + tail@,
        decreases names.len() - i,
    {
        let mut line = String::from_str(head);
        line.append(names[i].as_str());
        line.append(tail);
        lines.push(line);
        i += 1;
    }
    assert(texts(lines@) =~= wrapped(texts(names@), head@, tail@));
    lines
}

fn wrap_each_twice(names: &Vec<String>, head: &str, middle: &str, tail: &str) -> (lines: Vec<
    String,
>)
    ensures
        texts(lines@) == wrapped_twice(texts(names@), head@, middle@, tail@),
{
    let mut lines: Vec<String> = Vec::new();
    let mut i: usize = 0;
    while i < names.len()
        invariant
            i <= names.len(),
            lines.len() == i,
            forall|j: int|
                0 <= j < i ==> (#[trigger] lines@[j])@ == head@ + names@[j]@ + middle@
                    + names@[j]@ + tail@,
        decreases names.len() - i,
    {
        let mut line = String::from_str(head);
        line.append(names[i].as_str());
        line.append(middle);
        line.append(names[i].as_str());
        line.append(tail);
        lines.push(line);
        i += 1;
    }
    assert(texts(lines@) =~= wrapped_twice(texts(names@), head@, middle@, tail@));
    lines
}

fn identifiers_of(names: &Vec<String>) -> (out: Vec<String>)
    ensures
        texts(out@) == identifiers(texts(names@)),
{
    let mut out: Vec<String> = Vec::new();
    let mut i: usize = 0;
    while i < names.len()
        invariant
            i <= names.len(),
            out.len() == i,
            forall|j: int| 0 <= j < i ==> (#[trigger] out@[j])@ == replaced(names@[j]@, '.', '_'),
        decreases names.len() - i,
    {
        out.push(underscore_dots(names[i].as_str()));
        i += 1;
    }
    assert(texts(out@) =~= identifiers(texts(names@)));
    out
}

/// Emits the include block of the trace source for the circuit `name`, whose
/// relation header lies under `relation_path`.
pub fn trace_cpp_includes(relation_path: &str, name: &str) -> (out: String)
    ensures
        out@ == cpp_includes_text(relation_path@, name@),
{
    let mut out = String::from_str(NEWLINE);
    out.append(templates::INCLUDES_BOILERPLATE);
    out.append(templates::INCLUDE_RELATION);
    out.append(relation_path);
    out.append(templates::PATH_SEPARATOR);
    out.append(name);
    out.append(templates::INCLUDE_RELATION_END);
    out.append(name);
    out.append(templates::INCLUDE_ARITH_END);
    out
}

/// Emits the include block of the builder header for the circuit `name`.
pub fn trace_hpp_includes(name: &str) -> (out: String)
    ensures
        out@ == hpp_includes_text(name@),
{
    let mut out = String::from_str(templates::HEADER_INCLUDES);
    out.append(name);
    out.append(templates::HEADER_INCLUDE_FLAVOR);
    out.append(name);
    out.append(templates::HEADER_INCLUDE_ARITH);
    out.append(name);
    out.append(templates::HEADER_INCLUDE_RELATION);
    out.append(name);
    out.append(templates::HEADER_INCLUDES_END);
    out
}

/// Emits the loop that fills the shift of every column named in `fixed`.
pub fn build_shifts(fixed: &Vec<String>) -> (out: String)
    ensures
        out@ == shifts_text(texts(fixed@)),
{
    let shift_assign = wrap_each_twice(
        fixed,
        templates::SHIFT_TARGET,
        templates::SHIFT_SOURCE,
        templates::STATEMENT_END,
    );
    let mut out = String::from_str(templates::SHIFT_LOOP_OPEN);
    out.append(join_lines(&shift_assign).as_str());
    out.append(templates::SHIFT_LOOP_CLOSE);
    out
}

fn names_without_marker(names: &Vec<String>) -> (out: Vec<String>)
    ensures
        texts(out@) == without_marker(texts(names@)),
{
    let ghost keep = |name: Seq<char>| !is_marker_name(name);
    let mut out: Vec<String> = Vec::new();
    let mut i: usize = 0;
    proof {
        reveal(Seq::filter);
        assert(texts(names@).take(0).filter(keep) =~= texts(out@));
    }
    while i < names.len()
        invariant
            i <= names.len(),
            keep == |name: Seq<char>| !is_marker_name(name),
            texts(out@) == texts(names@).take(i as int).filter(keep),
        decreases names.len() - i,
    {
        let ghost before = texts(out@);
        proof {
            reveal(Seq::filter);
            assert(texts(names@).take(i + 1).drop_last() == texts(names@).take(i as int));
        }
        if !contains(names[i].as_str(), templates::MARKER) {
            out.push(names[i].clone());
            assert(texts(out@) =~= before.push(names@[i as int]@));
        }
        i += 1;
    }
    assert(texts(names@).take(names.len() as int) == texts(names@));
    out
}

/// Emits the statements that append a closing row to the trace: one in the
/// first marker column of `all_cols`, zero in every column that is no marker.
///
/// The marker is what lets a relation switch its constraints off on that row,
/// so a schema without one cannot be served.
pub fn build_empty_row(all_cols: &Vec<String>) -> (out: String)
    requires
        has_marker(texts(all_cols@)),
    ensures
        out@ == empty_row_text(texts(all_cols@)),
{
    let found = find_marker(all_cols);
    let at = found.unwrap();
    let initialize = join_lines(
        &wrap_each(
            &names_without_marker(all_cols),
            templates::EMPTY_ROW_FIELD,
            templates::EMPTY_ROW_ZERO,
        ),
    );
    let mut out = String::from_str(templates::EMPTY_ROW_OPEN);
    out.append(all_cols[at].as_str());
    out.append(templates::EMPTY_ROW_ONE);
    out.append(initialize.as_str());
    out.append(templates::EMPTY_ROW_PUSH);
    out
}

impl TraceBuilder for BBFiles {
    open spec fn relation_path(&self) -> Seq<char> {
        self.rel@
    }

    open spec fn emitted_source(&self) -> Option<Seq<char>> {
        match self.trace_hpp {
            Some(source) => Some(source@),
            None => None,
        }
    }

    fn create_trace_builder_cpp(
        &mut self,
        name: &str,
        fixed: &Vec<String>,
        witness: &Vec<String>,
        to_be_shifted: &Vec<String>,
    ) -> (out: String) {
        let includes = trace_cpp_includes(self.rel.as_str(), name);
        let mut row_import = String::from_str(templates::ROW_ALIAS);
        row_import.append(name);
        row_import.append(templates::ROW_ALIAS_END);
        let fixed_rows = join_lines(
            &wrap_each(
                &identifiers_of(fixed),
                templates::CURRENT_ROW_FIELD,
                templates::READ_CONSTANT,
            ),
        );
        let wit_rows = join_lines(
            &wrap_each(
                &identifiers_of(witness),
                templates::CURRENT_ROW_FIELD_INDENTED,
                templates::READ_COMMITTED,
            ),
        );
        let construct_shifts = build_shifts(to_be_shifted);

        let mut out = String::from_str(templates::SOURCE_HEAD);
        out.append(includes.as_str());
        out.append(templates::SOURCE_NAMESPACE);
        out.append(row_import.as_str());
        out.append(templates::SOURCE_READER);
        out.append(fixed_rows.as_str());
        out.append(templates::SOURCE_BETWEEN_READS);
        out.append(wit_rows.as_str());
        out.append(templates::SOURCE_AFTER_READS);
        out.append(construct_shifts.as_str());
        out.append(templates::SOURCE_TAIL);

        self.trace_hpp = Some(out.clone());
        out
    }

    fn create_trace_builder_hpp(
        &mut self,
        name: &str,
        all_cols: &Vec<String>,
        to_be_shifted: &Vec<String>,
    ) -> (out: String) {
        let includes = trace_hpp_includes(name);
        let num_polys: u128 = all_cols.len() as u128;
        let num_cols: u128 = num_polys + to_be_shifted.len() as u128;
        let compute_polys_assignment = join_lines(
            &wrap_each_twice(
                all_cols,
                templates::POLY_TARGET,
                templates::POLY_FROM_ROW,
                templates::STATEMENT_END,
            ),
        );
        let all_poly_shifts = join_lines(
            &wrap_each_twice(
                to_be_shifted,
                templates::POLY_TARGET,
                templates::POLY_SHIFT_FROM,
                templates::POLY_SHIFT_END,
            ),
        );

        let mut out = String::from_str(NEWLINE);
        out.append(includes.as_str());
        out.append(templates::HEADER_CLASS);
        out.append(name);
        out.append(templates::HEADER_FF);
        out.append(name);
        out.append(templates::HEADER_ROW);
        out.append(name);
        out.append(templates::HEADER_POLYNOMIAL);
        out.append(name);
        out.append(templates::HEADER_ALL_POLYNOMIALS);
        out.append(name);
        out.append(templates::HEADER_NUM_COLUMNS);
        out.append(decimal(num_cols).as_str());
        out.append(templates::HEADER_NUM_POLYS);
        out.append(decimal(num_polys).as_str());
        out.append(templates::HEADER_COMPUTE_POLYNOMIALS);
        out.append(compute_polys_assignment.as_str());
        out.append(templates::HEADER_AFTER_COPIES);
        out.append(all_poly_shifts.as_str());
        out.append(templates::HEADER_CHECK_CIRCUIT);
        out.append(name);
        out.append(templates::HEADER_RELATION_TYPE);
        out.append(name);
        out.append(templates::HEADER_RELATION_LABEL);
        out.append(name);
        out.append(templates::HEADER_TAIL);
        out
    }
}

} // verus!
