//! The column schema of a circuit: which columns a row has, which of them
//! carry a shifted companion, and where the end-of-trace marker stands.
//!
//! A schema is checked once, when it is built. After that every shifted column
//! is known by the place of the column it looks ahead into, so the later
//! stages never compare names.

use vstd::prelude::*;
use crate::text::{contains, has_substring, texts};
use crate::templates::MARKER;

verus! {

/// Why a schema cannot be used.
#[derive(Clone, Copy, Debug, PartialEq, Eq, Structural)]
pub enum ConfigurationError {
    /// No fixed column is the end-of-trace marker.
    MissingMarker,
    /// The shifted column at `position` of the shifted list is neither a
    /// fixed nor a witness column.
    UnknownShiftedColumn { position: usize },
}

/// The place of a column inside a row.
#[derive(Clone, Copy, Debug, PartialEq, Eq, Structural)]
pub enum ColumnRef {
    /// The fixed column with this index.
    Fixed(usize),
    /// The witness column with this index.
    Witness(usize),
}

/// Whether a column of this name is the end-of-trace marker.
pub open spec fn is_marker_name(name: Seq<char>) -> bool {
    has_substring(name, MARKER@)
}

/// Whether `at` is the first position of `names` that holds a marker name.
pub open spec fn is_marker_position(names: Seq<Seq<char>>, at: int) -> bool {
    &&& 0 <= at < names.len()
    &&& is_marker_name(names[at])
    &&& forall|j: int| 0 <= j < at ==> !is_marker_name(#[trigger] names[j])
}

/// Whether some name in `names` is a marker's.
pub open spec fn has_marker(names: Seq<Seq<char>>) -> bool {
    exists|at: int| 0 <= at < names.len() && is_marker_name(#[trigger] names[at])
}

/// Whether `at` is the first position of `names` that holds `name`.
pub open spec fn is_first_position(names: Seq<Seq<char>>, name: Seq<char>, at: int) -> bool {
    &&& 0 <= at < names.len()
    &&& names[at] == name
    &&& forall|j: int| 0 <= j < at ==> #[trigger] names[j] != name
}

/// Whether `column` is where `name` is found: at its first position among
/// the fixed columns or, if no fixed column has the name, at its first
/// position among the witness columns.
pub open spec fn resolves_to(
    fixed: Seq<Seq<char>>,
    witness: Seq<Seq<char>>,
    name: Seq<char>,
    column: ColumnRef,
) -> bool {
    match column {
        ColumnRef::Fixed(at) => is_first_position(fixed, name, at as int),
        ColumnRef::Witness(at) => !fixed.contains(name) && is_first_position(
            witness,
            name,
            at as int,
        ),
    }
}

/// Whether `name` is the name of a fixed or of a witness column.
pub open spec fn is_known(fixed: Seq<Seq<char>>, witness: Seq<Seq<char>>, name: Seq<char>) -> bool {
    fixed.contains(name) || witness.contains(name)
}

/// Whether `position` is the first place of `shifted` whose name is unknown.
pub open spec fn is_first_unknown(
    fixed: Seq<Seq<char>>,
    witness: Seq<Seq<char>>,
    shifted: Seq<Seq<char>>,
    position: int,
) -> bool {
    &&& 0 <= position < shifted.len()
    &&& !is_known(fixed, witness, shifted[position])
    &&& forall|k: int| 0 <= k < position ==> is_known(fixed, witness, #[trigger] shifted[k])
}

/// A checked column schema.
pub struct ColumnSchema {
    fixed: Vec<String>,
    witness: Vec<String>,
    shifted: Vec<String>,
    marker: usize,
    sources: Vec<ColumnRef>,
}

/// Finds the first position of `name` in `names`.
pub fn find_name(names: &Vec<String>, name: &String) -> (found: Option<usize>)
    ensures
        match found {
            Some(at) => is_first_position(texts(names@), name@, at as int),
            None => !texts(names@).contains(name@),
        },
{
    let mut i: usize = 0;
    while i < names.len()
        invariant
            i <= names.len(),
            forall|j: int| 0 <= j < i ==> (#[trigger] texts(names@)[j]) != name@,
        decreases names.len() - i,
    {
        if names[i] == *name {
            return Some(i);
        }
        i += 1;
    }
    None
}

/// Finds the first marker column among `names`.
pub fn find_marker(names: &Vec<String>) -> (found: Option<usize>)
    ensures
        match found {
            Some(at) => is_marker_position(texts(names@), at as int),
            None => !has_marker(texts(names@)),
        },
{
    let mut i: usize = 0;
    while i < names.len()
        invariant
            i <= names.len(),
            forall|j: int| 0 <= j < i ==> !is_marker_name(#[trigger] texts(names@)[j]),
        decreases names.len() - i,
    {
        if contains(names[i].as_str(), MARKER) {
            return Some(i);
        }
        i += 1;
    }
    None
}

fn resolve(fixed: &Vec<String>, witness: &Vec<String>, name: &String) -> (found: Option<ColumnRef>)
    ensures
        match found {
            Some(column) => resolves_to(texts(fixed@), texts(witness@), name@, column),
            None => !is_known(texts(fixed@), texts(witness@), name@),
        },
{
    match find_name(fixed, name) {
        Some(at) => Some(ColumnRef::Fixed(at)),
        None => match find_name(witness, name) {
            Some(at) => Some(ColumnRef::Witness(at)),
            None => None,
        },
    }
}

impl ColumnSchema {
    /// What a schema promises once it is built: the marker is where it says,
    /// and every shifted column has its source.
    #[verifier::type_invariant]
    pub closed spec fn valid(self) -> bool {
        &&& is_marker_position(texts(self.fixed@), self.marker as int)
        &&& self.sources@.len() == self.shifted@.len()
        &&& forall|k: int|
            0 <= k < self.shifted@.len() ==> resolves_to(
                texts(self.fixed@),
                texts(self.witness@),
                #[trigger] texts(self.shifted@)[k],
                self.sources@[k],
            )
    }

    /// Names of the fixed columns, in row order.
    pub closed spec fn fixed_names(self) -> Seq<Seq<char>> {
        texts(self.fixed@)
    }

    /// Names of the witness columns, in row order.
    pub closed spec fn witness_names(self) -> Seq<Seq<char>> {
        texts(self.witness@)
    }

    /// Names of the columns that carry a shift, in the order of their shifts.
    pub closed spec fn shifted_names(self) -> Seq<Seq<char>> {
        texts(self.shifted@)
    }

    /// Index of the marker among the fixed columns.
    pub closed spec fn marker(self) -> int {
        self.marker as int
    }

    /// For each shifted column, the column whose next value it holds.
    pub closed spec fn sources(self) -> Seq<ColumnRef> {
        self.sources@
    }

    /// Whether `column` is a column of a row of this schema.
    pub open spec fn has_column(self, column: ColumnRef) -> bool {
        match column {
            ColumnRef::Fixed(at) => at < self.fixed_names().len(),
            ColumnRef::Witness(at) => at < self.witness_names().len(),
        }
    }

    /// Spells out [`Self::valid`] over the schema's parts.
    pub proof fn lemma_valid(self)
        requires
            self.valid(),
        ensures
            is_marker_position(self.fixed_names(), self.marker()),
            self.sources().len() == self.shifted_names().len(),
            forall|k: int|
                0 <= k < self.shifted_names().len() ==> resolves_to(
                    self.fixed_names(),
                    self.witness_names(),
                    #[trigger] self.shifted_names()[k],
                    self.sources()[k],
                ),
            forall|k: int|
                0 <= k < self.sources().len() ==> self.has_column(#[trigger] self.sources()[k]),
    {
        assert forall|k: int| 0 <= k < self.sources().len() implies self.has_column(
            #[trigger] self.sources()[k],
        ) by {
            assert(resolves_to(
                texts(self.fixed@),
                texts(self.witness@),
                texts(self.shifted@)[k],
                self.sources@[k],
            ));
        }
    }

    /// Checks the three name lists and builds the schema from them.
    ///
    /// The marker is looked for first; only a schema that has one is then
    /// searched for shifted columns that name no column.
    pub fn new(fixed: Vec<String>, witness: Vec<String>, shifted: Vec<String>) -> (result: Result<
        ColumnSchema,
        ConfigurationError,
    >)
        ensures
            match result {
                Ok(schema) => {
                    &&& schema.valid()
                    &&& schema.fixed_names() == texts(fixed@)
                    &&& schema.witness_names() == texts(witness@)
                    &&& schema.shifted_names() == texts(shifted@)
                    &&& has_marker(texts(fixed@))
                    &&& forall|k: int|
                        0 <= k < shifted.len() ==> is_known(
                            texts(fixed@),
                            texts(witness@),
                            #[trigger] texts(shifted@)[k],
                        )
                },
                Err(ConfigurationError::MissingMarker) => !has_marker(texts(fixed@)),
                Err(ConfigurationError::UnknownShiftedColumn { position }) => {
                    &&& has_marker(texts(fixed@))
                    &&& is_first_unknown(
                        texts(fixed@),
                        texts(witness@),
                        texts(shifted@),
                        position as int,
                    )
                },
            },
    {
        let marker = match find_marker(&fixed) {
            Some(at) => at,
            None => {
                return Err(ConfigurationError::MissingMarker);
            },
        };
        let mut sources: Vec<ColumnRef> = Vec::new();
        let mut k: usize = 0;
        while k < shifted.len()
            invariant
                k <= shifted.len(),
                sources.len() == k,
                is_marker_position(texts(fixed@), marker as int),
                forall|i: int|
                    0 <= i < k ==> resolves_to(
                        texts(fixed@),
                        texts(witness@),
                        #[trigger] texts(shifted@)[i],
                        sources@[i],
                    ),
                forall|i: int|
                    0 <= i < k ==> is_known(
                        texts(fixed@),
                        texts(witness@),
                        #[trigger] texts(shifted@)[i],
                    ),
            decreases shifted.len() - k,
        {
            match resolve(&fixed, &witness, &shifted[k]) {
                Some(column) => {
                    proof {
                        let name = texts(shifted@)[k as int];
                        match column {
                            ColumnRef::Fixed(at) => {
                                assert(texts(fixed@)[at as int] == name);
                            },
                            ColumnRef::Witness(at) => {
                                assert(texts(witness@)[at as int] == name);
                            },
                        }
                    }
                    sources.push(column);
                },
                None => {
                    return Err(ConfigurationError::UnknownShiftedColumn { position: k });
                },
            }
            k += 1;
        }
        Ok(ColumnSchema { fixed, witness, shifted, marker, sources })
    }

    /// Number of fixed columns.
    pub fn fixed_count(&self) -> (n: usize)
        ensures
            n == self.fixed_names().len(),
    {
        self.fixed.len()
    }

    /// Number of witness columns.
    pub fn witness_count(&self) -> (n: usize)
        ensures
            n == self.witness_names().len(),
    {
        self.witness.len()
    }

    /// Number of shifted columns.
    pub fn shifted_count(&self) -> (n: usize)
        ensures
            n == self.shifted_names().len(),
            n == self.sources().len(),
    {
        proof {
            use_type_invariant(self);
        }
        self.shifted.len()
    }

    /// Index of the marker among the fixed columns.
    pub fn marker_column(&self) -> (at: usize)
        ensures
            at == self.marker(),
            is_marker_position(self.fixed_names(), at as int),
    {
        proof {
            use_type_invariant(self);
        }
        self.marker
    }

    /// The column whose next value the shifted column `k` holds.
    pub fn shift_source(&self, k: usize) -> (column: ColumnRef)
        requires
            k < self.shifted_names().len(),
        ensures
            column == self.sources()[k as int],
            self.has_column(column),
            resolves_to(
                self.fixed_names(),
                self.witness_names(),
                self.shifted_names()[k as int],
                column,
            ),
    {
        proof {
            use_type_invariant(self);
            self.lemma_valid();
        }
        self.sources[k]
    }

    /// Where a column of this name stands in a row, if the schema has one.
    pub fn column_of(&self, name: &String) -> (found: Option<ColumnRef>)
        ensures
            match found {
                Some(column) => resolves_to(
                    self.fixed_names(),
                    self.witness_names(),
                    name@,
                    column,
                ) && self.has_column(column),
                None => !is_known(self.fixed_names(), self.witness_names(), name@),
            },
    {
        resolve(&self.fixed, &self.witness, name)
    }

    /// Which shift belongs to the column of this name, if it carries one.
    pub fn shift_of(&self, name: &String) -> (found: Option<usize>)
        ensures
            match found {
                Some(k) => is_first_position(self.shifted_names(), name@, k as int),
                None => !self.shifted_names().contains(name@),
            },
    {
        find_name(&self.shifted, name)
    }
}

} // verus!
