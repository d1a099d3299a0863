//! The state that the emitters share.

use vstd::prelude::*;

verus! {

/// What is known of the circuit's output files while they are being written.
pub struct BBFiles {
    /// Directory of the relation headers, relative to the barretenberg root.
    pub rel: String,
    /// The trace source, once it has been emitted.
    pub trace_hpp: Option<String>,
}

} // verus!
