//! Artefacts that are written to a file.
use vstd::prelude::*;

verus! {

/// The file that an exported artefact goes to.
#[derive(Debug)]
pub struct ArtifactSink {
    pub file_path: String,
}

} // verus!
