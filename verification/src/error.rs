//! The pipeline's error taxonomy: a fatal input-format violation names
//! the offending log file.  An update whose height has no record, or a
//! missing record during the report pass, is not an error.

use vstd::prelude::*;

verus! {

/// A fatal ingestion failure: a line matched a marker but one of its
/// mandatory fields could not be parsed.
#[derive(Clone, Copy, Debug, PartialEq, Eq, Structural)]
pub enum EtlError {
    /// The consensus log violated its format contract.
    ConsensusFormat,
    /// The application log violated its format contract.
    ApplicationFormat,
}

} // verus!
