use vstd::prelude::*;

verus! {

/// Failures of the analysis pipeline.
///
/// Configuration errors (`InvalidRate`, `InvalidDataType`, `DegenerateInput`)
/// abort the whole computation; `InsufficientData` is reported per averaging
/// factor and the affected row is degraded to zero instead of aborting.
#[derive(Debug, PartialEq, Eq)]
pub enum AllanError {
    /// The sampling rate is zero, so no tau can be derived.
    InvalidRate,
    /// The declared kind of the input series is neither phase nor frequency;
    /// carries the offending tag.
    InvalidDataType(String),
    /// A given averaging factor cannot be evaluated: the phase series is too
    /// short to form even one second difference at that factor.
    InsufficientData,
    /// The input series is empty where a nonempty one is required.
    DegenerateInput,
}

} // verus!
