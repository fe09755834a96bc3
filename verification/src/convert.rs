use vstd::prelude::*;

verus! {

use crate::errors::AllanError;

/// The declared kind of an input series.
#[derive(Clone, Copy, Debug, PartialEq, Eq, Structural)]
pub enum DataType {
    /// Samples are phase measurements (units of time).
    Phase,
    /// Samples are frequency measurements (deviation from nominal).
    Freq,
}

/// Outcome of normalizing an input series toward phase data.
///
/// Sample values are carried as IEEE 754 binary64 bit patterns, which this
/// crate treats as opaque.
#[derive(Debug)]
pub enum PhaseSource {
    /// The series already is phase data and is returned unchanged.
    Ready(Vec<u64>),
    /// The series is frequency data: the caller must still remove the mean
    /// and integrate it (real-valued work this crate does not perform).
    NeedsIntegration(Vec<u64>),
}

/// Maps a data-type tag to its kind: `"phase"` and `"freq"` are the only
/// recognized tags; any other tag is rejected, carried inside the error.
pub fn parse_data_type(data_type: &str) -> (r: Result<DataType, AllanError>)
    ensures
        data_type@ == "phase"@ ==> r == Ok::<DataType, AllanError>(DataType::Phase),
        data_type@ == "freq"@ ==> r == Ok::<DataType, AllanError>(DataType::Freq),
        data_type@ != "phase"@ && data_type@ != "freq"@ ==> (r matches Err(
            AllanError::InvalidDataType(t),
        ) && t@ == data_type@),
{
    proof {
        reveal_strlit("phase");
        reveal_strlit("freq");
        assert("phase"@.len() == 5);
        assert("freq"@.len() == 4);
    }
    let owned: String = data_type.to_owned();
    let phase_tag: String = "phase".to_owned();
    let freq_tag: String = "freq".to_owned();
    if owned == phase_tag {
        Ok(DataType::Phase)
    } else if owned == freq_tag {
        Ok(DataType::Freq)
    } else {
        Err(AllanError::InvalidDataType(owned))
    }
}

/// Dispatches an input series on its declared kind, before any numeric work:
/// phase data passes through unchanged (the converter is the identity on it);
/// nonempty frequency data is handed back for integration; empty frequency
/// data is degenerate (its mean is undefined); an unknown tag is rejected.
pub fn input_to_phase(data: Vec<u64>, data_type: &str) -> (r: Result<PhaseSource, AllanError>)
    ensures
        data_type@ == "phase"@ ==> (r matches Ok(PhaseSource::Ready(v)) && v@ == data@),
        data_type@ == "freq"@ && data@.len() > 0 ==> (r matches Ok(
            PhaseSource::NeedsIntegration(v),
        ) && v@ == data@),
        data_type@ == "freq"@ && data@.len() == 0 ==> r == Err::<PhaseSource, AllanError>(
            AllanError::DegenerateInput,
        ),
        data_type@ != "phase"@ && data_type@ != "freq"@ ==> (r matches Err(
            AllanError::InvalidDataType(t),
        ) && t@ == data_type@),
{
    match parse_data_type(data_type) {
        Err(e) => Err(e),
        Ok(DataType::Phase) => Ok(PhaseSource::Ready(data)),
        Ok(DataType::Freq) => {
            if data.len() == 0 {
                Err(AllanError::DegenerateInput)
            } else {
                Ok(PhaseSource::NeedsIntegration(data))
            }
        },
    }
}

} // verus!
