use vstd::prelude::*;

verus! {

/// Why a calibration or a measurement phase gave no result.
#[derive(Clone, Copy, Debug, PartialEq, Eq, Structural)]
pub enum SpeedTestError {
    /// Reads of `size` bytes failed `attempts` times in a row.
    ReadFailure { size: usize, attempts: u32 },
    /// No candidate read size completed a calibration probe.
    NoWorkingSize,
}

} // verus!
