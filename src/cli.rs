use crate::connector::Connector;
use crate::rate::NANOS_PER_SEC;
use vstd::prelude::*;

verus! {

/// Seconds each read size is measured unless another duration is given.
pub const DEFAULT_DURATION_SECS: u64 = 5;

/// The options of a command-line run.
#[derive(Clone, Debug)]
pub struct Cli {
    /// Backend to read through.
    pub connector: Connector,
    /// Device name, used only with the PCILeech backend.
    pub pcileech_device: String,
    /// Seconds each selected read size is measured.
    pub duration: u64,
}

impl Cli {
    /// The measuring duration in nanoseconds, capped at `u64::MAX`.
    pub fn duration_ns(&self) -> (r: u64)
        ensures
            r == if self.duration * NANOS_PER_SEC > u64::MAX {
                u64::MAX as int
            } else {
                self.duration * NANOS_PER_SEC
            },
    {
        if self.duration > u64::MAX / NANOS_PER_SEC {
            proof {
                assert(self.duration * NANOS_PER_SEC > u64::MAX) by (nonlinear_arith)
                    requires
                        self.duration > u64::MAX / NANOS_PER_SEC,
                ;
            }
            u64::MAX
        } else {
            proof {
                assert(self.duration * NANOS_PER_SEC <= u64::MAX) by (nonlinear_arith)
                    requires
                        self.duration <= u64::MAX / NANOS_PER_SEC,
                ;
            }
            self.duration * NANOS_PER_SEC
        }
    }
}

impl Default for Cli {
    /// The PCILeech backend on device `FPGA`, five seconds per size.
    fn default() -> (r: Cli)
        ensures
            r.connector == Connector::Pcileech,
            r.pcileech_device@ == seq!['F', 'P', 'G', 'A'],
            r.duration == DEFAULT_DURATION_SECS,
    {
        proof {
            reveal_strlit("FPGA");
        }
        let device = String::from_str("FPGA");
        assert(device@ =~= seq!['F', 'P', 'G', 'A']);
        Cli {
            connector: Connector::Pcileech,
            pcileech_device: device,
            duration: DEFAULT_DURATION_SECS,
        }
    }
}

} // verus!
