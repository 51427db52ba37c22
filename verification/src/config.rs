//! Settings of a proving run.

use vstd::prelude::*;

verus! {

/// How a block is proved: the size of a transaction batch, the two-power
/// cap on one segment's cycle count, whether failing inputs are saved for
/// inspection, and whether to only simulate witness generation.
#[derive(Clone, Copy, Debug)]
pub struct ProverConfig {
    pub batch_size: usize,
    pub max_cpu_len_log: usize,
    pub save_inputs_on_error: bool,
    pub test_only: bool,
}

impl ProverConfig {
    /// A configuration with every field given.
    pub fn new(
        batch_size: usize,
        max_cpu_len_log: usize,
        save_inputs_on_error: bool,
        test_only: bool,
    ) -> (r: ProverConfig)
        ensures
            r.batch_size == batch_size,
            r.max_cpu_len_log == max_cpu_len_log,
            r.save_inputs_on_error == save_inputs_on_error,
            r.test_only == test_only,
    {
        ProverConfig { batch_size, max_cpu_len_log, save_inputs_on_error, test_only }
    }
}

} // verus!
