//! The ways a benchmarking run ends without a report.

use vstd::prelude::*;

verus! {

/// Why no report was produced. Every failure is fatal: nothing is retried.
#[derive(Clone, Copy, Debug, PartialEq, Eq, Structural)]
pub enum Failure {
    /// No command was named on the command line.
    NoCommand,
    /// The command could not be started, or ended with a non-zero status.
    CommandFailed,
}

impl Failure {
    /// The status the process exits with after this failure.
    pub open spec fn exit_status(self) -> int {
        1
    }

    /// The status the process exits with after this failure.
    pub fn exit_code(&self) -> (code: i32)
        ensures
            code == self.exit_status(),
            code != 0,
    {
        1
    }
}

} // verus!
