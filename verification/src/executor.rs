use vstd::prelude::*;

verus! {

/// Marker for the default task executor.  The pipeline itself performs no
/// asynchronous work: it only carries the chosen executor value so that the
/// transport shell around the library can drive the accept loop with it.
/// This marker selects the shell's built-in multi-thread pool.
#[derive(Clone, Copy, Debug, PartialEq, Eq, Structural)]
pub struct BuiltInExecutor;

impl Default for BuiltInExecutor {
    /// The marker has a single value.
    fn default() -> (r: BuiltInExecutor)
        ensures
            r == BuiltInExecutor,
    {
        BuiltInExecutor
    }
}

} // verus!
