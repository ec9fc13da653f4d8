//! Global configuration and the external-process command as plain data.

use vstd::prelude::*;

verus! {

/// How a mismatch between actual output and a stored baseline is
/// resolved.
#[derive(Clone, Copy, Debug, PartialEq, Eq, Structural)]
pub enum OutputConflictHandling {
    /// Compare against the stored baseline and report a mismatch.
    Error,
    /// Overwrite the baseline with the actual output; delete the file
    /// when the output is empty.
    Bless,
    /// No baseline check.
    Ignore,
}

/// Which captured stream a baseline or normalization applies to.
#[derive(Clone, Copy, Debug, PartialEq, Eq, Structural)]
pub enum OutputKind {
    Stderr,
    Stdout,
    /// Machine-applied-suggestion snapshots; never normalized.
    Fixed,
}

/// What the embedding program must do to the baseline file after a
/// reconciliation step.
#[derive(Debug)]
pub enum BaselineAction {
    /// Write these bytes to the baseline path.
    Write(Vec<u8>),
    /// Remove the baseline file if it exists.
    Delete,
    /// Leave the baseline file alone.
    Keep,
}

/// An external-process invocation as plain data: the embedding program
/// spawns it. Environment entries are applied in order; a later entry
/// for the same name overwrites an earlier one.
#[derive(Debug)]
pub struct CommandData {
    pub program: String,
    pub args: Vec<String>,
    pub envs: Vec<(String, String)>,
}

/// The configuration shared by all tests.
#[derive(Debug)]
pub struct Config {
    /// The program to invoke.
    pub program: String,
    /// Arguments that every invocation starts with.
    pub program_args: Vec<String>,
    /// Where build artifacts go.
    pub out_dir: String,
    /// The target to compile for, when set.
    pub target: Option<String>,
    /// The host this harness runs on.
    pub host: String,
    /// Pointer width of the host, as text, for per-bitwidth baselines.
    pub pointer_width: String,
    /// The command a failure message tells the user to re-run.
    pub bless_command: Option<String>,
    /// The baseline conflict policy.
    pub output_conflict_handling: OutputConflictHandling,
}

/// Whether an explicit `--target` flag must be passed: only when a
/// target is configured and differs from the host.
pub open spec fn needs_target_flag(target: Option<String>, host: Seq<char>) -> bool {
    match target {
        Some(t) => t@ != host,
        None => false,
    }
}

} // verus!
