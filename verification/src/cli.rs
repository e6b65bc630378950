//! The options of the build-graph generator (the application reads them
//! from the command line).
use vstd::prelude::*;

verus! {

/// What to generate.
#[derive(Clone, Copy, PartialEq, Eq, Structural, Debug)]
pub enum Target {
    /// The ninja build graph and its response files.
    Ninja,
    /// `compile_commands.json` for clangd.
    Clangd,
}

/// The options of a run.
pub struct Cli {
    /// The solution file.
    pub sln_path: String,
    /// The project to build.
    pub project_name: String,
    /// The solution configuration to build it with (`Configuration|Platform`).
    pub configuration_platform: String,
    /// Where the generated files go.
    pub output_dir: String,
    /// Prints the flags of every step.
    pub verbose: bool,
    /// The tools run under Wine: paths are computed from `Z:` and lowered
    /// back to host paths where the host reads or writes them.
    pub wine: bool,
    /// What to generate.
    pub target: Target,
    /// Extra system include directories (for the compilation database).
    pub imsvc: Vec<String>,
    /// Extra arguments for every entry of the compilation database.
    pub extra_arg: Vec<String>,
}

} // verus!
