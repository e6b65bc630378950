//! The options of the flag-listing tool, which prints the compiler flags of
//! every project a project needs.
use vstd::prelude::*;

verus! {

/// The options of a run.
pub struct Cli {
    /// The solution file.
    pub sln_path: String,
    /// The project whose dependencies are listed.
    pub project_name: String,
    /// The solution configuration (`Configuration|Platform`).
    pub configuration_platform: String,
}

} // verus!
