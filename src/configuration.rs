//! Settings: the command line as parsed, the configuration file's values, and
//! the environment variables that can override them.
use vstd::prelude::*;
use vstd::string::*;

use crate::commands::Command;

verus! {

/// Environment variables that can name the files used.
#[derive(Debug, PartialEq, Eq, Structural, Clone, Copy)]
pub enum EnvVar {
    SaveDir,
    WorkspacesFile,
    TestWorkspacesFile,
}

pub open spec fn env_var_name(v: EnvVar) -> Seq<char> {
    match v {
        EnvVar::SaveDir => "SAVE_DIR"@,
        EnvVar::WorkspacesFile => "WORKSPACES_FILE"@,
        EnvVar::TestWorkspacesFile => "TEST_WORKSPACES_FILE"@,
    }
}

impl EnvVar {
    /// The variable's name.
    pub fn to_string(&self) -> (r: String)
        ensures
            r@ == env_var_name(*self),
    {
        match self {
            EnvVar::SaveDir => String::from_str("SAVE_DIR"),
            EnvVar::WorkspacesFile => String::from_str("WORKSPACES_FILE"),
            EnvVar::TestWorkspacesFile => String::from_str("TEST_WORKSPACES_FILE"),
        }
    }
}

/// The command line: the command to run and its options.
#[derive(Debug, Clone)]
pub struct Config {
    /// The command to run
    pub command: Command,
    /// Name of the workspace to run the command on
    pub name: Option<String>,
    /// Path of the file to run
    pub path: Option<String>,
    pub args: Option<Vec<String>>,
}

/// Where the tool keeps its files.
#[derive(Debug, Clone)]
pub struct FileConfig {
    pub save_dir: String,
    pub workspaces_file: String,
    pub test_workspaces_file: String,
}

} // verus!
