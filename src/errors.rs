use vstd::prelude::*;

verus! {

/// How an error is reported to the user.
#[derive(Debug, PartialEq, Eq, Structural, Clone, Copy)]
pub enum Severity {
    Error,
    Warning,
    Message,
}

/// The kinds of failure an operation can report.
#[derive(Debug, PartialEq, Eq, Structural, Clone, Copy)]
pub enum ErrorKind {
    /// A required value is missing or unusable.
    Validation,
    /// A workspace with the same name and directory is already stored.
    DuplicateWorkspace,
    /// The named workspace (or any workspace) is absent.
    NotFound,
    /// Reading, writing or spawning failed.
    Io,
    /// The user declined a confirmation prompt.
    CancelledByUser,
    /// A line of the workspace file does not decode.
    MalformedRecord,
}

#[derive(Debug)]
pub struct WorkspaceError {
    pub kind: ErrorKind,
    pub message: String,
    pub severity: Severity,
}

impl WorkspaceError {
    pub fn new(kind: ErrorKind, message: String, severity: Severity) -> (r: Self)
        ensures
            r.kind == kind,
            r.message == message,
            r.severity == severity,
    {
        Self { kind, message, severity }
    }
}

/// The outcome of a command as the top level sees it.
#[derive(Debug)]
pub struct CommandReturn(pub Result<(), WorkspaceError>);

impl From<WorkspaceError> for CommandReturn {
    fn from(error: WorkspaceError) -> (r: Self) {
        CommandReturn(Err(error))
    }
}

impl vstd::std_specs::convert::FromSpecImpl<WorkspaceError> for CommandReturn {
    open spec fn obeys_from_spec() -> bool {
        true
    }

    open spec fn from_spec(error: WorkspaceError) -> CommandReturn {
        CommandReturn(Err(error))
    }
}

impl From<()> for CommandReturn {
    fn from(unit: ()) -> (r: Self) {
        CommandReturn(Ok(()))
    }
}

impl vstd::std_specs::convert::FromSpecImpl<()> for CommandReturn {
    open spec fn obeys_from_spec() -> bool {
        true
    }

    open spec fn from_spec(unit: ()) -> CommandReturn {
        CommandReturn(Ok(()))
    }
}

impl CommandReturn {
    pub fn into_result(self) -> (r: Result<(), WorkspaceError>)
        ensures
            r == self.0,
    {
        self.0
    }
}

} // verus!
