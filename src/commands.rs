//! The commands a user can give, dispatched in one place.
use vstd::prelude::*;

use crate::errors::WorkspaceError;
use crate::session::InitSession;
use crate::shell::Platform;
use crate::workspaces::{record_views, FileUpdate, RecordView, Workspaces};

pub mod command_dict;

pub use command_dict::{confirmation, delete, help, init, list, modify};
use command_dict::{add_post, delete_post, init_post, list_post, modify_post, opt_view, requested_record};

verus! {

#[derive(Debug, Clone)]
pub enum Command {
    /// Initialize a workspace
    Init { name: String },
    /// Adds a workspace to the list
    Add {
        name: String,
        path: String,
        shell: Option<String>,
        text: Option<String>,
        command_path: Option<String>,
    },
    /// List all workspaces
    List,
    /// Delete a workspace or clear all workspaces
    Delete { name: Option<String>, confirm: bool },
    /// Modifies a workspace, changing its attributes
    Modify {
        name: String,
        path: String,
        shell: Option<String>,
        text: Option<String>,
        command_path: Option<String>,
    },
    /// Same as init
    Run { name: String },
}

/// What the caller must carry out for a command that succeeded.
#[derive(Debug)]
pub enum Effect {
    /// Change the workspace file.
    Write(FileUpdate),
    /// Show these lines.
    Print(Vec<String>),
    /// Drive this init run.
    Launch(InitSession),
    /// Ask this question; on `y`, give the command again confirmed.
    Confirm(String),
}

/// What `command` does to the records and returns.
pub open spec fn command_post(
    before: Seq<RecordView>,
    after: Seq<RecordView>,
    command: Command,
    platform: Platform,
    r: Result<Effect, WorkspaceError>,
) -> bool {
    match command {
        Command::Init { name } => init_post(before, after, name@, platform, r),
        Command::Run { name } => init_post(before, after, name@, platform, r),
        Command::Add { name, path, shell, text, command_path } => add_post(
            before,
            after,
            requested_record(
                name@,
                path@,
                opt_view(shell),
                opt_view(text),
                opt_view(command_path),
                platform,
            ),
            r,
        ),
        Command::List => list_post(before, after, r),
        Command::Delete { name, confirm } => delete_post(before, after, opt_view(name), confirm, r),
        Command::Modify { name, path, shell, text, command_path } => modify_post(
            before,
            after,
            name@,
            requested_record(
                name@,
                path@,
                opt_view(shell),
                opt_view(text),
                opt_view(command_path),
                platform,
            ),
            r,
        ),
    }
}

impl Command {
    pub fn run(workspaces: &mut Workspaces, command: Command, platform: Platform) -> (r: Result<
        Effect,
        WorkspaceError,
    >)
        ensures
            command_post(
                record_views(old(workspaces).workspaces@),
                record_views(final(workspaces).workspaces@),
                command,
                platform,
                r,
            ),
            final(workspaces).workspace_file == old(workspaces).workspace_file,
    {
        match command {
            Command::Init { name } => init(workspaces, name, platform),
            Command::Run { name } => init(workspaces, name, platform),
            Command::Add { name, path, shell, text, command_path } => command_dict::add(
                workspaces,
                name,
                path,
                shell,
                text,
                command_path,
                platform,
            ),
            Command::List => list(workspaces),
            Command::Delete { name, confirm } => delete(workspaces, name, confirm),
            Command::Modify { name, path, shell, text, command_path } => modify(
                workspaces,
                name,
                path,
                shell,
                text,
                command_path,
                platform,
            ),
        }
    }
}

} // verus!
