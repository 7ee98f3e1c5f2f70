//! What each command does to the store, and what it asks the caller to do.
use vstd::prelude::*;
use vstd::string::*;

use crate::commands::Effect;
use crate::configuration::Config;
use crate::errors::{ErrorKind, Severity, WorkspaceError};
use crate::shell::Platform;
use crate::text::{join_text, join_with, split_on, split_text, views};
use crate::workspaces::{
    commands_of, find_named, first_named, has_identity, holds_identity, init_session_of, line_of,
    others_than_name, record_views, render, render_text, without, without_name, FileUpdate,
    RecordView, Workspace, Workspaces,
};

verus! {

/// The shell used when none is given.
pub open spec fn default_shell(p: Platform) -> Seq<char> {
    match p {
        Platform::Windows => "cmd"@,
        Platform::Unix => "sh"@,
    }
}

pub open spec fn opt_view(o: Option<String>) -> Option<Seq<char>> {
    match o {
        Some(s) => Some(s@),
        None => None,
    }
}

/// Init commands given as `;`-separated text, or as the path of a command
/// file; `None` when neither is given.
pub open spec fn requested_commands(text: Option<Seq<char>>, cmd_path: Option<Seq<char>>) -> Option<
    Seq<Seq<char>>,
> {
    match text {
        Some(t) => Some(commands_of(split_on(t, ';'))),
        None => match cmd_path {
            Some(p) => Some(commands_of(seq![p])),
            None => None,
        },
    }
}

/// The record that `add` or `modify` asks for, when its init commands are given.
pub open spec fn requested_record(
    name: Seq<char>,
    path: Seq<char>,
    shell: Option<Seq<char>>,
    text: Option<Seq<char>>,
    cmd_path: Option<Seq<char>>,
    platform: Platform,
) -> Option<RecordView> {
    match requested_commands(text, cmd_path) {
        None => None,
        Some(cmds) => Some(
            RecordView {
                name,
                path,
                shell: match shell {
                    Some(s) => s,
                    None => default_shell(platform),
                },
                init_commands: cmds,
            },
        ),
    }
}

/// The command failed with an error of this kind and message, of severity `Error`.
pub open spec fn fails_with(r: Result<Effect, WorkspaceError>, kind: ErrorKind, message: Seq<char>) -> bool {
    r matches Err(e) && e.kind == kind && e.message@ == message && e.severity == Severity::Error
}

pub open spec fn validation_message() -> Seq<char> {
    "You must provide a value for either text or file based init commands"@
}

pub open spec fn writes(r: Result<Effect, WorkspaceError>, text: Seq<char>) -> bool {
    r matches Ok(Effect::Write(FileUpdate::Replace(s))) && s@ == text
}

pub open spec fn add_post(
    before: Seq<RecordView>,
    after: Seq<RecordView>,
    rec: Option<RecordView>,
    r: Result<Effect, WorkspaceError>,
) -> bool {
    match rec {
        None => after == before && fails_with(r, ErrorKind::Validation, validation_message()),
        Some(w) => if has_identity(before, w) {
            after == before && fails_with(r, ErrorKind::DuplicateWorkspace, "Workspace already exists"@)
        } else {
            &&& after == before.push(w)
            &&& r matches Ok(Effect::Write(FileUpdate::Append(s))) && s@ == line_of(w)
        },
    }
}

pub open spec fn has_name(rs: Seq<RecordView>, name: Seq<char>) -> bool {
    first_named(rs, name) is Some
}

pub open spec fn modify_post(
    before: Seq<RecordView>,
    after: Seq<RecordView>,
    name: Seq<char>,
    rec: Option<RecordView>,
    r: Result<Effect, WorkspaceError>,
) -> bool {
    match rec {
        None => after == before && fails_with(r, ErrorKind::Validation, validation_message()),
        Some(w) => if !has_name(before, name) {
            after == before && fails_with(r, ErrorKind::NotFound, "Workspace not found"@)
        } else if has_identity(without_name(before, name), w) {
            after == before && fails_with(r, ErrorKind::DuplicateWorkspace, "Workspace already exists"@)
        } else {
            after == without_name(before, name).push(w) && writes(r, render(after))
        },
    }
}

/// One line of the listing.
pub open spec fn list_line(r: RecordView) -> Seq<char> {
    "Workspace: "@ + r.name + ", shell: "@ + r.shell + ", with working directory: "@ + r.path
        + ", runs: "@ + join_with(r.init_commands, ", "@)
}

pub open spec fn list_post(before: Seq<RecordView>, after: Seq<RecordView>, r: Result<
    Effect,
    WorkspaceError,
>) -> bool {
    &&& after == before
    &&& if before.len() == 0 {
        fails_with(r, ErrorKind::NotFound, "No workspaces"@)
    } else {
        r matches Ok(Effect::Print(lines)) && views(lines@) == before.map_values(
            |w: RecordView| list_line(w),
        )
    }
}

pub open spec fn delete_question(name: Option<Seq<char>>) -> Seq<char> {
    match name {
        Some(n) => "Are you sure you want to delete workspace "@ + n + "? (y/n) "@,
        None => "Are you sure you want to clear all workspaces? (y/n) "@,
    }
}

pub open spec fn asks(r: Result<Effect, WorkspaceError>, question: Seq<char>) -> bool {
    r matches Ok(Effect::Confirm(q)) && q@ == question
}

pub open spec fn delete_post(
    before: Seq<RecordView>,
    after: Seq<RecordView>,
    name: Option<Seq<char>>,
    confirm: bool,
    r: Result<Effect, WorkspaceError>,
) -> bool {
    if before.len() == 0 {
        after == before && fails_with(r, ErrorKind::NotFound, "No workspaces"@)
    } else {
        match name {
            Some(n) => match first_named(before, n) {
                None => after == before && fails_with(r, ErrorKind::NotFound, "Workspace not found"@),
                Some(w) => if !confirm {
                    after == before && asks(r, delete_question(name))
                } else {
                    after == without(before, w) && writes(r, render(after))
                },
            },
            None => if !confirm {
                after == before && asks(r, delete_question(name))
            } else {
                after.len() == 0 && writes(r, Seq::empty())
            },
        }
    }
}

pub open spec fn init_post(
    before: Seq<RecordView>,
    after: Seq<RecordView>,
    name: Seq<char>,
    platform: Platform,
    r: Result<Effect, WorkspaceError>,
) -> bool {
    &&& after == before
    &&& match first_named(before, name) {
        None => fails_with(r, ErrorKind::NotFound, "Workspace not found"@),
        Some(w) => r matches Ok(Effect::Launch(s)) && init_session_of(s, w, platform),
    }
}

fn not_found() -> (e: WorkspaceError)
    ensures
        e.kind == ErrorKind::NotFound,
        e.message@ == "Workspace not found"@,
        e.severity == Severity::Error,
{
    WorkspaceError::new(ErrorKind::NotFound, String::from_str("Workspace not found"), Severity::Error)
}

fn no_workspaces() -> (e: WorkspaceError)
    ensures
        e.kind == ErrorKind::NotFound,
        e.message@ == "No workspaces"@,
        e.severity == Severity::Error,
{
    WorkspaceError::new(ErrorKind::NotFound, String::from_str("No workspaces"), Severity::Error)
}

/// The init commands given to `add` or `modify`.
pub fn requested_init_commands(text: Option<String>, cmd_path: Option<String>) -> (r: Result<
    Vec<String>,
    WorkspaceError,
>)
    ensures
        match r {
            Ok(cmds) => requested_commands(opt_view(text), opt_view(cmd_path)) == Some(views(cmds@)),
            Err(e) => {
                &&& requested_commands(opt_view(text), opt_view(cmd_path)) is None
                &&& e.kind == ErrorKind::Validation
                &&& e.message@ == validation_message()
                &&& e.severity == Severity::Error
            },
        },
{
    match text {
        Some(t) => {
            let mut cmds = split_text(t.as_str(), ';');
            if cmds.len() == 1 && cmds[0].unicode_len() == 0 {
                cmds = Vec::new();
                assert(views(cmds@) =~= Seq::<Seq<char>>::empty());
            }
            Ok(cmds)
        },
        None => match cmd_path {
            Some(p) => {
                if p.unicode_len() == 0 {
                    let cmds: Vec<String> = Vec::new();
                    assert(views(cmds@) =~= Seq::<Seq<char>>::empty());
                    return Ok(cmds);
                }
                let cmds = vec![p];
                assert(views(cmds@) =~= seq![cmds@[0]@]);
                Ok(cmds)
            },
            None => Err(
                WorkspaceError::new(
                    ErrorKind::Validation,
                    String::from_str(
                        "You must provide a value for either text or file based init commands",
                    ),
                    Severity::Error,
                ),
            ),
        },
    }
}

/// The record that `add` or `modify` asks for.
pub fn requested_workspace(
    name: String,
    path: String,
    shell: Option<String>,
    text: Option<String>,
    cmd_path: Option<String>,
    platform: Platform,
) -> (r: Result<Workspace, WorkspaceError>)
    ensures
        match r {
            Ok(w) => requested_record(
                name@,
                path@,
                opt_view(shell),
                opt_view(text),
                opt_view(cmd_path),
                platform,
            ) == Some(w@),
            Err(e) => requested_record(
                name@,
                path@,
                opt_view(shell),
                opt_view(text),
                opt_view(cmd_path),
                platform,
            ) is None && e.kind == ErrorKind::Validation && e.message@ == validation_message()
                && e.severity == Severity::Error,
        },
{
    let cmds = match requested_init_commands(text, cmd_path) {
        Ok(c) => c,
        Err(e) => return Err(e),
    };
    let shell = match shell {
        Some(s) => s,
        None => match platform {
            Platform::Windows => String::from_str("cmd"),
            Platform::Unix => String::from_str("sh"),
        },
    };
    Ok(Workspace::new(name, path, shell, cmds))
}

/// Prepares the init run of the workspace named `name`.
pub fn init(workspaces: &Workspaces, name: String, platform: Platform) -> (r: Result<
    Effect,
    WorkspaceError,
>)
    ensures
        init_post(record_views(workspaces.workspaces@), record_views(workspaces.workspaces@), name@, platform, r),
{
    match find_named(&workspaces.workspaces, name.as_str()) {
        Some(i) => Ok(Effect::Launch(workspaces.workspaces[i].init(platform))),
        None => Err(not_found()),
    }
}

/// Stores a new workspace; without a shell the platform's default is used.
pub fn add(
    workspaces: &mut Workspaces,
    name: String,
    path: String,
    shell_executable: Option<String>,
    text: Option<String>,
    cmd_path: Option<String>,
    platform: Platform,
) -> (r: Result<Effect, WorkspaceError>)
    ensures
        add_post(
            record_views(old(workspaces).workspaces@),
            record_views(final(workspaces).workspaces@),
            requested_record(
                name@,
                path@,
                opt_view(shell_executable),
                opt_view(text),
                opt_view(cmd_path),
                platform,
            ),
            r,
        ),
        final(workspaces).active_workspace == old(workspaces).active_workspace,
        final(workspaces).workspace_file == old(workspaces).workspace_file,
{
    let w = match requested_workspace(name, path, shell_executable, text, cmd_path, platform) {
        Ok(w) => w,
        Err(e) => return Err(e),
    };
    match workspaces.add(w) {
        Ok(u) => Ok(Effect::Write(u)),
        Err(e) => Err(e),
    }
}

/// One line of the listing for `w`.
pub fn list_entry(w: &Workspace) -> (r: String)
    ensures
        r@ == list_line(w@),
{
    let mut line = String::from_str("Workspace: ");
    line.append(w.name.as_str());
    line.append(", shell: ");
    line.append(w.shell.as_str());
    line.append(", with working directory: ");
    line.append(w.path.as_str());
    line.append(", runs: ");
    let runs = join_text(&w.init_commands, ", ");
    line.append(runs.as_str());
    line
}

/// A line per stored workspace; an empty store is reported as an error.
pub fn list(workspaces: &Workspaces) -> (r: Result<Effect, WorkspaceError>)
    ensures
        list_post(record_views(workspaces.workspaces@), record_views(workspaces.workspaces@), r),
{
    if workspaces.workspaces.len() == 0 {
        return Err(no_workspaces());
    }
    let ghost rs = record_views(workspaces.workspaces@);
    let mut lines: Vec<String> = Vec::new();
    let mut i: usize = 0;
    while i < workspaces.workspaces.len()
        invariant
            i <= workspaces.workspaces@.len(),
            rs == record_views(workspaces.workspaces@),
            lines@.len() == i,
            forall|j: int| 0 <= j < i ==> (#[trigger] lines@[j])@ == list_line(rs[j]),
        decreases workspaces.workspaces@.len() - i,
    {
        lines.push(list_entry(&workspaces.workspaces[i]));
        i = i + 1;
    }
    assert(views(lines@) =~= rs.map_values(|w: RecordView| list_line(w)));
    Ok(Effect::Print(lines))
}

/// Deletes the first workspace named `name`, or every workspace when no name
/// is given. Without `confirm` nothing changes and the caller is asked to
/// confirm first.
pub fn delete(workspaces: &mut Workspaces, name: Option<String>, confirm: bool) -> (r: Result<
    Effect,
    WorkspaceError,
>)
    ensures
        delete_post(
            record_views(old(workspaces).workspaces@),
            record_views(final(workspaces).workspaces@),
            opt_view(name),
            confirm,
            r,
        ),
        final(workspaces).workspace_file == old(workspaces).workspace_file,
{
    if workspaces.workspaces.len() == 0 {
        return Err(no_workspaces());
    }
    match name {
        Some(n) => {
            let i = match find_named(&workspaces.workspaces, n.as_str()) {
                Some(i) => i,
                None => return Err(not_found()),
            };
            if !confirm {
                let mut q = String::from_str("Are you sure you want to delete workspace ");
                q.append(n.as_str());
                q.append("? (y/n) ");
                return Ok(Effect::Confirm(q));
            }
            let target = workspaces.workspaces[i].clone();
            let u = workspaces.remove_from_file(&target);
            Ok(Effect::Write(u))
        },
        None => {
            if !confirm {
                return Ok(
                    Effect::Confirm(
                        String::from_str("Are you sure you want to clear all workspaces? (y/n) "),
                    ),
                );
            }
            let u = workspaces.clear();
            assert(record_views(workspaces.workspaces@) =~= Seq::<RecordView>::empty());
            Ok(Effect::Write(u))
        },
    }
}

/// The answer to a confirmation question: `y` goes on, anything else cancels.
pub fn confirmation(answer: &str) -> (r: Result<(), WorkspaceError>)
    ensures
        r is Ok <==> answer@ == "y"@,
        r matches Err(e) ==> {
            &&& e.kind == ErrorKind::CancelledByUser
            &&& e.message@ == "Clear cancelled"@
            &&& e.severity == Severity::Message
        },
{
    let y = String::from_str("y");
    if String::from_str(answer) == y {
        Ok(())
    } else {
        Err(
            WorkspaceError::new(
                ErrorKind::CancelledByUser,
                String::from_str("Clear cancelled"),
                Severity::Message,
            ),
        )
    }
}

/// Replaces the workspaces named `name` by a new record. Nothing changes when
/// the new record is invalid, no workspace has that name, or the new record
/// would duplicate another workspace.
pub fn modify(
    workspaces: &mut Workspaces,
    name: String,
    path: String,
    shell: Option<String>,
    text: Option<String>,
    cmd_path: Option<String>,
    platform: Platform,
) -> (r: Result<Effect, WorkspaceError>)
    ensures
        modify_post(
            record_views(old(workspaces).workspaces@),
            record_views(final(workspaces).workspaces@),
            name@,
            requested_record(name@, path@, opt_view(shell), opt_view(text), opt_view(cmd_path), platform),
            r,
        ),
        final(workspaces).active_workspace == old(workspaces).active_workspace,
        final(workspaces).workspace_file == old(workspaces).workspace_file,
{
    let old_name = name.clone();
    let w = match requested_workspace(name, path, shell, text, cmd_path, platform) {
        Ok(w) => w,
        Err(e) => return Err(e),
    };
    if find_named(&workspaces.workspaces, old_name.as_str()).is_none() {
        return Err(not_found());
    }
    let mut kept = others_than_name(&workspaces.workspaces, old_name.as_str());
    if holds_identity(&kept, &w) {
        return Err(
            WorkspaceError::new(
                ErrorKind::DuplicateWorkspace,
                String::from_str("Workspace already exists"),
                Severity::Error,
            ),
        );
    }
    let ghost before = record_views(kept@);
    kept.push(w);
    assert(record_views(kept@) =~= before.push(w@));
    let text = render_text(&kept);
    workspaces.workspaces = kept;
    Ok(Effect::Write(FileUpdate::Replace(text)))
}

/// The help text: for the command named second in `config.args`, or for all.
pub fn help(config: &Config) -> (r: String)
    ensures
        match config.args {
            Some(a) if a@.len() > 1 => r@ == "Help for "@ + a@[1]@,
            _ => r@ == "Help for all commands"@,
        },
{
    match &config.args {
        Some(a) => {
            if a.len() > 1 {
                let mut s = String::from_str("Help for ");
                s.append(a[1].as_str());
                return s;
            }
            String::from_str("Help for all commands")
        },
        None => String::from_str("Help for all commands"),
    }
}

} // verus!
