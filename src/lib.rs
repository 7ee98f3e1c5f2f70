//! Named workspaces: a directory, a shell and init commands, kept one per line
//! in a text file, with the commands that add, list, change, delete and start them.
use vstd::prelude::*;

pub mod commands;
pub mod configuration;
pub mod errors;
pub mod paths;
pub mod session;
pub mod shell;
pub mod text;
pub mod workspaces;

pub use commands::{Command, Effect};
pub use configuration::{Config, EnvVar, FileConfig};
pub use errors::{CommandReturn, ErrorKind, Severity, WorkspaceError};
pub use session::{Action, Event, InitSession, Phase};
pub use shell::{Invocation, Platform, Shell};
pub use workspaces::{read_from_file, FileUpdate, Workspace, Workspaces};

use commands::command_post;
use vstd::string::*;
use workspaces::{line_start, parse_file, record_views};

verus! {

/// `r` is `r0` with a line break put before an appended line when `text`
/// does not end with one.
pub open spec fn placed_in(
    text: Seq<char>,
    r0: Result<Effect, WorkspaceError>,
    r: Result<Effect, WorkspaceError>,
) -> bool {
    match r0 {
        Ok(Effect::Write(FileUpdate::Append(s0))) => r matches Ok(
            Effect::Write(FileUpdate::Append(s)),
        ) && s@ == line_start(text) + s0@,
        _ => r == r0,
    }
}

/// Reads the store from the text of its file and carries out the command of
/// `config` on it. The caller applies the returned effect; a line to append
/// starts a new line even when the file's last line has no line break.
pub fn run(
    config: Config,
    workspace_file: &str,
    contents: &str,
    current_dir: Option<&str>,
    platform: Platform,
) -> (r: Result<Effect, WorkspaceError>)
    ensures
        parse_file(contents@) is None ==> (r matches Err(e) && e.kind == ErrorKind::MalformedRecord),
        parse_file(contents@) is Some ==> exists|
            after: Seq<workspaces::RecordView>,
            r0: Result<Effect, WorkspaceError>,
        |
            #[trigger] command_post(parse_file(contents@)->0, after, config.command, platform, r0)
                && placed_in(contents@, r0, r),
{
    let ghost cmd = config.command;
    let mut store = match read_from_file(workspace_file, contents, current_dir) {
        Ok(s) => s,
        Err(e) => return Err(e),
    };
    let ghost before = record_views(store.workspaces@);
    let result = Command::run(&mut store, config.command, platform);
    assert(command_post(before, record_views(store.workspaces@), cmd, platform, result));
    assert(cmd == config.command);
    assert(before == parse_file(contents@)->0);
    let ghost r0 = result;
    match result {
        Ok(Effect::Write(FileUpdate::Append(line))) => {
            let n = contents.unicode_len();
            if n > 0 && contents.get_char(n - 1) != '\n' {
                let mut text = String::from_str("\n");
                proof {
                    reveal_strlit("\n");
                    assert(text@ =~= line_start(contents@));
                }
                text.append(line.as_str());
                Ok(Effect::Write(FileUpdate::Append(text)))
            } else {
                assert(line@ =~= line_start(contents@) + line@);
                Ok(Effect::Write(FileUpdate::Append(line)))
            }
        },
        other => other,
    }
}

} // verus!
