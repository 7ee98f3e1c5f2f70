//! The decisions of an `init` run: init commands one after another, then the
//! interactive shell, whose exit code ends the run. The caller starts the
//! processes and reports back what happened.
use vstd::prelude::*;
use vstd::string::*;

use crate::errors::{ErrorKind, Severity, WorkspaceError};
use crate::shell::Invocation;

verus! {

#[derive(Debug, PartialEq, Eq, Structural, Clone, Copy)]
pub enum Phase {
    Idle,
    RunningInitCommands,
    LaunchingShell,
    ShellActive,
    Exited,
}

/// What the caller reports after carrying out the last action.
#[derive(Debug, PartialEq, Eq, Structural, Clone, Copy)]
pub enum Event {
    /// Begin the run.
    Start,
    /// An init command ended; `true` when it was started and exited with success.
    CommandFinished(bool),
    /// The interactive shell was started (`true`) or could not be (`false`).
    ShellStarted(bool),
    /// The interactive shell exited with this code.
    ShellExited(i32),
}

/// What the caller is to do next.
#[derive(Debug)]
pub enum Action {
    /// Run this init command to completion, its output captured and shown afterwards.
    Run(Invocation),
    /// Start this shell with the terminal handed over to it.
    Launch(Invocation),
    /// Wait for the shell to exit.
    Wait,
    /// The run is over; this is its exit status.
    Finish(i32),
    /// The run is over and failed.
    Fail(WorkspaceError),
    /// The event does not fit the current phase; nothing changed.
    Ignore,
}

/// The state of one `init` run.
#[derive(Debug)]
pub struct InitSession {
    /// The workspace's name and directory, for the caller to report.
    pub name: String,
    pub path: String,
    pub commands: Vec<Invocation>,
    pub shell: Invocation,
    /// Stop at the first init command that fails. Off by default: a failed
    /// command is reported and the next one runs.
    pub fail_fast: bool,
    pub phase: Phase,
    /// How many init commands have finished.
    pub next: usize,
}

impl InitSession {
    pub open spec fn wf(&self) -> bool {
        &&& self.next <= self.commands@.len()
        &&& self.phase == Phase::Idle ==> self.next == 0
        &&& self.phase == Phase::RunningInitCommands ==> self.next < self.commands@.len()
    }

    pub fn new(name: String, path: String, commands: Vec<Invocation>, shell: Invocation) -> (r: Self)
        ensures
            r.wf(),
            r.name == name,
            r.path == path,
            r.commands == commands,
            r.shell == shell,
            !r.fail_fast,
            r.phase == Phase::Idle,
    {
        InitSession { name, path, commands, shell, fail_fast: false, phase: Phase::Idle, next: 0 }
    }

    /// Start the next init command, or the shell once none is left.
    fn advance(&mut self) -> (r: Action)
        requires
            old(self).next <= old(self).commands@.len(),
        ensures
            final(self).commands == old(self).commands,
            final(self).shell == old(self).shell,
            final(self).fail_fast == old(self).fail_fast,
            final(self).name == old(self).name,
            final(self).path == old(self).path,
            final(self).next == old(self).next,
            final(self).wf(),
            if old(self).next < old(self).commands@.len() {
                &&& final(self).phase == Phase::RunningInitCommands
                &&& r matches Action::Run(i) && i@ == old(self).commands@[old(self).next as int]@
            } else {
                &&& final(self).phase == Phase::LaunchingShell
                &&& r matches Action::Launch(i) && i@ == old(self).shell@
            },
    {
        if self.next < self.commands.len() {
            self.phase = Phase::RunningInitCommands;
            Action::Run(self.commands[self.next].clone())
        } else {
            self.phase = Phase::LaunchingShell;
            Action::Launch(self.shell.clone())
        }
    }

    /// Moves the run on by one event and says what to do next.
    pub fn step(&mut self, event: Event) -> (r: Action)
        requires
            old(self).wf(),
        ensures
            final(self).wf(),
            final(self).commands == old(self).commands,
            final(self).shell == old(self).shell,
            final(self).fail_fast == old(self).fail_fast,
            final(self).name == old(self).name,
            final(self).path == old(self).path,
            ({
                let s = *old(self);
                let t = *final(self);
                match (s.phase, event) {
                    (Phase::Idle, Event::Start) => if s.commands@.len() > 0 {
                        &&& t.phase == Phase::RunningInitCommands
                        &&& t.next == 0
                        &&& r matches Action::Run(i) && i@ == s.commands@[0]@
                    } else {
                        &&& t.phase == Phase::LaunchingShell
                        &&& t.next == 0
                        &&& r matches Action::Launch(i) && i@ == s.shell@
                    },
                    (Phase::RunningInitCommands, Event::CommandFinished(ok)) => if !ok
                        && s.fail_fast {
                        &&& t.phase == Phase::Exited
                        &&& t.next == s.next + 1
                        &&& r matches Action::Fail(e) && e.kind == ErrorKind::Io
                            && e.message@ == "An init command failed"@ && e.severity
                            == Severity::Error
                    } else if s.next + 1 < s.commands@.len() {
                        &&& t.phase == Phase::RunningInitCommands
                        &&& t.next == s.next + 1
                        &&& r matches Action::Run(i) && i@ == s.commands@[s.next + 1]@
                    } else {
                        &&& t.phase == Phase::LaunchingShell
                        &&& t.next == s.next + 1
                        &&& r matches Action::Launch(i) && i@ == s.shell@
                    },
                    (Phase::LaunchingShell, Event::ShellStarted(started)) => {
                        &&& t.next == s.next
                        &&& if started {
                            t.phase == Phase::ShellActive && r is Wait
                        } else {
                            t.phase == Phase::Exited && (r matches Action::Fail(e) && e.kind
                                == ErrorKind::Io && e.message@ == "Could not start the shell"@
                                && e.severity == Severity::Error)
                        }
                    },
                    (Phase::ShellActive, Event::ShellExited(code)) => {
                        &&& t.phase == Phase::Exited
                        &&& t.next == s.next
                        &&& r matches Action::Finish(c) && c == code
                    },
                    _ => t.phase == s.phase && t.next == s.next && r is Ignore,
                }
            }),
    {
        match (self.phase, event) {
            (Phase::Idle, Event::Start) => self.advance(),
            (Phase::RunningInitCommands, Event::CommandFinished(ok)) => {
                let count = self.commands.len();
                assert(self.next < count);
                self.next = self.next + 1;
                if !ok && self.fail_fast {
                    self.phase = Phase::Exited;
                    Action::Fail(
                        WorkspaceError::new(
                            ErrorKind::Io,
                            String::from_str("An init command failed"),
                            Severity::Error,
                        ),
                    )
                } else {
                    self.advance()
                }
            },
            (Phase::LaunchingShell, Event::ShellStarted(started)) => {
                if started {
                    self.phase = Phase::ShellActive;
                    Action::Wait
                } else {
                    self.phase = Phase::Exited;
                    Action::Fail(
                        WorkspaceError::new(
                            ErrorKind::Io,
                            String::from_str("Could not start the shell"),
                            Severity::Error,
                        ),
                    )
                }
            },
            (Phase::ShellActive, Event::ShellExited(code)) => {
                self.phase = Phase::Exited;
                Action::Finish(code)
            },
            _ => Action::Ignore,
        }
    }
}

} // verus!
