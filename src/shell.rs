//! How shells and init commands are started: the program, its arguments and
//! its working directory, chosen from a table of shell conventions.
use vstd::prelude::*;
use vstd::string::*;

use crate::text::{copy_strings, views};

verus! {

/// The operating system family, which decides how a single command is run.
#[derive(Debug, PartialEq, Eq, Structural, Clone, Copy)]
pub enum Platform {
    Windows,
    Unix,
}

/// A process to start: program, arguments, and the directory to start it in
/// (`None`: the caller's own).
#[derive(Debug)]
pub struct Invocation {
    pub program: String,
    pub args: Vec<String>,
    pub current_dir: Option<String>,
}

pub ghost struct InvocationView {
    pub program: Seq<char>,
    pub args: Seq<Seq<char>>,
    pub current_dir: Option<Seq<char>>,
}

pub open spec fn string_option_view(o: Option<String>) -> Option<Seq<char>> {
    match o {
        Some(s) => Some(s@),
        None => None,
    }
}

impl View for Invocation {
    type V = InvocationView;

    open spec fn view(&self) -> InvocationView {
        InvocationView {
            program: self.program@,
            args: views(self.args@),
            current_dir: string_option_view(self.current_dir),
        }
    }
}

impl Clone for Invocation {
    fn clone(&self) -> (r: Self)
        ensures
            r@ == self@,
    {
        let current_dir = match &self.current_dir {
            Some(d) => Some(d.clone()),
            None => None,
        };
        Invocation { program: self.program.clone(), args: copy_strings(&self.args), current_dir }
    }
}

/// How one shell is told where to start and what to run.
#[derive(Debug)]
pub struct ShellConvention {
    /// The shell's executable name.
    pub name: String,
    /// Arguments that come first on every start.
    pub start_args: Vec<String>,
    /// A flag followed by the directory; `None`: the process is started there.
    pub dir_flag: Option<String>,
    /// A flag followed by a command to run; `None`: the shell takes no command.
    pub command_flag: Option<String>,
}

pub ghost struct ConventionView {
    pub name: Seq<char>,
    pub start_args: Seq<Seq<char>>,
    pub dir_flag: Option<Seq<char>>,
    pub command_flag: Option<Seq<char>>,
}

impl View for ShellConvention {
    type V = ConventionView;

    open spec fn view(&self) -> ConventionView {
        ConventionView {
            name: self.name@,
            start_args: views(self.start_args@),
            dir_flag: string_option_view(self.dir_flag),
            command_flag: string_option_view(self.command_flag),
        }
    }
}

/// The shells that do not follow the usual convention.
pub open spec fn special_shells() -> Seq<ConventionView> {
    seq![
        ConventionView {
            name: "pwsh.exe"@,
            start_args: seq!["-NoLogo"@],
            dir_flag: Some("-wd"@),
            command_flag: None,
        },
    ]
}

/// Started in the directory, a command given after `-c`.
pub open spec fn usual_convention(name: Seq<char>) -> ConventionView {
    ConventionView { name, start_args: Seq::empty(), dir_flag: None, command_flag: Some("-c"@) }
}

/// The first entry of `table` for the shell `name`, else the usual convention.
pub open spec fn lookup_convention(table: Seq<ConventionView>, name: Seq<char>) -> ConventionView
    decreases table.len(),
{
    if table.len() == 0 {
        usual_convention(name)
    } else if table[0].name == name {
        table[0]
    } else {
        lookup_convention(table.drop_first(), name)
    }
}

pub open spec fn convention_of(name: Seq<char>) -> ConventionView {
    lookup_convention(special_shells(), name)
}

/// Where the directory goes: after the flag, or as the process's directory.
pub open spec fn dir_args(c: ConventionView, dir: Seq<char>) -> Seq<Seq<char>> {
    match c.dir_flag {
        Some(f) => seq![f, dir],
        None => Seq::empty(),
    }
}

pub open spec fn start_dir(c: ConventionView, dir: Seq<char>) -> Option<Seq<char>> {
    match c.dir_flag {
        Some(f) => None,
        None => Some(dir),
    }
}

/// The shell started interactively in `dir`.
pub open spec fn interactive_invocation(c: ConventionView, dir: Seq<char>) -> InvocationView {
    InvocationView {
        program: c.name,
        args: c.start_args + dir_args(c, dir),
        current_dir: start_dir(c, dir),
    }
}

/// The shell started in `dir` to run `command`, where it takes one.
pub open spec fn command_invocation(c: ConventionView, dir: Seq<char>, command: Seq<char>) -> InvocationView {
    let cmd_args = match c.command_flag {
        Some(f) => seq![f, command],
        None => Seq::empty(),
    };
    InvocationView {
        program: c.name,
        args: c.start_args + cmd_args + dir_args(c, dir),
        current_dir: start_dir(c, dir),
    }
}

/// An init command run through the platform's command interpreter in `dir`.
pub open spec fn init_command_invocation(p: Platform, dir: Seq<char>, command: Seq<char>) -> InvocationView {
    match p {
        Platform::Windows => InvocationView {
            program: "cmd"@,
            args: seq!["/C"@, command],
            current_dir: Some(dir),
        },
        Platform::Unix => InvocationView {
            program: "sh"@,
            args: seq!["-c"@, command],
            current_dir: Some(dir),
        },
    }
}

/// The table of shells with conventions of their own.
pub fn shell_conventions() -> (r: Vec<ShellConvention>)
    ensures
        r@.map_values(|c: ShellConvention| c@) == special_shells(),
{
    let mut table: Vec<ShellConvention> = Vec::new();
    table.push(
        ShellConvention {
            name: String::from_str("pwsh.exe"),
            start_args: vec![String::from_str("-NoLogo")],
            dir_flag: Some(String::from_str("-wd")),
            command_flag: None,
        },
    );
    proof {
        let v = table@.map_values(|c: ShellConvention| c@);
        assert(v[0].start_args =~= seq!["-NoLogo"@]);
        assert(v =~= special_shells());
    }
    table
}

/// The convention of the shell `name`: its table entry, else the usual one.
pub fn convention_for(name: &str) -> (r: ShellConvention)
    ensures
        r@ == convention_of(name@),
{
    let mut table = shell_conventions();
    let ghost full = special_shells();
    let target = String::from_str(name);
    let mut i: usize = 0;
    assert(full.subrange(0, full.len() as int) =~= full);
    while i < table.len()
        invariant
            i <= table@.len(),
            target@ == name@,
            full == special_shells(),
            table@.map_values(|c: ShellConvention| c@) == full,
            lookup_convention(full, name@) == lookup_convention(
                full.subrange(i as int, full.len() as int),
                name@,
            ),
        decreases table@.len() - i,
    {
        let ghost rest = full.subrange(i as int, full.len() as int);
        assert(rest.drop_first() =~= full.subrange(i + 1, full.len() as int));
        assert(full[i as int] == table@[i as int]@);
        if table[i].name == target {
            assert(rest[0] == full[i as int]);
            assert(rest[0].name == name@);
            assert(lookup_convention(rest, name@) == rest[0]);
            let c = table.swap_remove(i);
            assert(c@ == full[i as int]);
            return c;
        }
        i = i + 1;
    }
    let c = ShellConvention {
        name: target,
        start_args: Vec::new(),
        dir_flag: None,
        command_flag: Some(String::from_str("-c")),
    };
    proof {
        assert(full.subrange(i as int, full.len() as int) =~= Seq::<ConventionView>::empty());
        assert(views(c.start_args@) =~= Seq::<Seq<char>>::empty());
    }
    c
}

impl ShellConvention {
    fn dir_part(&self, dir: &str) -> (r: (Vec<String>, Option<String>))
        ensures
            views(r.0@) == dir_args(self@, dir@),
            string_option_view(r.1) == start_dir(self@, dir@),
    {
        let mut args: Vec<String> = Vec::new();
        match &self.dir_flag {
            Some(f) => {
                args.push(f.clone());
                args.push(String::from_str(dir));
                assert(views(args@) =~= seq![f@, dir@]);
                (args, None)
            },
            None => {
                assert(views(args@) =~= Seq::<Seq<char>>::empty());
                (args, Some(String::from_str(dir)))
            },
        }
    }

    /// The shell started interactively in `dir`.
    pub fn interactive(&self, dir: &str) -> (r: Invocation)
        ensures
            r@ == interactive_invocation(self@, dir@),
    {
        let mut args = copy_strings(&self.start_args);
        let (mut rest, current_dir) = self.dir_part(dir);
        let ghost a = views(args@);
        let ghost b = views(rest@);
        args.append(&mut rest);
        assert(views(args@) =~= a + b);
        Invocation { program: self.name.clone(), args, current_dir }
    }

    /// The shell started in `dir` to run `command`.
    pub fn running(&self, dir: &str, command: &str) -> (r: Invocation)
        ensures
            r@ == command_invocation(self@, dir@, command@),
    {
        let mut args = copy_strings(&self.start_args);
        let ghost a = views(args@);
        let mut cmd_args: Vec<String> = Vec::new();
        if let Some(f) = &self.command_flag {
            cmd_args.push(f.clone());
            cmd_args.push(String::from_str(command));
        }
        let ghost b = views(cmd_args@);
        let (mut rest, current_dir) = self.dir_part(dir);
        let ghost c = views(rest@);
        args.append(&mut cmd_args);
        args.append(&mut rest);
        assert(views(args@) =~= a + b + c);
        proof {
            if self.command_flag is Some {
                assert(b =~= seq![self.command_flag->0@, command@]);
            } else {
                assert(b =~= Seq::<Seq<char>>::empty());
            }
        }
        Invocation { program: self.name.clone(), args, current_dir }
    }
}

/// An init command run through the platform's command interpreter in `dir`.
pub fn init_command(platform: Platform, dir: &str, command: &str) -> (r: Invocation)
    ensures
        r@ == init_command_invocation(platform, dir@, command@),
{
    let (program, flag) = match platform {
        Platform::Windows => (String::from_str("cmd"), String::from_str("/C")),
        Platform::Unix => (String::from_str("sh"), String::from_str("-c")),
    };
    let args = vec![flag, String::from_str(command)];
    let r = Invocation { program, args, current_dir: Some(String::from_str(dir)) };
    assert(views(r.args@) =~= seq![flag@, command@]);
    r
}

/// An interactive shell rooted at a workspace directory.
#[derive(Debug)]
pub struct Shell {
    pub working_dir: String,
    pub name: String,
}

impl Shell {
    pub fn new(wdir: &str, shell: &str) -> (r: Self)
        ensures
            r.working_dir@ == wdir@,
            r.name@ == shell@,
    {
        Self { working_dir: String::from_str(wdir), name: String::from_str(shell) }
    }

    /// The interactive session: the shell started in the working directory.
    pub fn get_input(&self) -> (r: Invocation)
        ensures
            r@ == interactive_invocation(convention_of(self.name@), self.working_dir@),
    {
        convention_for(self.name.as_str()).interactive(self.working_dir.as_str())
    }

    /// The shell started in the working directory to run `command`.
    pub fn run_command(&self, command: &str) -> (r: Invocation)
        ensures
            r@ == command_invocation(convention_of(self.name@), self.working_dir@, command@),
    {
        convention_for(self.name.as_str()).running(self.working_dir.as_str(), command)
    }
}

} // verus!
