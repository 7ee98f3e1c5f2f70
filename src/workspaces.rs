//! Workspace records, their one-line text form, and the store that mirrors the
//! workspace file.
use vstd::prelude::*;
use vstd::string::*;

use crate::errors::{ErrorKind, Severity, WorkspaceError};
use crate::paths::{dir_contains, is_within};
use crate::session::{InitSession, Phase};
use crate::shell::{
    convention_of, init_command, init_command_invocation, interactive_invocation, Invocation,
    Platform, Shell,
};
use crate::text::{
    copy_strings, free_of, join_text, join_with, lemma_split_concat, lemma_split_free, lemma_split_join,
    split_on, split_text, views,
};

verus! {

/// What a workspace record holds, as mathematical values.
pub ghost struct RecordView {
    pub name: Seq<char>,
    pub path: Seq<char>,
    pub shell: Seq<char>,
    pub init_commands: Seq<Seq<char>>,
}

/// A named directory, the shell to open there, and the commands to run first.
#[derive(Debug)]
pub struct Workspace {
    pub name: String,
    pub path: String,
    pub shell: String,
    pub init_commands: Vec<String>,
}

impl View for Workspace {
    type V = RecordView;

    open spec fn view(&self) -> RecordView {
        RecordView {
            name: self.name@,
            path: self.path@,
            shell: self.shell@,
            init_commands: views(self.init_commands@),
        }
    }
}

/// Two records denote the same workspace when name and directory agree.
pub open spec fn same_identity(a: RecordView, b: RecordView) -> bool {
    a.name == b.name && a.path == b.path
}

/// `name;directory;shell;cmd1;cmd2;...`
pub open spec fn encode_record(r: RecordView) -> Seq<char> {
    r.name + seq![';'] + r.path + seq![';'] + r.shell + seq![';'] + join_with(
        r.init_commands,
        seq![';'],
    )
}

/// The fields after the shell are the init commands; a lone empty field means none.
pub open spec fn commands_of(tail: Seq<Seq<char>>) -> Seq<Seq<char>> {
    if tail.len() == 1 && tail[0].len() == 0 {
        Seq::empty()
    } else {
        tail
    }
}

pub open spec fn decode_fields(f: Seq<Seq<char>>) -> Option<RecordView> {
    if f.len() < 3 {
        None
    } else {
        Some(
            RecordView {
                name: f[0],
                path: f[1],
                shell: f[2],
                init_commands: commands_of(f.subrange(3, f.len() as int)),
            },
        )
    }
}

/// A line decodes when it has at least name, directory and shell.
pub open spec fn decode_record(line: Seq<char>) -> Option<RecordView> {
    decode_fields(split_on(line, ';'))
}

/// No field holds the delimiter, and the commands are not a single empty one
/// (which is written exactly as no commands at all).
pub open spec fn round_trips(r: RecordView) -> bool {
    &&& free_of(r.name, ';')
    &&& free_of(r.path, ';')
    &&& free_of(r.shell, ';')
    &&& forall|i: int| 0 <= i < r.init_commands.len() ==> free_of(#[trigger] r.init_commands[i], ';')
    &&& r.init_commands != seq![Seq::<char>::empty()]
}

/// The fields of an encoded record, as the decoder splits them.
proof fn lemma_fields_of_encoding(r: RecordView)
    requires
        free_of(r.name, ';'),
        free_of(r.path, ';'),
        free_of(r.shell, ';'),
    ensures
        split_on(encode_record(r), ';') == seq![r.name, r.path, r.shell] + split_on(
            join_with(r.init_commands, seq![';']),
            ';',
        ),
{
    let j = join_with(r.init_commands, seq![';']);
    let a1 = r.name + seq![';'] + r.path;
    let a2 = a1 + seq![';'] + r.shell;
    lemma_split_free(r.name, ';');
    lemma_split_free(r.path, ';');
    lemma_split_free(r.shell, ';');
    lemma_split_concat(r.name, r.path, ';');
    lemma_split_concat(a1, r.shell, ';');
    lemma_split_concat(a2, j, ';');
    assert(seq![r.name] + seq![r.path] + seq![r.shell] =~= seq![r.name, r.path, r.shell]);
}

/// Decoding an encoded record gives back the same workspace identity, and the
/// whole record when it round-trips.
pub proof fn lemma_decode_encode(r: RecordView)
    requires
        free_of(r.name, ';'),
        free_of(r.path, ';'),
        free_of(r.shell, ';'),
    ensures
        decode_record(encode_record(r)) is Some,
        same_identity(decode_record(encode_record(r))->0, r),
        decode_record(encode_record(r))->0.shell == r.shell,
        round_trips(r) ==> decode_record(encode_record(r)) == Some(r),
{
    lemma_fields_of_encoding(r);
    let j = join_with(r.init_commands, seq![';']);
    let f = split_on(encode_record(r), ';');
    crate::text::lemma_split_nonempty(j, ';');
    assert(f.subrange(3, f.len() as int) =~= split_on(j, ';'));
    if round_trips(r) {
        if r.init_commands.len() == 0 {
            assert(j =~= Seq::<char>::empty());
            assert(commands_of(split_on(j, ';')) =~= r.init_commands);
        } else {
            lemma_split_join(r.init_commands, ';');
            if r.init_commands.len() == 1 && r.init_commands[0].len() == 0 {
                assert(r.init_commands =~= seq![Seq::<char>::empty()]);
            }
        }
    }
}

impl Workspace {
    pub fn new(name: String, path: String, shell: String, init_commands: Vec<String>) -> (r:
        Workspace)
        ensures
            r.name == name,
            r.path == path,
            r.shell == shell,
            r.init_commands == init_commands,
    {
        Workspace { name, path, shell, init_commands }
    }

    /// The record's line in the workspace file, without the line break.
    pub fn encode(&self) -> (r: String)
        ensures
            r@ == encode_record(self@),
    {
        let sep = ";";
        proof {
            reveal_strlit(";");
            assert(sep@ =~= seq![';']);
        }
        let mut line = self.name.clone();
        line.append(sep);
        line.append(self.path.as_str());
        line.append(sep);
        line.append(self.shell.as_str());
        line.append(sep);
        let cmds = join_text(&self.init_commands, sep);
        line.append(cmds.as_str());
        line
    }

    /// Reads a record from one line; `None` when the line has fewer than three fields.
    pub fn decode(line: &str) -> (r: Option<Workspace>)
        ensures
            match r {
                Some(w) => decode_record(line@) == Some(w@),
                None => decode_record(line@) is None,
            },
    {
        let mut fields = split_text(line, ';');
        if fields.len() < 3 {
            return None;
        }
        let ghost f = views(fields@);
        let mut tail = fields.split_off(3);
        if tail.len() == 1 && tail[0].unicode_len() == 0 {
            tail = Vec::new();
        }
        let shell = fields.pop().unwrap();
        let path = fields.pop().unwrap();
        let name = fields.pop().unwrap();
        let w = Workspace { name, path, shell, init_commands: tail };
        assert(views(w.init_commands@) =~= commands_of(f.subrange(3, f.len() as int)));
        Some(w)
    }
}

impl Clone for Workspace {
    fn clone(&self) -> (r: Self)
        ensures
            r@ == self@,
    {
        let cmds = copy_strings(&self.init_commands);
        Workspace {
            name: self.name.clone(),
            path: self.path.clone(),
            shell: self.shell.clone(),
            init_commands: cmds,
        }
    }
}

impl PartialEq for Workspace {
    fn eq(&self, other: &Workspace) -> (r: bool) {
        self.name == other.name && self.path == other.path
    }
}

impl vstd::std_specs::cmp::PartialEqSpecImpl for Workspace {
    open spec fn obeys_eq_spec() -> bool {
        true
    }

    open spec fn eq_spec(&self, other: &Workspace) -> bool {
        same_identity(self@, other@)
    }
}

/// What the store's file must become after an operation.
#[derive(Debug)]
pub enum FileUpdate {
    /// Add this text at the end of the file.
    Append(String),
    /// Replace the whole file by this text.
    Replace(String),
}

/// The file's text after `u` is applied to `text`.
pub open spec fn updated_text(text: Seq<char>, u: FileUpdate) -> Seq<char> {
    match u {
        FileUpdate::Append(s) => text + s@,
        FileUpdate::Replace(s) => s@,
    }
}

pub open spec fn record_views(ws: Seq<Workspace>) -> Seq<RecordView> {
    ws.map_values(|w: Workspace| w@)
}

pub open spec fn option_view(o: Option<Workspace>) -> Option<RecordView> {
    match o {
        Some(w) => Some(w@),
        None => None,
    }
}

/// A record's line in the file, line break included.
pub open spec fn line_of(r: RecordView) -> Seq<char> {
    encode_record(r) + seq!['\n']
}

/// The file text that holds exactly these records, in order.
pub open spec fn render(rs: Seq<RecordView>) -> Seq<char>
    decreases rs.len(),
{
    if rs.len() == 0 {
        Seq::empty()
    } else {
        render(rs.drop_last()) + line_of(rs.last())
    }
}

/// The lines of a file; a final line break ends the last line and starts no new one.
pub open spec fn lines_of(text: Seq<char>) -> Seq<Seq<char>> {
    let pieces = split_on(text, '\n');
    if pieces.last().len() == 0 {
        pieces.drop_last()
    } else {
        pieces
    }
}

/// The first line that does not decode.
pub open spec fn first_bad_line(lines: Seq<Seq<char>>) -> Option<Seq<char>>
    decreases lines.len(),
{
    if lines.len() == 0 {
        None
    } else {
        match first_bad_line(lines.drop_last()) {
            Some(l) => Some(l),
            None => if decode_record(lines.last()) is None {
                Some(lines.last())
            } else {
                None
            },
        }
    }
}

/// The error message for a line that does not decode.
pub open spec fn malformed_message(line: Seq<char>) -> Seq<char> {
    "Malformed line in the workspace file: "@ + line
}

pub open spec fn decode_lines(lines: Seq<Seq<char>>) -> Option<Seq<RecordView>>
    decreases lines.len(),
{
    if lines.len() == 0 {
        Some(Seq::empty())
    } else {
        match (decode_lines(lines.drop_last()), decode_record(lines.last())) {
            (Some(rs), Some(r)) => Some(rs.push(r)),
            _ => None,
        }
    }
}

/// The records a file holds, or `None` when one of its lines does not decode.
pub open spec fn parse_file(text: Seq<char>) -> Option<Seq<RecordView>> {
    decode_lines(lines_of(text))
}

/// The first record, in store order, whose directory holds `cwd`.
pub open spec fn active_record(rs: Seq<RecordView>, cwd: Option<Seq<char>>) -> Option<RecordView>
    decreases rs.len(),
{
    if rs.len() == 0 || cwd is None {
        None
    } else {
        match active_record(rs.drop_last(), cwd) {
            Some(r) => Some(r),
            None => if is_within(rs.last().path, cwd->0) {
                Some(rs.last())
            } else {
                None
            },
        }
    }
}

/// The active record is the first, in store order, whose directory holds the
/// current directory; there is none when no directory holds it.
pub proof fn lemma_active_is_first_match(rs: Seq<RecordView>, cwd: Seq<char>)
    ensures
        active_record(rs, Some(cwd)) matches Some(r) ==> exists|i: int|
            0 <= i < rs.len() && rs[i] == r && is_within(r.path, cwd) && forall|j: int|
                0 <= j < i ==> !is_within(#[trigger] rs[j].path, cwd),
        active_record(rs, Some(cwd)) is None ==> forall|j: int|
            0 <= j < rs.len() ==> !is_within(#[trigger] rs[j].path, cwd),
    decreases rs.len(),
{
    if rs.len() > 0 {
        let init = rs.drop_last();
        lemma_active_is_first_match(init, cwd);
        match active_record(init, Some(cwd)) {
            Some(r) => {
                let i = choose|i: int|
                    0 <= i < init.len() && init[i] == r && is_within(r.path, cwd) && forall|j: int|
                        0 <= j < i ==> !is_within(#[trigger] init[j].path, cwd);
                assert(rs[i] == r);
                assert forall|j: int| 0 <= j < i implies !is_within(#[trigger] rs[j].path, cwd) by {
                    assert(rs[j] == init[j]);
                }
            },
            None => {
                assert forall|j: int| 0 <= j < init.len() implies !is_within(
                    #[trigger] rs[j].path,
                    cwd,
                ) by {
                    assert(rs[j] == init[j]);
                }
                if is_within(rs.last().path, cwd) {
                    assert(rs[rs.len() - 1] == rs.last());
                }
            },
        }
    }
}

pub open spec fn has_identity(rs: Seq<RecordView>, r: RecordView) -> bool {
    exists|i: int| 0 <= i < rs.len() && same_identity(#[trigger] rs[i], r)
}

/// The records that are not the workspace `r`, in order.
pub open spec fn without(rs: Seq<RecordView>, r: RecordView) -> Seq<RecordView>
    decreases rs.len(),
{
    if rs.len() == 0 {
        Seq::empty()
    } else if same_identity(rs.last(), r) {
        without(rs.drop_last(), r)
    } else {
        without(rs.drop_last(), r).push(rs.last())
    }
}

pub open spec fn str_option_view(o: Option<&str>) -> Option<Seq<char>> {
    match o {
        Some(s) => Some(s@),
        None => None,
    }
}

/// The in-memory workspaces, the file they were read from, and the workspace
/// that holds the current directory when they were read.
#[derive(Debug)]
pub struct Workspaces {
    pub active_workspace: Option<Workspace>,
    pub workspaces: Vec<Workspace>,
    pub workspace_file: String,
}

/// The file text holding these workspaces.
pub fn render_text(ws: &Vec<Workspace>) -> (r: String)
    ensures
        r@ == render(record_views(ws@)),
{
    let nl = "\n";
    proof {
        reveal_strlit("\n");
        assert(nl@ =~= seq!['\n']);
    }
    let mut out = String::new();
    let mut i: usize = 0;
    while i < ws.len()
        invariant
            i <= ws@.len(),
            nl@ == seq!['\n'],
            out@ == render(record_views(ws@.subrange(0, i as int))),
        decreases ws@.len() - i,
    {
        let line = ws[i].encode();
        out.append(line.as_str());
        out.append(nl);
        i = i + 1;
        assert(record_views(ws@.subrange(0, i as int)).drop_last() =~= record_views(
            ws@.subrange(0, i - 1),
        ));
    }
    assert(ws@.subrange(0, ws@.len() as int) =~= ws@);
    out
}

proof fn lemma_first_bad_line_extends(lines: Seq<Seq<char>>, j: int)
    requires
        0 <= j <= lines.len(),
        first_bad_line(lines.subrange(0, j)) is Some,
    ensures
        first_bad_line(lines) == first_bad_line(lines.subrange(0, j)),
    decreases lines.len(),
{
    if j < lines.len() {
        assert(lines.drop_last().subrange(0, j) =~= lines.subrange(0, j));
        lemma_first_bad_line_extends(lines.drop_last(), j);
    } else {
        assert(lines.subrange(0, j) =~= lines);
    }
}

proof fn lemma_decode_lines_prefix(lines: Seq<Seq<char>>, j: int)
    requires
        0 <= j <= lines.len(),
        decode_lines(lines) is Some,
    ensures
        decode_lines(lines.subrange(0, j)) is Some,
    decreases lines.len(),
{
    if j == lines.len() {
        assert(lines.subrange(0, j) =~= lines);
    } else {
        lemma_decode_lines_prefix(lines.drop_last(), j);
        assert(lines.drop_last().subrange(0, j) =~= lines.subrange(0, j));
    }
}

/// Reads the store from the text of its file. `current_dir` is the process's
/// working directory, when known; the first workspace that holds it is active.
pub fn read_from_file(file_path: &str, contents: &str, current_dir: Option<&str>) -> (r: Result<
    Workspaces,
    WorkspaceError,
>)
    ensures
        match r {
            Ok(ws) => {
                &&& parse_file(contents@) == Some(record_views(ws.workspaces@))
                &&& ws.workspace_file@ == file_path@
                &&& option_view(ws.active_workspace) == active_record(
                    record_views(ws.workspaces@),
                    str_option_view(current_dir),
                )
            },
            Err(e) => {
                &&& parse_file(contents@) is None
                &&& e.kind == ErrorKind::MalformedRecord
                &&& e.severity == Severity::Error
                &&& first_bad_line(lines_of(contents@)) matches Some(line)
                    && e.message@ == malformed_message(line)
            },
        },
{
    let pieces = split_text(contents, '\n');
    let ghost all = views(pieces@);
    proof {
        crate::text::lemma_split_nonempty(contents@, '\n');
    }
    let mut n = pieces.len();
    if pieces[n - 1].unicode_len() == 0 {
        n = n - 1;
    }
    let ghost lines = lines_of(contents@);
    assert(lines =~= all.subrange(0, n as int));
    let ghost cwd = str_option_view(current_dir);
    let mut records: Vec<Workspace> = Vec::new();
    let mut active: Option<Workspace> = None;
    let mut i: usize = 0;
    assert(lines.subrange(0, 0) =~= Seq::<Seq<char>>::empty());
    assert(record_views(records@) =~= Seq::<RecordView>::empty());
    while i < n
        invariant
            n <= pieces@.len(),
            all == views(pieces@),
            lines == all.subrange(0, n as int),
            lines == lines_of(contents@),
            cwd == str_option_view(current_dir),
            i <= n,
            decode_lines(lines.subrange(0, i as int)) == Some(record_views(records@)),
            first_bad_line(lines.subrange(0, i as int)) is None,
            option_view(active) == active_record(record_views(records@), cwd),
        decreases n - i,
    {
        let ghost before = record_views(records@);
        assert(lines.subrange(0, i + 1).drop_last() =~= lines.subrange(0, i as int));
        assert(lines.subrange(0, i + 1).last() == pieces@[i as int]@);
        match Workspace::decode(pieces[i].as_str()) {
            None => {
                proof {
                    assert(decode_record(lines.subrange(0, i + 1).last()) is None);
                    assert(decode_lines(lines.subrange(0, i + 1)) is None);
                    if decode_lines(lines) is Some {
                        lemma_decode_lines_prefix(lines, i + 1);
                    }
                    assert(first_bad_line(lines.subrange(0, i + 1)) == Some(pieces@[i as int]@));
                    lemma_first_bad_line_extends(lines, i + 1);
                }
                let mut message = String::from_str("Malformed line in the workspace file: ");
                message.append(pieces[i].as_str());
                assert(message@ == malformed_message(pieces@[i as int]@));
                return Err(WorkspaceError::new(ErrorKind::MalformedRecord, message, Severity::Error));
            },
            Some(w) => {
                if active.is_none() {
                    if let Some(c) = current_dir {
                        if dir_contains(w.path.as_str(), c) {
                            active = Some(w.clone());
                        }
                    }
                }
                records.push(w);
                assert(record_views(records@) =~= before.push(w@));
                assert(record_views(records@).drop_last() =~= before);
            },
        }
        i = i + 1;
    }
    assert(lines.subrange(0, n as int) =~= lines);
    Ok(Workspaces { active_workspace: active, workspaces: records, workspace_file: String::from_str(file_path) })
}

/// The records whose name is not `name`, in order.
pub open spec fn without_name(rs: Seq<RecordView>, name: Seq<char>) -> Seq<RecordView>
    decreases rs.len(),
{
    if rs.len() == 0 {
        Seq::empty()
    } else if rs.last().name == name {
        without_name(rs.drop_last(), name)
    } else {
        without_name(rs.drop_last(), name).push(rs.last())
    }
}

/// The workspaces other than `w` (by name and directory), in order.
pub fn others_than(ws: &Vec<Workspace>, w: &Workspace) -> (r: Vec<Workspace>)
    ensures
        record_views(r@) == without(record_views(ws@), w@),
{
    let mut kept: Vec<Workspace> = Vec::new();
    let mut i: usize = 0;
    while i < ws.len()
        invariant
            i <= ws@.len(),
            record_views(kept@) == without(record_views(ws@.subrange(0, i as int)), w@),
        decreases ws@.len() - i,
    {
        let ghost before = record_views(kept@);
        assert(record_views(ws@.subrange(0, i + 1)).drop_last() =~= record_views(
            ws@.subrange(0, i as int),
        ));
        if !(ws[i].name == w.name && ws[i].path == w.path) {
            kept.push(ws[i].clone());
            assert(record_views(kept@) =~= before.push(ws@[i as int]@));
        }
        i = i + 1;
    }
    assert(ws@.subrange(0, ws@.len() as int) =~= ws@);
    kept
}

/// The workspaces not named `name`, in order.
pub fn others_than_name(ws: &Vec<Workspace>, name: &str) -> (r: Vec<Workspace>)
    ensures
        record_views(r@) == without_name(record_views(ws@), name@),
{
    let target = String::from_str(name);
    let mut kept: Vec<Workspace> = Vec::new();
    let mut i: usize = 0;
    while i < ws.len()
        invariant
            i <= ws@.len(),
            target@ == name@,
            record_views(kept@) == without_name(record_views(ws@.subrange(0, i as int)), name@),
        decreases ws@.len() - i,
    {
        let ghost before = record_views(kept@);
        assert(record_views(ws@.subrange(0, i + 1)).drop_last() =~= record_views(
            ws@.subrange(0, i as int),
        ));
        if !(ws[i].name == target) {
            kept.push(ws[i].clone());
            assert(record_views(kept@) =~= before.push(ws@[i as int]@));
        }
        i = i + 1;
    }
    assert(ws@.subrange(0, ws@.len() as int) =~= ws@);
    kept
}

/// Whether a workspace with the same name and directory as `w` is among `ws`.
pub fn holds_identity(ws: &Vec<Workspace>, w: &Workspace) -> (r: bool)
    ensures
        r == has_identity(record_views(ws@), w@),
{
    let mut i: usize = 0;
    while i < ws.len()
        invariant
            i <= ws@.len(),
            forall|j: int| 0 <= j < i ==> !same_identity(#[trigger] record_views(ws@)[j], w@),
        decreases ws@.len() - i,
    {
        if ws[i].name == w.name && ws[i].path == w.path {
            assert(same_identity(record_views(ws@)[i as int], w@));
            return true;
        }
        i = i + 1;
    }
    false
}

impl Workspaces {
    /// The change to the file that adding `workspace` makes: its line at the end.
    /// Fails, and asks for no change, when a workspace with the same name and
    /// directory is stored.
    pub fn add_to_file(&self, workspace: &Workspace) -> (r: Result<FileUpdate, WorkspaceError>)
        ensures
            match r {
                Ok(u) => !has_identity(record_views(self.workspaces@), workspace@) && (u
                    matches FileUpdate::Append(s) && s@ == line_of(workspace@)),
                Err(e) => {
                    &&& has_identity(record_views(self.workspaces@), workspace@)
                    &&& e.kind == ErrorKind::DuplicateWorkspace
                    &&& e.message@ == "Workspace already exists"@
                    &&& e.severity == Severity::Error
                },
            },
    {
        if holds_identity(&self.workspaces, workspace) {
            return Err(
                WorkspaceError::new(
                    ErrorKind::DuplicateWorkspace,
                    String::from_str("Workspace already exists"),
                    Severity::Error,
                ),
            );
        }
        let mut line = workspace.encode();
        let nl = "\n";
        proof {
            reveal_strlit("\n");
            assert(nl@ =~= seq!['\n']);
        }
        line.append(nl);
        Ok(FileUpdate::Append(line))
    }

    /// Stores `workspace` after the others and returns the line to append to the
    /// file. A duplicate (same name and directory) changes nothing.
    pub fn add(&mut self, workspace: Workspace) -> (r: Result<FileUpdate, WorkspaceError>)
        ensures
            match r {
                Ok(u) => {
                    &&& !has_identity(record_views(old(self).workspaces@), workspace@)
                    &&& record_views(final(self).workspaces@) == record_views(
                        old(self).workspaces@,
                    ).push(workspace@)
                    &&& u matches FileUpdate::Append(s) && s@ == line_of(workspace@)
                    &&& final(self).active_workspace == old(self).active_workspace
                    &&& final(self).workspace_file == old(self).workspace_file
                },
                Err(e) => {
                    &&& has_identity(record_views(old(self).workspaces@), workspace@)
                    &&& e.kind == ErrorKind::DuplicateWorkspace
                    &&& e.message@ == "Workspace already exists"@
                    &&& e.severity == Severity::Error
                    &&& *final(self) == *old(self)
                },
            },
    {
        let update = self.add_to_file(&workspace);
        match update {
            Ok(u) => {
                let ghost before = record_views(self.workspaces@);
                self.workspaces.push(workspace);
                assert(record_views(self.workspaces@) =~= before.push(workspace@));
                Ok(u)
            },
            Err(e) => Err(e),
        }
    }

    /// Drops every stored workspace with the name and directory of `workspace`
    /// and returns the whole new file. Nothing to drop is no error.
    pub fn remove_from_file(&mut self, workspace: &Workspace) -> (u: FileUpdate)
        ensures
            record_views(final(self).workspaces@) == without(
                record_views(old(self).workspaces@),
                workspace@,
            ),
            u matches FileUpdate::Replace(s) && s@ == render(record_views(final(self).workspaces@)),
            final(self).active_workspace == old(self).active_workspace,
            final(self).workspace_file == old(self).workspace_file,
    {
        let kept = others_than(&self.workspaces, workspace);
        let text = render_text(&kept);
        self.workspaces = kept;
        FileUpdate::Replace(text)
    }

    /// Forgets every workspace and the active one; the file becomes empty.
    pub fn clear(&mut self) -> (u: FileUpdate)
        ensures
            final(self).workspaces@.len() == 0,
            final(self).active_workspace is None,
            final(self).workspace_file == old(self).workspace_file,
            u matches FileUpdate::Replace(s) && s@ == Seq::<char>::empty(),
            parse_file(Seq::empty()) == Some(Seq::<RecordView>::empty()),
    {
        proof {
            lemma_clear_then_reload();
        }
        self.workspaces.clear();
        self.active_workspace = None;
        FileUpdate::Replace(String::new())
    }
}

/// No field of the record holds a line break.
pub open spec fn single_line(r: RecordView) -> bool {
    &&& free_of(r.name, '\n')
    &&& free_of(r.path, '\n')
    &&& free_of(r.shell, '\n')
    &&& forall|i: int| 0 <= i < r.init_commands.len() ==> free_of(#[trigger] r.init_commands[i], '\n')
}

proof fn lemma_free_concat(a: Seq<char>, b: Seq<char>, c: char)
    requires
        free_of(a, c),
        free_of(b, c),
    ensures
        free_of(a + b, c),
{
    assert forall|i: int| 0 <= i < (a + b).len() implies (a + b)[i] != c by {
        if i < a.len() {
            assert((a + b)[i] == a[i]);
        } else {
            assert((a + b)[i] == b[i - a.len()]);
        }
    }
}

proof fn lemma_join_free(parts: Seq<Seq<char>>, sep: Seq<char>, c: char)
    requires
        free_of(sep, c),
        forall|i: int| 0 <= i < parts.len() ==> free_of(#[trigger] parts[i], c),
    ensures
        free_of(join_with(parts, sep), c),
    decreases parts.len(),
{
    if parts.len() > 1 {
        lemma_join_free(parts.drop_last(), sep, c);
        lemma_free_concat(join_with(parts.drop_last(), sep), sep, c);
        lemma_free_concat(join_with(parts.drop_last(), sep) + sep, parts.last(), c);
    }
}

/// A single-line record's encoding has no line break.
proof fn lemma_encoding_single_line(r: RecordView)
    requires
        single_line(r),
    ensures
        free_of(encode_record(r), '\n'),
{
    let s = seq![';'];
    lemma_join_free(r.init_commands, s, '\n');
    lemma_free_concat(r.name, s, '\n');
    lemma_free_concat(r.name + s, r.path, '\n');
    lemma_free_concat(r.name + s + r.path, s, '\n');
    lemma_free_concat(r.name + s + r.path + s, r.shell, '\n');
    lemma_free_concat(r.name + s + r.path + s + r.shell, s, '\n');
    lemma_free_concat(r.name + s + r.path + s + r.shell + s, join_with(r.init_commands, s), '\n');
}

/// Text that is empty or ends with a line break.
pub open spec fn ends_lines(text: Seq<char>) -> bool {
    text.len() == 0 || text.last() == '\n'
}

/// Appending one line to a file of whole lines adds exactly that line.
proof fn lemma_lines_append(text: Seq<char>, line: Seq<char>)
    requires
        ends_lines(text),
        free_of(line, '\n'),
    ensures
        lines_of(text + line + seq!['\n']) == lines_of(text).push(line),
{
    let nl = seq!['\n'];
    let e = Seq::<char>::empty();
    lemma_split_free(line, '\n');
    lemma_split_concat(text + line, e, '\n');
    assert(text + line + nl + e =~= text + line + nl);
    if text.len() == 0 {
        assert(text + line =~= line);
        assert(split_on(text + line + nl, '\n') =~= seq![line, e]);
        assert(split_on(text, '\n') =~= seq![e]);
        assert(lines_of(text) =~= Seq::<Seq<char>>::empty());
        assert(lines_of(text + line + nl) =~= seq![line]);
    } else {
        let t0 = text.drop_last();
        assert(t0 + nl =~= text);
        lemma_split_concat(t0, line, '\n');
        lemma_split_concat(t0, e, '\n');
        assert(t0 + nl + e =~= text);
        assert(t0 + nl + line =~= text + line);
        assert(lines_of(text) =~= split_on(t0, '\n'));
        assert(lines_of(text + line + nl) =~= split_on(t0, '\n').push(line));
    }
}

/// A rendered file ends with a line break, unless it is empty.
proof fn lemma_render_ends_lines(rs: Seq<RecordView>)
    ensures
        ends_lines(render(rs)),
{
    if rs.len() > 0 {
        let t = render(rs.drop_last()) + line_of(rs.last());
        assert(t.last() == '\n');
    }
}

/// What goes before an appended line: a line break when the file's last line
/// has none.
pub open spec fn line_start(text: Seq<char>) -> Seq<char> {
    if ends_lines(text) {
        Seq::empty()
    } else {
        seq!['\n']
    }
}

/// Ending an unfinished last line adds no line.
proof fn lemma_close_last_line(text: Seq<char>)
    ensures
        ends_lines(text + line_start(text)),
        lines_of(text + line_start(text)) == lines_of(text),
{
    if !ends_lines(text) {
        let nl = seq!['\n'];
        let e = Seq::<char>::empty();
        lemma_split_concat(text, e, '\n');
        assert(text + nl + e =~= text + nl);
        crate::text::lemma_split_nonempty(text.drop_last(), '\n');
        assert(split_on(text, '\n').last().len() > 0);
        assert(lines_of(text + nl) =~= split_on(text, '\n'));
    } else {
        assert(text + line_start(text) =~= text);
    }
}

/// Once `add` has succeeded, reading back the file with the added line yields
/// the earlier records followed by a record with the added workspace's name,
/// directory and shell; when the record round-trips, the added record itself.
pub proof fn lemma_add_then_reload(text: Seq<char>, stored: Seq<RecordView>, r: RecordView)
    requires
        parse_file(text) == Some(stored),
        free_of(r.name, ';'),
        free_of(r.path, ';'),
        free_of(r.shell, ';'),
        single_line(r),
    ensures
        parse_file(text + line_start(text) + line_of(r)) matches Some(rs) && {
            &&& rs.len() == stored.len() + 1
            &&& rs.drop_last() == stored
            &&& same_identity(rs.last(), r)
            &&& rs.last().shell == r.shell
            &&& round_trips(r) ==> rs.last() == r
        },
{
    let closed = text + line_start(text);
    lemma_close_last_line(text);
    lemma_encoding_single_line(r);
    lemma_lines_append(closed, encode_record(r));
    lemma_decode_encode(r);
    let lines = lines_of(closed).push(encode_record(r));
    assert(closed + line_of(r) =~= closed + encode_record(r) + seq!['\n']);
    assert(lines.drop_last() =~= lines_of(text));
}

/// A file rendered from records that round-trip and hold no line break reads
/// back as exactly those records.
pub proof fn lemma_render_then_parse(rs: Seq<RecordView>)
    requires
        forall|i: int| 0 <= i < rs.len() ==> round_trips(#[trigger] rs[i]) && single_line(rs[i]),
    ensures
        parse_file(render(rs)) == Some(rs),
    decreases rs.len(),
{
    if rs.len() == 0 {
        assert(split_on(Seq::<char>::empty(), '\n') =~= seq![Seq::<char>::empty()]);
        assert(lines_of(Seq::<char>::empty()) =~= Seq::<Seq<char>>::empty());
    } else {
        let init = rs.drop_last();
        let r = rs.last();
        assert(round_trips(rs[rs.len() - 1]) && single_line(rs[rs.len() - 1]));
        lemma_render_then_parse(init);
        lemma_render_ends_lines(init);
        lemma_encoding_single_line(r);
        lemma_lines_append(render(init), encode_record(r));
        lemma_decode_encode(r);
        let lines = lines_of(render(init)).push(encode_record(r));
        assert(render(init) + line_of(r) =~= render(init) + encode_record(r) + seq!['\n']);
        assert(lines.drop_last() =~= lines_of(render(init)));
        assert(init.push(r) =~= rs);
    }
}

proof fn lemma_without_lacks(rs: Seq<RecordView>, r: RecordView)
    ensures
        !has_identity(without(rs, r), r),
        without(without(rs, r), r) == without(rs, r),
    decreases rs.len(),
{
    if rs.len() > 0 {
        lemma_without_lacks(rs.drop_last(), r);
        let w0 = without(rs.drop_last(), r);
        if !same_identity(rs.last(), r) {
            let w = w0.push(rs.last());
            assert(w.drop_last() =~= w0);
            assert forall|i: int| 0 <= i < w.len() implies !same_identity(#[trigger] w[i], r) by {
                if i < w0.len() {
                    assert(w[i] == w0[i]);
                }
            }
        }
    }
}

/// Removing a workspace a second time changes nothing: the records, and so the
/// file text written, are those of the first removal, and none of them is the
/// removed workspace.
pub proof fn lemma_remove_twice(rs: Seq<RecordView>, r: RecordView)
    ensures
        without(without(rs, r), r) == without(rs, r),
        render(without(without(rs, r), r)) == render(without(rs, r)),
        !has_identity(without(rs, r), r),
{
    lemma_without_lacks(rs, r);
}

/// The empty file, which `clear` leaves, reads back as no workspaces.
pub proof fn lemma_clear_then_reload()
    ensures
        parse_file(Seq::empty()) == Some(Seq::<RecordView>::empty()),
{
    lemma_render_then_parse(Seq::empty());
}

/// The init run of a workspace: each init command through the platform's
/// interpreter in the workspace directory, then its shell there.
pub open spec fn init_session_of(s: InitSession, r: RecordView, platform: Platform) -> bool {
    &&& s.wf()
    &&& s.phase == Phase::Idle
    &&& !s.fail_fast
    &&& s.name@ == r.name
    &&& s.path@ == r.path
    &&& s.commands@.len() == r.init_commands.len()
    &&& forall|i: int|
        0 <= i < r.init_commands.len() ==> (#[trigger] s.commands@[i])@ == init_command_invocation(
            platform,
            r.path,
            r.init_commands[i],
        )
    &&& s.shell@ == interactive_invocation(convention_of(r.shell), r.path)
}

impl Workspace {
    /// The run that initializes this workspace: its init commands in order,
    /// then an interactive shell in its directory.
    pub fn init(&self, platform: Platform) -> (r: InitSession)
        ensures
            init_session_of(r, self@, platform),
    {
        let mut commands: Vec<Invocation> = Vec::new();
        let mut i: usize = 0;
        while i < self.init_commands.len()
            invariant
                i <= self.init_commands@.len(),
                commands@.len() == i,
                forall|j: int|
                    0 <= j < i ==> (#[trigger] commands@[j])@ == init_command_invocation(
                        platform,
                        self.path@,
                        self.init_commands@[j]@,
                    ),
            decreases self.init_commands@.len() - i,
        {
            commands.push(init_command(platform, self.path.as_str(), self.init_commands[i].as_str()));
            i = i + 1;
        }
        let shell = Shell::new(self.path.as_str(), self.shell.as_str()).get_input();
        InitSession::new(self.name.clone(), self.path.clone(), commands, shell)
    }
}

impl Workspaces {
    /// The init runs of all stored workspaces, in store order.
    pub fn init(&self, platform: Platform) -> (r: Vec<InitSession>)
        ensures
            r@.len() == self.workspaces@.len(),
            forall|i: int|
                0 <= i < r@.len() ==> init_session_of(
                    #[trigger] r@[i],
                    self.workspaces@[i]@,
                    platform,
                ),
    {
        let mut runs: Vec<InitSession> = Vec::new();
        let mut i: usize = 0;
        while i < self.workspaces.len()
            invariant
                i <= self.workspaces@.len(),
                runs@.len() == i,
                forall|j: int|
                    0 <= j < i ==> init_session_of(#[trigger] runs@[j], self.workspaces@[j]@, platform),
            decreases self.workspaces@.len() - i,
        {
            runs.push(self.workspaces[i].init(platform));
            i = i + 1;
        }
        runs
    }
}

/// The first record, in store order, with this name.
pub open spec fn first_named(rs: Seq<RecordView>, name: Seq<char>) -> Option<RecordView>
    decreases rs.len(),
{
    if rs.len() == 0 {
        None
    } else {
        match first_named(rs.drop_last(), name) {
            Some(r) => Some(r),
            None => if rs.last().name == name {
                Some(rs.last())
            } else {
                None
            },
        }
    }
}

proof fn lemma_first_named_extends(rs: Seq<RecordView>, name: Seq<char>, j: int)
    requires
        0 <= j <= rs.len(),
        first_named(rs.subrange(0, j), name) is Some,
    ensures
        first_named(rs, name) == first_named(rs.subrange(0, j), name),
    decreases rs.len(),
{
    if j < rs.len() {
        assert(rs.drop_last().subrange(0, j) =~= rs.subrange(0, j));
        lemma_first_named_extends(rs.drop_last(), name, j);
    } else {
        assert(rs.subrange(0, j) =~= rs);
    }
}

/// The position of the first workspace named `name`.
pub fn find_named(ws: &Vec<Workspace>, name: &str) -> (r: Option<usize>)
    ensures
        match r {
            Some(i) => i < ws@.len() && first_named(record_views(ws@), name@) == Some(ws@[i as int]@),
            None => first_named(record_views(ws@), name@) is None,
        },
{
    let target = String::from_str(name);
    let ghost rs = record_views(ws@);
    let mut i: usize = 0;
    assert(rs.subrange(0, 0) =~= Seq::<RecordView>::empty());
    while i < ws.len()
        invariant
            i <= ws@.len(),
            target@ == name@,
            rs == record_views(ws@),
            first_named(rs.subrange(0, i as int), name@) is None,
        decreases ws@.len() - i,
    {
        assert(rs.subrange(0, i + 1).drop_last() =~= rs.subrange(0, i as int));
        if ws[i].name == target {
            proof {
                lemma_first_named_extends(rs, name@, i + 1);
            }
            return Some(i);
        }
        i = i + 1;
    }
    assert(rs.subrange(0, ws@.len() as int) =~= rs);
    None
}

} // verus!
