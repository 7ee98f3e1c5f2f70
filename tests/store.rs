use workspace_mgr::workspaces::{render_text, Workspace, Workspaces};
use workspace_mgr::{ErrorKind, FileUpdate};

fn empty_store() -> Workspaces {
    workspace_mgr::read_from_file("test_workspaces.txt", "", None).unwrap()
}

fn ws(name: &str, path: &str, shell: &str, cmds: &[&str]) -> Workspace {
    Workspace::new(
        name.to_string(),
        path.to_string(),
        shell.to_string(),
        cmds.iter().map(|c| c.to_string()).collect(),
    )
}

fn appended(text: &str, u: &FileUpdate) -> String {
    match u {
        FileUpdate::Append(s) => format!("{}{}", text, s),
        FileUpdate::Replace(s) => s.clone(),
    }
}

#[test]
fn add() {
    let mut workspaces = empty_store();
    let workspace = Workspace::new("test".to_string(), "test".to_string(), "cmd".to_string(), vec![]);
    let _ = workspaces.add(workspace.clone());

    assert_eq!(workspaces.workspaces[0], workspace);
}

#[test]
fn remove() {
    let mut workspaces = empty_store();
    let workspace = Workspace::new("test".to_string(), "test".to_string(), "cmd".to_string(), vec![]);
    let _ = workspaces.add(workspace.clone());
    workspaces.remove_from_file(&workspace);

    assert_eq!(workspaces.workspaces.len(), 0);
}

#[test]
fn read_from_file() {
    let workspaces = empty_store();
    assert_eq!(workspaces.workspaces.len(), 0);
}

#[test]
fn load_keeps_file_order_and_path() {
    let text = "a;/a;sh;echo 1\nb;/b;bash\n";
    let store = workspace_mgr::read_from_file("/tmp/w.txt", text, None).unwrap();
    assert_eq!(store.workspace_file, "/tmp/w.txt");
    assert_eq!(store.workspaces.len(), 2);
    assert_eq!(store.workspaces[0].name, "a");
    assert_eq!(store.workspaces[0].init_commands, vec!["echo 1".to_string()]);
    assert_eq!(store.workspaces[1].shell, "bash");
    assert!(store.workspaces[1].init_commands.is_empty());
    assert!(store.active_workspace.is_none());
}

#[test]
fn load_without_final_line_break() {
    let store = workspace_mgr::read_from_file("f", "a;/a;sh;x;y", None).unwrap();
    assert_eq!(store.workspaces.len(), 1);
    assert_eq!(store.workspaces[0].init_commands, vec!["x".to_string(), "y".to_string()]);
}

#[test]
fn malformed_line_fails_the_load() {
    let err = workspace_mgr::read_from_file("f", "a;/a;sh\nbroken;line\n", None).unwrap_err();
    assert_eq!(err.kind, ErrorKind::MalformedRecord);
    let err = workspace_mgr::read_from_file("f", "a;/a;sh\n\nb;/b;sh\n", None).unwrap_err();
    assert_eq!(err.kind, ErrorKind::MalformedRecord);
}

#[test]
fn add_appends_one_line() {
    let mut store = empty_store();
    let u = store.add(ws("proj", "/home/u/proj", "bash", &["echo hi", "ls"])).unwrap();
    match u {
        FileUpdate::Append(s) => assert_eq!(s, "proj;/home/u/proj;bash;echo hi;ls\n"),
        FileUpdate::Replace(_) => panic!("add must append"),
    }
    let u = store.add(ws("e", "/e", "sh", &[])).unwrap();
    match u {
        FileUpdate::Append(s) => assert_eq!(s, "e;/e;sh;\n"),
        FileUpdate::Replace(_) => panic!("add must append"),
    }
}

#[test]
fn add_then_reload_finds_the_record() {
    let text = "a;/a;sh;one\n";
    let mut store = workspace_mgr::read_from_file("f", text, None).unwrap();
    let r = ws("b", "/b", "zsh", &["two", "three"]);
    let u = store.add(r.clone()).unwrap();
    let after = appended(text, &u);
    let reloaded = workspace_mgr::read_from_file("f", &after, None).unwrap();
    assert_eq!(reloaded.workspaces.len(), 2);
    assert_eq!(reloaded.workspaces[0].name, "a");
    assert_eq!(reloaded.workspaces[1], r);
    assert_eq!(reloaded.workspaces[1].shell, "zsh");
    assert_eq!(reloaded.workspaces[1].init_commands, r.init_commands);
}

#[test]
fn duplicate_is_rejected_and_store_unchanged() {
    let mut store = empty_store();
    store.add(ws("a", "/a", "sh", &["x"])).unwrap();
    let err = store.add(ws("a", "/a", "bash", &["y"])).unwrap_err();
    assert_eq!(err.kind, ErrorKind::DuplicateWorkspace);
    assert_eq!(store.workspaces.len(), 1);
    assert_eq!(store.workspaces[0].shell, "sh");
    // same name, other directory: a different workspace
    assert!(store.add(ws("a", "/other", "sh", &[])).is_ok());
    assert_eq!(store.workspaces.len(), 2);
}

#[test]
fn remove_twice_writes_the_same_file() {
    let text = "a;/a;sh;x\nb;/b;sh;y\na;/a;zsh\n";
    let mut store = workspace_mgr::read_from_file("f", text, None).unwrap();
    let target = ws("a", "/a", "sh", &[]);
    let first = match store.remove_from_file(&target) {
        FileUpdate::Replace(s) => s,
        FileUpdate::Append(_) => panic!("remove must rewrite"),
    };
    assert_eq!(first, "b;/b;sh;y\n");
    let second = match store.remove_from_file(&target) {
        FileUpdate::Replace(s) => s,
        FileUpdate::Append(_) => panic!("remove must rewrite"),
    };
    assert_eq!(first, second);
    assert_eq!(store.workspaces.len(), 1);
}

#[test]
fn remove_keeps_same_name_in_other_directory() {
    let mut store = workspace_mgr::read_from_file("f", "a;/a;sh\na;/b;sh\nc;/a;sh\n", None).unwrap();
    store.remove_from_file(&ws("a", "/a", "sh", &[]));
    assert_eq!(store.workspaces.len(), 2);
    assert_eq!(store.workspaces[0].path, "/b");
    assert_eq!(store.workspaces[1].name, "c");
}

#[test]
fn clear_empties_store_and_file() {
    let mut store = workspace_mgr::read_from_file("f", "a;/a;sh\n", Some("/a")).unwrap();
    assert!(store.active_workspace.is_some());
    match store.clear() {
        FileUpdate::Replace(s) => {
            assert_eq!(s.len(), 0);
            let reloaded = workspace_mgr::read_from_file("f", &s, None).unwrap();
            assert!(reloaded.workspaces.is_empty());
        }
        FileUpdate::Append(_) => panic!("clear must rewrite"),
    }
    assert!(store.workspaces.is_empty());
    assert!(store.active_workspace.is_none());
}

#[test]
fn active_is_first_containing_directory() {
    let store = workspace_mgr::read_from_file("f", "ab;/a/b;sh\na;/a;sh\n", Some("/a/b/c")).unwrap();
    assert_eq!(store.active_workspace.unwrap().path, "/a/b");
    let store = workspace_mgr::read_from_file("f", "ab;/a/b;sh\na;/a;sh\n", Some("/x")).unwrap();
    assert!(store.active_workspace.is_none());
}

#[test]
fn active_follows_store_order() {
    let store = workspace_mgr::read_from_file("f", "a;/a;sh\nab;/a/b;sh\n", Some("/a/b/c")).unwrap();
    assert_eq!(store.active_workspace.unwrap().path, "/a");
}

#[test]
fn active_compares_whole_components() {
    let store = workspace_mgr::read_from_file("f", "foo;/foo;sh\n", Some("/foobar")).unwrap();
    assert!(store.active_workspace.is_none());
    let store = workspace_mgr::read_from_file("f", "foo;/foo/;sh\n", Some("/foo")).unwrap();
    assert_eq!(store.active_workspace.unwrap().name, "foo");
    let store = workspace_mgr::read_from_file("f", "rel;foo;sh\n", Some("/foo")).unwrap();
    assert!(store.active_workspace.is_none());
}

#[test]
fn render_text_writes_one_line_per_record() {
    let v = vec![ws("a", "/a", "sh", &["x"]), ws("b", "/b", "bash", &[])];
    assert_eq!(render_text(&v), "a;/a;sh;x\nb;/b;bash;\n");
    assert_eq!(render_text(&Vec::new()), "");
}
