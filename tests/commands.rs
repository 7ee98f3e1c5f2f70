use workspace_mgr::commands::command_dict::{confirmation, delete, help, list, modify};
use workspace_mgr::{
    read_from_file, Command, Config, Effect, EnvVar, ErrorKind, FileUpdate, Platform, Severity,
    Workspaces,
};

fn load(text: &str) -> Workspaces {
    read_from_file("f", text, None).unwrap()
}

fn apply(text: &str, effect: &Effect) -> String {
    match effect {
        Effect::Write(FileUpdate::Append(s)) => format!("{}{}", text, s),
        Effect::Write(FileUpdate::Replace(s)) => s.clone(),
        _ => panic!("expected a file change"),
    }
}

fn listing(text: &str) -> Result<Vec<String>, ErrorKind> {
    let mut store = load(text);
    match Command::run(&mut store, Command::List, Platform::Unix) {
        Ok(Effect::Print(lines)) => Ok(lines),
        Ok(_) => panic!("list must print"),
        Err(e) => Err(e.kind),
    }
}

fn add_cmd(name: &str, path: &str, shell: Option<&str>, text: Option<&str>) -> Command {
    Command::Add {
        name: name.to_string(),
        path: path.to_string(),
        shell: shell.map(|s| s.to_string()),
        text: text.map(|s| s.to_string()),
        command_path: None,
    }
}

#[test]
fn add_modify_delete_scenario() {
    let mut file = String::new();

    let mut store = load(&file);
    let e = Command::run(
        &mut store,
        add_cmd("proj", "/home/u/proj", Some("bash"), Some("echo hi")),
        Platform::Unix,
    )
    .unwrap();
    file = apply(&file, &e);
    let lines = listing(&file).unwrap();
    assert_eq!(lines.len(), 1);
    for part in ["proj", "/home/u/proj", "bash", "echo hi"] {
        assert!(lines[0].contains(part));
    }
    assert_eq!(
        lines[0],
        "Workspace: proj, shell: bash, with working directory: /home/u/proj, runs: echo hi"
    );

    let mut store = load(&file);
    let e = Command::run(
        &mut store,
        Command::Modify {
            name: "proj".to_string(),
            path: "/home/u/proj2".to_string(),
            shell: Some("zsh".to_string()),
            text: Some("echo bye".to_string()),
            command_path: None,
        },
        Platform::Unix,
    )
    .unwrap();
    file = apply(&file, &e);
    let lines = listing(&file).unwrap();
    assert_eq!(lines.len(), 1);
    assert!(lines[0].contains("/home/u/proj2"));
    assert!(lines[0].contains("zsh"));
    assert!(lines[0].contains("echo bye"));
    assert!(!lines[0].contains("bash"));
    assert!(!lines[0].contains("echo hi"));

    let mut store = load(&file);
    let e = Command::run(
        &mut store,
        Command::Delete { name: Some("proj".to_string()), confirm: true },
        Platform::Unix,
    )
    .unwrap();
    file = apply(&file, &e);
    let mut store = load(&file);
    let err = Command::run(&mut store, Command::List, Platform::Unix).unwrap_err();
    assert_eq!(err.message, "No workspaces");
}

#[test]
fn add_uses_default_shell_and_splits_text() {
    let mut store = load("");
    Command::run(&mut store, add_cmd("a", "/a", None, Some("x;y")), Platform::Unix).unwrap();
    assert_eq!(store.workspaces[0].shell, "sh");
    assert_eq!(store.workspaces[0].init_commands, vec!["x".to_string(), "y".to_string()]);
    Command::run(&mut store, add_cmd("b", "/b", None, Some("")), Platform::Windows).unwrap();
    assert_eq!(store.workspaces[1].shell, "cmd");
    assert!(store.workspaces[1].init_commands.is_empty());
}

#[test]
fn add_with_command_file() {
    let mut store = load("");
    let c = Command::Add {
        name: "a".to_string(),
        path: "/a".to_string(),
        shell: Some("sh".to_string()),
        text: None,
        command_path: Some("/a/setup.sh".to_string()),
    };
    Command::run(&mut store, c, Platform::Unix).unwrap();
    assert_eq!(store.workspaces[0].init_commands, vec!["/a/setup.sh".to_string()]);
}

#[test]
fn add_without_commands_is_a_validation_error() {
    let mut store = load("");
    let err = Command::run(&mut store, add_cmd("a", "/a", None, None), Platform::Unix).unwrap_err();
    assert_eq!(err.kind, ErrorKind::Validation);
    assert!(store.workspaces.is_empty());
}

#[test]
fn add_duplicate_command_fails() {
    let mut store = load("a;/a;sh;\n");
    let err = Command::run(&mut store, add_cmd("a", "/a", None, Some("z")), Platform::Unix).unwrap_err();
    assert_eq!(err.kind, ErrorKind::DuplicateWorkspace);
    assert_eq!(store.workspaces.len(), 1);
}

#[test]
fn list_of_empty_store_is_an_error() {
    assert_eq!(listing("").unwrap_err(), ErrorKind::NotFound);
    let store = load("a;/a;sh;x;y\n");
    match list(&store).unwrap() {
        Effect::Print(lines) => {
            assert_eq!(lines, vec!["Workspace: a, shell: sh, with working directory: /a, runs: x, y"])
        }
        _ => panic!("list must print"),
    }
}

#[test]
fn delete_asks_before_deleting() {
    let mut store = load("a;/a;sh\nb;/b;sh\n");
    match delete(&mut store, Some("a".to_string()), false).unwrap() {
        Effect::Confirm(q) => assert_eq!(q, "Are you sure you want to delete workspace a? (y/n) "),
        _ => panic!("expected a question"),
    }
    assert_eq!(store.workspaces.len(), 2);
    match delete(&mut store, None, false).unwrap() {
        Effect::Confirm(q) => assert_eq!(q, "Are you sure you want to clear all workspaces? (y/n) "),
        _ => panic!("expected a question"),
    }
    let e = delete(&mut store, None, true).unwrap();
    assert_eq!(apply("ignored", &e), "");
    assert!(store.workspaces.is_empty());
}

#[test]
fn delete_errors() {
    let mut store = load("");
    assert_eq!(delete(&mut store, Some("a".to_string()), true).unwrap_err().kind, ErrorKind::NotFound);
    let mut store = load("a;/a;sh\n");
    let err = delete(&mut store, Some("zz".to_string()), true).unwrap_err();
    assert_eq!(err.kind, ErrorKind::NotFound);
    assert_eq!(err.message, "Workspace not found");
}

#[test]
fn confirmation_answers() {
    assert!(confirmation("y").is_ok());
    let err = confirmation("n").unwrap_err();
    assert_eq!(err.kind, ErrorKind::CancelledByUser);
    assert_eq!(err.severity, Severity::Message);
    assert!(confirmation("yes").is_err());
}

#[test]
fn modify_errors_leave_store_unchanged() {
    let mut store = load("a;/a;sh;x\nb;/b;sh\n");
    let err = modify(
        &mut store,
        "zz".to_string(),
        "/z".to_string(),
        None,
        Some("q".to_string()),
        None,
        Platform::Unix,
    )
    .unwrap_err();
    assert_eq!(err.kind, ErrorKind::NotFound);
    let err = modify(&mut store, "a".to_string(), "/b".to_string(), None, None, None, Platform::Unix)
        .unwrap_err();
    assert_eq!(err.kind, ErrorKind::Validation);
    assert_eq!(store.workspaces.len(), 2);
    assert_eq!(store.workspaces[0].init_commands, vec!["x".to_string()]);
}

#[test]
fn modify_replaces_every_record_of_that_name() {
    let mut store = load("x;/x;sh\nb;/b;sh\nx;/y;sh\n");
    let e = modify(
        &mut store,
        "x".to_string(),
        "/z".to_string(),
        None,
        Some("".to_string()),
        None,
        Platform::Unix,
    )
    .unwrap();
    assert_eq!(apply("", &e), "b;/b;sh;\nx;/z;sh;\n");
    assert_eq!(store.workspaces.len(), 2);
}

#[test]
fn init_unknown_workspace_is_not_found() {
    let mut store = load("a;/a;sh\n");
    let err = Command::run(&mut store, Command::Init { name: "b".to_string() }, Platform::Unix).unwrap_err();
    assert_eq!(err.kind, ErrorKind::NotFound);
    match Command::run(&mut store, Command::Run { name: "a".to_string() }, Platform::Unix).unwrap() {
        Effect::Launch(s) => assert_eq!(s.path, "/a"),
        _ => panic!("expected an init run"),
    }
}

#[test]
fn run_reads_then_dispatches() {
    let config = Config { command: Command::List, name: None, path: None, args: None };
    match workspace_mgr::run(config, "f", "a;/a;sh\n", None, Platform::Unix).unwrap() {
        Effect::Print(lines) => assert_eq!(lines.len(), 1),
        _ => panic!("list must print"),
    }
    let config = Config { command: Command::List, name: None, path: None, args: None };
    let err = workspace_mgr::run(config, "f", "bad\n", None, Platform::Unix).unwrap_err();
    assert_eq!(err.kind, ErrorKind::MalformedRecord);
}

#[test]
fn help_text() {
    let config = Config {
        command: Command::List,
        name: None,
        path: None,
        args: Some(vec!["help".to_string(), "add".to_string()]),
    };
    assert_eq!(help(&config), "Help for add");
    let config = Config { command: Command::List, name: None, path: None, args: None };
    assert_eq!(help(&config), "Help for all commands");
}

#[test]
fn env_var_names() {
    assert_eq!(EnvVar::SaveDir.to_string(), "SAVE_DIR");
    assert_eq!(EnvVar::WorkspacesFile.to_string(), "WORKSPACES_FILE");
    assert_eq!(EnvVar::TestWorkspacesFile.to_string(), "TEST_WORKSPACES_FILE");
}

#[test]
fn errors_carry_message_and_severity() {
    let mut store = load("");
    let e = list(&store).unwrap_err();
    assert_eq!((e.message.as_str(), e.severity), ("No workspaces", Severity::Error));
    let e = delete(&mut store, None, true).unwrap_err();
    assert_eq!((e.message.as_str(), e.severity), ("No workspaces", Severity::Error));
    let mut store = load("a;/a;sh\n");
    let e = Command::run(&mut store, Command::Init { name: "b".to_string() }, Platform::Unix)
        .unwrap_err();
    assert_eq!((e.message.as_str(), e.severity), ("Workspace not found", Severity::Error));
    let e = Command::run(&mut store, add_cmd("b", "/b", Some("sh"), None), Platform::Unix).unwrap_err();
    assert_eq!(
        (e.message.as_str(), e.severity),
        ("You must provide a value for either text or file based init commands", Severity::Error)
    );
    let e = Command::run(&mut store, add_cmd("a", "/a", None, Some("x")), Platform::Unix).unwrap_err();
    assert_eq!((e.message.as_str(), e.severity), ("Workspace already exists", Severity::Error));
    let e = confirmation("n").unwrap_err();
    assert_eq!(e.message, "Clear cancelled");
    let e = read_from_file("f", "a;/a;sh\nn;/p\nq\n", None).unwrap_err();
    assert_eq!(e.severity, Severity::Error);
    assert_eq!(e.message, "Malformed line in the workspace file: n;/p");
}

#[test]
fn empty_command_file_path_means_no_commands() {
    let mut store = load("");
    let c = Command::Add {
        name: "a".to_string(),
        path: "/a".to_string(),
        shell: None,
        text: None,
        command_path: Some(String::new()),
    };
    Command::run(&mut store, c, Platform::Unix).unwrap();
    assert!(store.workspaces[0].init_commands.is_empty());
}

#[test]
fn add_to_file_without_final_line_break() {
    let text = "a;/a;sh";
    let config = Config { command: add_cmd("b", "/b", None, Some("x")), name: None, path: None, args: None };
    let e = workspace_mgr::run(config, "f", text, None, Platform::Unix).unwrap();
    match &e {
        Effect::Write(FileUpdate::Append(s)) => assert_eq!(s, "\nb;/b;sh;x\n"),
        _ => panic!("add must append"),
    }
    let after = apply(text, &e);
    let store = load(&after);
    assert_eq!(store.workspaces.len(), 2);
    assert_eq!(store.workspaces[0].shell, "sh");
    assert_eq!(store.workspaces[1].name, "b");
    let config = Config { command: add_cmd("c", "/c", None, Some("y")), name: None, path: None, args: None };
    match workspace_mgr::run(config, "f", &after, None, Platform::Unix).unwrap() {
        Effect::Write(FileUpdate::Append(s)) => assert_eq!(s, "c;/c;sh;y\n"),
        _ => panic!("add must append"),
    }
}
