use workspace_mgr::paths::{dir_contains, path_components};
use workspace_mgr::text::{join_text, split_text};
use workspace_mgr::Workspace;

#[test]
fn encode_then_decode_gives_the_record_back() {
    let w = Workspace::new(
        "proj".to_string(),
        "/home/u/proj".to_string(),
        "bash".to_string(),
        vec!["echo hi".to_string(), "".to_string(), "ls -l".to_string()],
    );
    let line = w.encode();
    assert_eq!(line, "proj;/home/u/proj;bash;echo hi;;ls -l");
    let back = Workspace::decode(&line).unwrap();
    assert_eq!(back.name, w.name);
    assert_eq!(back.path, w.path);
    assert_eq!(back.shell, w.shell);
    assert_eq!(back.init_commands, w.init_commands);
}

#[test]
fn empty_command_tail_is_no_commands() {
    let w = Workspace::decode("n;/d;sh;").unwrap();
    assert!(w.init_commands.is_empty());
    let w = Workspace::decode("n;/d;sh").unwrap();
    assert!(w.init_commands.is_empty());
    let w = Workspace::decode("n;/d;sh;;").unwrap();
    assert_eq!(w.init_commands, vec!["".to_string(), "".to_string()]);
}

#[test]
fn short_line_does_not_decode() {
    assert!(Workspace::decode("n;/d").is_none());
    assert!(Workspace::decode("").is_none());
}

#[test]
fn split_and_join() {
    assert_eq!(split_text("a;b;;c", ';'), vec!["a", "b", "", "c"]);
    assert_eq!(split_text("", ';'), vec![""]);
    assert_eq!(split_text("é;ü", ';'), vec!["é", "ü"]);
    let parts = vec!["x".to_string(), "y".to_string()];
    assert_eq!(join_text(&parts, ", "), "x, y");
    assert_eq!(join_text(&Vec::new(), ", "), "");
}

#[test]
fn path_components_skip_empty_pieces() {
    assert_eq!(path_components("/a//b/"), vec!["a", "b"]);
    assert!(dir_contains("/a", "/a/b/c"));
    assert!(dir_contains("/a/b", "/a/b"));
    assert!(!dir_contains("/a/b", "/a"));
    assert!(!dir_contains("/foo", "/foobar"));
    assert!(dir_contains("/", "/x"));
}
