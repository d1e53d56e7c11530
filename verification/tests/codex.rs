use codex_dashboard::process::{
    codex_candidates, executable_name, help_supports_app_server, is_executable_file,
    resolve_codex_binary, select_candidates,
};

#[test]
fn codex_binary_is_found_and_checked() {
    assert_eq!(executable_name("codex", ""), "codex");
    assert_eq!(executable_name("codex", ".exe"), "codex.exe");
    assert!(!is_executable_file("/definitely/not/here/codex"));
    assert!(is_executable_file("/etc/passwd"));
    let picked = select_candidates(
        &vec!["/a/codex".to_owned(), "/b/codex".to_owned(), "/a/codex".to_owned(), "/c/codex".to_owned()],
        &vec![true, false, true, true],
    );
    assert_eq!(picked, vec!["/a/codex".to_owned(), "/c/codex".to_owned()]);
    let found = codex_candidates(&vec![".".to_owned(), "/definitely/not/here".to_owned()], "");
    assert!(found.is_empty());
    let joined = codex_candidates(&vec!["".to_owned()], ".toml-not");
    assert!(joined.is_empty());

    assert!(help_supports_app_server(true, "Usage: codex app-server [OPTIONS]\n  --stdio"));
    assert!(!help_supports_app_server(false, "Usage: codex app-server --stdio"));
    assert!(!help_supports_app_server(true, "Usage: codex app-server"));

    let candidates = vec!["/x/codex".to_owned(), "/y/codex".to_owned()];
    assert_eq!(resolve_codex_binary(None, &candidates, |p: &String| p == "/y/codex"), Ok("/y/codex".to_owned()));
    assert_eq!(
        resolve_codex_binary(None, &candidates, |_: &String| false),
        Err("No codex binary on PATH supports `codex app-server`. Checked: /x/codex, /y/codex".to_owned())
    );
    assert_eq!(resolve_codex_binary(None, &vec![], |_: &String| true), Err("No codex binary found on PATH".to_owned()));
    assert_eq!(
        resolve_codex_binary(Some("/opt/codex".to_owned()), &candidates, |_: &String| false),
        Err("CODEX_DASHBOARD_CODEX does not support `codex app-server`: /opt/codex".to_owned())
    );
    assert_eq!(resolve_codex_binary(Some(String::new()), &candidates, |_: &String| true), Ok("/x/codex".to_owned()));
}

#[test]
fn candidate_paths_are_inside_the_directories() {
    let found = codex_candidates(&vec!["/etc/passwd".to_owned()], "");
    assert!(found.is_empty());
}

#[test]
fn candidates_equal_as_paths_are_kept_once() {
    let picked = select_candidates(
        &vec!["/a/codex".to_owned(), "/a//codex".to_owned(), "/a/codex/".to_owned(), "/b/./codex".to_owned()],
        &vec![true, true, true, true],
    );
    assert_eq!(picked, vec!["/a/codex".to_owned(), "/b/./codex".to_owned()]);
}
