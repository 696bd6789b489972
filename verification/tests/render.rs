use uniman::paths::validate_backend_name;
use uniman::render::{build_command, manpath, read, ReadAction, ReadPhase};

fn fail_message(action: ReadAction) -> String {
    match action {
        ReadAction::Fail(m) => m,
        _ => panic!("expected a failure"),
    }
}

#[test]
fn validate_backend_name_rejects_traversal_in_read() {
    let result = validate_backend_name("../../etc");
    assert!(result.is_err());
}

#[test]
fn read_with_section_some() {
    let (state, action) = read("/h", "freebsd", Some("2"), "open");
    assert!(matches!(action, ReadAction::Probe(ref p) if p == "man"));
    let (state, action) = state.on_probe(true);
    assert!(matches!(action, ReadAction::CheckBackend(ref d) if d == "/h/.uman/backends/freebsd"));
    let (state, action) = state.on_backend(true);
    match action {
        ReadAction::Run(c) => {
            assert_eq!(c.program, "man");
            assert_eq!(c.manpath, "/h/.uman/backends/freebsd:");
            assert_eq!(c.args, vec!["2", "open"]);
        }
        _ => panic!("expected a run"),
    }
    let (state, action) = state.on_exit(true, Some(0), "");
    assert!(matches!(action, ReadAction::Done));
    assert!(matches!(state.phase, ReadPhase::Finished));
}

#[test]
fn read_with_section_none() {
    let (state, _) = read("/h", "linux-upstream", None, "execve");
    let (state, action) = state.on_probe(false);
    assert!(matches!(action, ReadAction::Probe(ref p) if p == "mandoc"));
    let (state, _) = state.on_probe(true);
    let (state, action) = state.on_backend(true);
    assert!(matches!(action, ReadAction::LookUpSection));
    let (state, action) = state.on_section(Some(2));
    match action {
        ReadAction::Run(c) => {
            assert_eq!(c.program, "mandoc");
            assert_eq!(c.args, vec!["2", "execve"]);
        }
        _ => panic!("expected a run"),
    }
    let (_, action) = state.on_exit(false, Some(16), "  No entry for execve \n");
    assert_eq!(
        fail_message(action),
        "man page not found: linux-upstream 2 execve: No entry for execve"
    );
}

#[test]
fn unindexed_page_runs_without_section() {
    let (state, _) = read("/h", "netbsd", None, "ls");
    let (state, _) = state.on_probe(true);
    let (state, _) = state.on_backend(true);
    let (state, action) = state.on_section(None);
    match action {
        ReadAction::Run(c) => assert_eq!(c.args, vec!["ls"]),
        _ => panic!("expected a run"),
    }
    let (_, action) = state.on_exit(false, None, "");
    assert_eq!(fail_message(action), "man page not found: netbsd ls: exit code -1");
}

#[test]
fn no_renderer_fails() {
    let (state, _) = read("/h", "netbsd", None, "ls");
    let (state, _) = state.on_probe(false);
    let (_, action) = state.on_probe(false);
    assert_eq!(fail_message(action), "no man page renderer found (install man-db or mandoc)");
}

#[test]
fn find_renderer_returns_result() {
    let (state, action) = read("/h", "netbsd", None, "ls");
    assert!(matches!(action, ReadAction::Probe(_)));
    let (_, action) = state.on_probe(true);
    assert!(matches!(action, ReadAction::CheckBackend(_)));
}

#[test]
fn manpath_format_includes_trailing_colon() {
    let m = manpath("/some/path");
    assert!(m.ends_with(':'));
    assert_eq!(m, "/some/path:");
}

#[test]
fn build_command_with_section_sets_manpath() {
    let cmd = build_command("man", "/man", Some("2"), "execve");
    assert_eq!(cmd.manpath, "/man:");
    assert_eq!(cmd.args, vec!["2", "execve"]);
}

#[test]
fn build_command_without_section_sets_manpath() {
    let cmd = build_command("man", "/man", None, "execve");
    assert_eq!(cmd.manpath, "/man:");
    assert_eq!(cmd.args, vec!["execve"]);
}

#[test]
fn render_read_rejects_invalid_backend_name() {
    let (_, action) = read("/h", "..", Some("2"), "open");
    let err_msg = fail_message(action);
    assert!(err_msg.contains("invalid backend name"));
}

#[test]
fn integration_read_rejects_invalid_backend_name() {
    let (state, action) = read("/h", "..", Some("2"), "open");
    assert!(matches!(state.phase, ReadPhase::Finished));
    assert!(fail_message(action).contains("invalid backend name"));
}

#[test]
fn read_rejects_nonexistent_backend() {
    let (state, _) = read("/h", "nonexistent_backend_xyz", Some("2"), "open");
    let (state, _) = state.on_probe(true);
    let (_, action) = state.on_backend(false);
    let err_msg = fail_message(action);
    assert!(err_msg.contains("not installed") || err_msg.contains("not found"));
    assert_eq!(err_msg, "backend 'nonexistent_backend_xyz' is not installed");
}
