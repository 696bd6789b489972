use std::collections::HashSet;
use uniman::deps::check_dependencies_with;
use uniman::error::UmanError;

fn make_finder(present: &[&str]) -> impl Fn(&str) -> bool {
    let set: HashSet<String> = present.iter().map(|name| name.to_string()).collect();
    move |name| set.contains(name)
}

#[test]
fn deps_missing_required_binary_errors() {
    let finder = make_finder(&["curl", "fzf", "man"]);
    let err = check_dependencies_with(finder, true, true).unwrap_err();
    assert!(err.message().contains("git"));
}

#[test]
fn deps_missing_renderer_errors() {
    let finder = make_finder(&["git", "curl", "fzf"]);
    let err = check_dependencies_with(finder, true, true).unwrap_err();
    assert!(err.message().contains("man page renderer"));
}

#[test]
fn deps_accepts_man_db() {
    let finder = make_finder(&["git", "curl", "fzf", "man-db"]);
    check_dependencies_with(finder, true, true).unwrap();
}

#[test]
fn deps_accepts_mandoc() {
    let finder = make_finder(&["git", "curl", "fzf", "mandoc"]);
    check_dependencies_with(finder, true, true).unwrap();
}

#[test]
fn deps_accepts_man() {
    let finder = make_finder(&["git", "curl", "fzf", "man"]);
    check_dependencies_with(finder, true, true).unwrap();
}

#[test]
fn deps_report_the_first_missing_program() {
    match check_dependencies_with(make_finder(&["man"]), true, true) {
        Err(UmanError::MissingDependency(n)) => assert_eq!(n, "git"),
        other => panic!("unexpected {:?}", other),
    }
    match check_dependencies_with(make_finder(&["git", "curl", "mandoc"]), true, true) {
        Err(e) => assert_eq!(e.message(), "Required dependency 'fzf' is not installed or not in PATH."),
        Ok(()) => panic!("expected an error"),
    }
}

#[test]
fn deps_fzf_and_renderer_only_when_needed() {
    // fzf is only for the interactive menus, the renderer only for reading.
    assert!(check_dependencies_with(make_finder(&["git", "curl", "man"]), false, true).is_ok());
    assert!(check_dependencies_with(make_finder(&["git", "fzf"]), true, false).is_ok());
    assert!(check_dependencies_with(make_finder(&["git"]), false, false).is_ok());
    assert!(matches!(
        check_dependencies_with(make_finder(&["git"]), false, true),
        Err(UmanError::RendererRequired)
    ));
}

#[test]
fn deps_curl_is_not_required_up_front() {
    assert!(check_dependencies_with(make_finder(&["git", "fzf", "man"]), true, true).is_ok());
}
