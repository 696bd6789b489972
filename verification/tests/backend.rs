use uniman::backend::{
    accepts_install, any_installed, check_command_exists, command_failure, curl_download, git_pull,
    install_failure_line, install_git, is_default_backend, is_default_name, list_lines,
    list_topics, locate, parse_confirm_response, pull_failure, remove_prompt, require_absent,
    require_installed, staging_dir, tar_extract,
};
use uniman::config::{BackendDef, Config, FetchMethod, ManFormat};
use uniman::error::UmanError;
use uniman::fzf::Listing;

fn def(name: &str, aliases: &[&str]) -> BackendDef {
    BackendDef {
        name: name.to_string(),
        source: format!("https://example.com/{name}.git"),
        format: ManFormat::Roff,
        fetching: FetchMethod::Git,
        aliases: aliases.iter().map(|a| a.to_string()).collect(),
    }
}

#[test]
fn confirm_response_accepts_empty_as_yes() {
    assert!(parse_confirm_response(""));
    assert!(parse_confirm_response("\n"));
    assert!(parse_confirm_response("   \n"));
}

#[test]
fn confirm_response_accepts_yes() {
    assert!(parse_confirm_response("y"));
    assert!(parse_confirm_response("Y"));
    assert!(parse_confirm_response("yes"));
    assert!(parse_confirm_response("YES"));
}

#[test]
fn confirm_response_rejects_no() {
    assert!(!parse_confirm_response("n"));
    assert!(!parse_confirm_response("N"));
    assert!(!parse_confirm_response("no"));
    assert!(!parse_confirm_response("NO"));
}

#[test]
fn confirm_response_defaults_to_yes_for_other_input() {
    assert!(parse_confirm_response("maybe"));
    assert!(parse_confirm_response("lol"));
    assert!(parse_confirm_response("yep"));
}

#[test]
fn confirm_response_trims_before_reading() {
    assert!(!parse_confirm_response("  No \n"));
    assert!(parse_confirm_response(" n o "));
}

#[test]
fn install_answer_accepts_only_yes_forms() {
    assert!(accepts_install(""));
    assert!(accepts_install("\n"));
    assert!(accepts_install("Y\n"));
    assert!(accepts_install(" yes "));
    assert!(!accepts_install("n"));
    assert!(!accepts_install("maybe"));
    assert!(!accepts_install("yep"));
}

#[test]
fn is_default_backend_matches_canonical_name() {
    assert!(is_default_backend(Some("linux-upstream"), "linux-upstream", &[]));
    assert!(!is_default_backend(Some("linux-upstream"), "freebsd", &[]));
    assert!(!is_default_backend(None, "linux-upstream", &[]));
}

#[test]
fn is_default_backend_matches_alias() {
    assert!(is_default_backend(Some("linux"), "linux-upstream", &["linux".to_string()]));
    assert!(is_default_backend(Some("bsd"), "freebsd", &["bsd".to_string()]));
    assert!(!is_default_backend(Some("linux"), "freebsd", &[]));
}

#[test]
fn is_default_backend_none_means_no_default() {
    assert!(!is_default_backend(None, "linux-upstream", &["linux".to_string()]));
}

#[test]
fn missing_git_and_curl_have_their_own_errors() {
    assert!(check_command_exists("git", true).is_ok());
    assert!(matches!(check_command_exists("git", false), Err(UmanError::GitNotFound)));
    assert!(matches!(check_command_exists("curl", false), Err(UmanError::CurlNotFound)));
    match check_command_exists("tar", false) {
        Err(e) => assert_eq!(
            e.message(),
            "command 'tar' failed: tar is not installed or not on PATH"
        ),
        Ok(()) => panic!("expected an error"),
    }
}

#[test]
fn command_failure_joins_trimmed_outputs() {
    let e = command_failure("git clone x", "  fatal: no repo \n", "\nhint: check url\n");
    match e {
        UmanError::CommandFailed { cmd, stderr } => {
            assert_eq!(cmd, "git clone x");
            assert_eq!(stderr, "fatal: no repo\nhint: check url");
        }
        other => panic!("unexpected {:?}", other),
    }
    match command_failure("tar extract", "", "  only stdout ") {
        UmanError::CommandFailed { stderr, .. } => assert_eq!(stderr, "only stdout"),
        other => panic!("unexpected {:?}", other),
    }
    match command_failure("tar extract", " only stderr", "   ") {
        UmanError::CommandFailed { stderr, .. } => assert_eq!(stderr, "only stderr"),
        other => panic!("unexpected {:?}", other),
    }
}

#[test]
fn install_git_clones_shallowly() {
    let c = install_git("https://example.com/r.git", "/h/.uman/backends/r");
    assert_eq!(c.program, "git");
    assert_eq!(c.args, vec!["clone", "--depth", "1", "https://example.com/r.git", "/h/.uman/backends/r"]);
    assert_eq!(c.context, "git clone https://example.com/r.git");
}

#[test]
fn curl_and_tar_commands() {
    let c = curl_download("https://example.com/a.tar", "/tmp/x/archive");
    assert_eq!(c.program, "curl");
    assert_eq!(
        c.args,
        vec!["-Lsf", "--connect-timeout", "30", "--max-time", "300", "-o", "/tmp/x/archive", "https://example.com/a.tar"]
    );
    assert_eq!(c.context, "curl download https://example.com/a.tar");
    let t = tar_extract("/tmp/x/archive", "/h/b");
    assert_eq!(t.program, "tar");
    assert_eq!(t.args, vec!["-xf", "/tmp/x/archive", "-C", "/h/b"]);
    assert_eq!(t.context, "tar extract");
}

#[test]
fn git_pull_and_its_failure() {
    let c = git_pull("/h/.uman/backends/freebsd", "freebsd");
    assert_eq!(c.program, "git");
    assert_eq!(c.args, vec!["-C", "/h/.uman/backends/freebsd", "pull"]);
    assert_eq!(c.context, "git pull for 'freebsd'");
    assert_eq!(
        pull_failure("freebsd", " conflict \n").message(),
        "command 'git pull for 'freebsd'' failed: conflict"
    );
}

#[test]
fn staging_directory_sits_beside_backends() {
    assert_eq!(staging_dir("/home/u", "macos"), "/home/u/.uman/backends/macos.staging");
}

#[test]
fn install_rejects_invalid_backend_name() {
    let config = Config::defaults("linux");
    let err = locate(&config, "../../etc").unwrap_err();
    assert!(err.message().contains("invalid backend name"));
}

#[test]
fn remove_rejects_invalid_backend_name() {
    let config = Config::defaults("linux");
    let err = locate(&config, "bad name").unwrap_err();
    assert!(err.message().contains("invalid backend name"));
}

#[test]
fn update_rejects_invalid_backend_name() {
    let config = Config::defaults("linux");
    assert!(locate(&config, "bad!name").is_err());
}

#[test]
fn backend_remove_nonexistent_errors() {
    let config = Config::defaults("linux");
    match locate(&config, "nonexistent") {
        Err(UmanError::BackendNotFound(n)) => assert_eq!(n, "nonexistent"),
        other => panic!("unexpected {:?}", other),
    }
}

#[test]
fn locate_finds_backends_by_alias() {
    let config = Config::defaults("linux");
    assert_eq!(locate(&config, "bsd").unwrap().name, "freebsd");
    assert_eq!(locate(&config, "darwin").unwrap().name, "apple");
}

#[test]
fn install_and_remove_need_the_right_directory_state() {
    assert!(require_absent("freebsd", false).is_ok());
    assert_eq!(
        require_absent("freebsd", true).unwrap_err().message(),
        "backend 'freebsd' is already installed"
    );
    assert!(require_installed("freebsd", true).is_ok());
    assert_eq!(
        require_installed("freebsd", false).unwrap_err().message(),
        "backend 'freebsd' is not installed"
    );
}

#[test]
fn removing_the_default_asks_first() {
    let mut config = Config::defaults("linux");
    assert!(is_default_name(&config, "linux-upstream"));
    assert!(!is_default_name(&config, "freebsd"));
    config.default_backend = Some("linux".to_string());
    assert!(!is_default_name(&config, "linux-upstream"));
    assert_eq!(
        remove_prompt("freebsd"),
        "freebsd is the default man page backend, do you want to remove it?(Y/n) "
    );
}

#[test]
fn install_failures_are_sorted_out() {
    let (to_stderr, line) = install_failure_line("freebsd", "backend 'freebsd' is already installed");
    assert!(!to_stderr);
    assert_eq!(line, "Backend 'freebsd' is already installed.");
    let (to_stderr, line) = install_failure_line("netbsd", "git is not installed or not on PATH");
    assert!(to_stderr);
    assert_eq!(line, "warning: failed to install 'netbsd': git is not installed or not on PATH");
}

#[test]
fn adopt_default_sets_only_a_missing_default() {
    let mut config = Config::defaults("linux");
    config.default_backend = None;
    assert_eq!(config.adopt_default("bsd").unwrap(), Some("freebsd".to_string()));
    assert_eq!(config.default_backend.as_deref(), Some("freebsd"));
    assert_eq!(config.adopt_default("linux").unwrap(), None);
    assert_eq!(config.default_backend.as_deref(), Some("freebsd"));
}

#[test]
fn adopt_first_default_takes_the_first_key() {
    let mut config = Config::defaults("linux");
    config.default_backend = None;
    assert_eq!(config.adopt_first_default(), Some("apple".to_string()));
    assert_eq!(config.default_backend.as_deref(), Some("apple"));
    assert_eq!(config.adopt_first_default(), None);
}

#[test]
fn make_default_needs_an_installed_backend() {
    let mut config = Config::defaults("linux");
    match config.make_default("openbsd", false) {
        Err(UmanError::DefaultNotInstalled(n)) => assert_eq!(n, "openbsd"),
        other => panic!("unexpected {:?}", other),
    }
    assert_eq!(config.default_backend.as_deref(), Some("linux-upstream"));
    config.make_default("openbsd", true).unwrap();
    assert_eq!(config.default_backend.as_deref(), Some("openbsd"));
}

#[test]
fn show_default_names_the_alias() {
    let mut config = Config::defaults("linux");
    assert_eq!(config.show_default_text(), "linux-upstream");
    config.default_backend = Some("linux".to_string());
    assert_eq!(config.show_default_text(), "linux-upstream (alias: linux)");
    config.default_backend = Some("bogus".to_string());
    assert_eq!(config.show_default_text(), "bogus");
    config.default_backend = None;
    assert_eq!(config.show_default_text(), "No default backend set.");
}

#[test]
fn list_puts_the_default_first() {
    let config = Config::defaults("linux");
    let lines = list_lines(&config, &[false, true, true, false, false]);
    assert_eq!(lines.len(), 6);
    assert_eq!(
        lines[0],
        format!("{:<20} {:<12} {:<10} {} {}", "NAME", "DEFAULT", "STATUS", "FORMAT", "SOURCE")
    );
    assert_eq!(
        lines[1],
        format!(
            "{:<20} {:<12} {:<10} {} {}",
            "linux-upstream", "*", "installed", "roff",
            "https://git.kernel.org/pub/scm/docs/man-pages/man-pages.git"
        )
    );
    assert!(lines[2].starts_with("apple "));
    assert!(lines[2].contains("available"));
    assert!(lines[3].starts_with("freebsd "));
    assert!(lines[3].contains("installed"));
    assert!(lines[4].starts_with("netbsd "));
    assert!(lines[5].starts_with("openbsd "));

    let lines = list_lines(&config, &[true, true, false, true, true]);
    assert_eq!(lines.len(), 7);
    assert!(lines[1].contains("available"));
    assert_eq!(lines[6], "\nwarning: default backend 'linux-upstream' is not installed");
}

#[test]
fn list_warns_about_missing_default() {
    let mut config = Config::defaults("linux");
    config.default_backend = Some("plan9".to_string());
    let lines = list_lines(&config, &[true, true, true, true, true]);
    assert_eq!(lines.len(), 7);
    assert!(lines[1].starts_with("apple "));
    assert_eq!(lines[6], "\nwarning: default backend 'plan9' is not in config");

    let mut config = Config::defaults("linux");
    config.default_backend = Some("bsd".to_string());
    let lines = list_lines(&config, &[false, true, false, false, false]);
    assert_eq!(lines.len(), 6);
    assert!(lines[1].starts_with("freebsd "));
    assert!(lines[1].contains(" * "));
}

#[test]
fn list_of_no_backends() {
    let mut config = Config::defaults("linux");
    config.backends = uniman::config::BackendMap::new();
    assert_eq!(list_lines(&config, &[]), vec!["No backends configured."]);
}

#[test]
fn list_marks_every_backend_the_default_names() {
    let mut config = Config::defaults("linux");
    config.backends.insert("zzz".to_string(), def("zzz", &["linux"]));
    config.default_backend = Some("linux".to_string());
    let lines = list_lines(&config, &[true, true, true, true, true, false]);
    assert!(lines[1].starts_with("linux-upstream "));
    assert!(lines[2].starts_with("zzz "));
    assert_eq!(lines[7], "\nwarning: default backend 'zzz' is not installed");
}

#[test]
fn topics_of_a_backend() {
    let rows = vec![
        (2, "open".to_string(), "open a file".to_string()),
        (3, "printf".to_string(), "formatted output".to_string()),
    ];
    match list_topics("freebsd", &rows, true, "/bin/uniman") {
        Listing::Plain(lines) => {
            assert_eq!(lines.len(), 3);
            assert_eq!(lines[0], format!("{:<40}\t{}", "NAME", "DESCRIPTION"));
            assert_eq!(lines[1], format!("2\topen\t{:<40}\topen a file", "open(2)"));
            assert_eq!(lines[2], format!("3\tprintf\t{:<40}\tformatted output", "printf(3)"));
        }
        _ => panic!("expected plain lines"),
    }
    match list_topics("freebsd", &rows, false, "/bin/uniman") {
        Listing::Browse(b) => {
            assert_eq!(b.template, "/bin/uniman freebsd {1} {2}");
            assert_eq!(b.with_nth.as_deref(), Some("3,4"));
            assert_eq!(b.lines.len(), 2);
        }
        _ => panic!("expected a browse listing"),
    }
    match list_topics("freebsd", &[], false, "/bin/uniman") {
        Listing::Message(m) => {
            assert_eq!(m, "No topics indexed for backend 'freebsd'. Try 'uniman update freebsd'.")
        }
        _ => panic!("expected a message"),
    }
}

#[test]
fn first_default_only_after_some_install() {
    assert!(!any_installed(&[]));
    assert!(!any_installed(&[false, false]));
    assert!(any_installed(&[false, true, false]));
}
