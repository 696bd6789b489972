use uniman::cli::{is_numeric, route_read, Cli, Commands, ReadArgs, ReadRoute};
use uniman::config::Config;

fn args(words: &[&str]) -> ReadArgs {
    ReadArgs {
        backend: words.first().map(|s| s.to_string()),
        section: words.get(1).map(|s| s.to_string()),
        topic: words.get(2).map(|s| s.to_string()),
    }
}

#[test]
fn numeric_sections() {
    assert!(is_numeric("2"));
    assert!(is_numeric("123"));
    assert!(!is_numeric(""));
    assert!(!is_numeric("3p"));
    assert!(!is_numeric("-1"));
    assert!(!is_numeric("٣"));
}

#[test]
fn route_three_words() {
    let config = Config::defaults("linux");
    match route_read(&config, &args(&["linux", "2", "execve"])) {
        ReadRoute::Page { backend, section, topic } => {
            assert_eq!(backend, "linux-upstream");
            assert_eq!(section.as_deref(), Some("2"));
            assert_eq!(topic, "execve");
        }
        _ => panic!("expected a page"),
    }
}

#[test]
fn route_two_words() {
    let config = Config::defaults("linux");
    match route_read(&config, &args(&["freebsd", "ls"])) {
        ReadRoute::Page { backend, section, topic } => {
            assert_eq!(backend, "freebsd");
            assert!(section.is_none());
            assert_eq!(topic, "ls");
        }
        _ => panic!("expected a page"),
    }
    match route_read(&config, &args(&["3", "printf"])) {
        ReadRoute::WithDefault { section, topic } => {
            assert_eq!(section.as_deref(), Some("3"));
            assert_eq!(topic, "printf");
        }
        _ => panic!("expected the default backend"),
    }
    assert!(matches!(route_read(&config, &args(&["nope", "printf"])), ReadRoute::Unknown(ref w) if w == "nope"));
}

#[test]
fn route_one_word() {
    let config = Config::defaults("linux");
    match route_read(&config, &args(&["grep"])) {
        ReadRoute::WithDefault { section, topic } => {
            assert!(section.is_none());
            assert_eq!(topic, "grep");
        }
        _ => panic!("expected the default backend"),
    }
    assert!(matches!(route_read(&config, &args(&["openbsd"])), ReadRoute::Usage));
    assert!(matches!(route_read(&config, &args(&["42"])), ReadRoute::Unknown(_)));
    assert!(matches!(route_read(&config, &args(&[])), ReadRoute::Help));
    assert!(matches!(route_read(&config, &args(&["nope", "1", "x"])), ReadRoute::Unknown(_)));
}

#[test]
fn fzf_and_renderer_needs_follow_the_command() {
    let none = ReadArgs { backend: None, section: None, topic: None };
    let search = Cli { command: Some(Commands::Search { keyword: false, topic: "x".to_string() }), read: none, plain_text: false };
    assert!(search.requires_fzf());
    assert!(!search.requires_renderer());
    let plain = Cli { plain_text: true, ..search };
    assert!(!plain.requires_fzf());
    let list_one = Cli {
        command: Some(Commands::List { backend: Some("freebsd".to_string()) }),
        read: ReadArgs { backend: None, section: None, topic: None },
        plain_text: false,
    };
    assert!(list_one.requires_fzf());
    let list_all = Cli { command: Some(Commands::List { backend: None }), read: ReadArgs { backend: None, section: None, topic: None }, plain_text: false };
    assert!(!list_all.requires_fzf());
    let reading = Cli { command: None, read: args(&["ls"]), plain_text: false };
    assert!(reading.requires_renderer());
    assert!(!reading.requires_fzf());
    let config_cmd = Cli { command: Some(Commands::Config), read: args(&[]), plain_text: false };
    assert!(!config_cmd.requires_renderer() && !config_cmd.requires_fzf());
}
