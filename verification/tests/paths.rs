use uniman::paths::{
    backend_dir, backends_dir, config_dir, config_path, data_dir, db_path, index_dir, join_path,
    validate_backend_name,
};

#[test]
fn validate_valid_backend_names() {
    assert!(validate_backend_name("linux-upstream").is_ok());
    assert!(validate_backend_name("freebsd").is_ok());
    assert!(validate_backend_name("my_backend").is_ok());
    assert!(validate_backend_name("backend123").is_ok());
    assert!(validate_backend_name("a").is_ok());
    assert!(validate_backend_name("A-B_C-0").is_ok());
}

#[test]
fn reject_invalid_backend_names() {
    assert!(validate_backend_name("../../etc").is_err());
    assert!(validate_backend_name("../etc").is_err());
    assert!(validate_backend_name(".").is_err());
    assert!(validate_backend_name("my backend").is_err());
    assert!(validate_backend_name("backend!").is_err());
    assert!(validate_backend_name("backend@host").is_err());
    assert!(validate_backend_name("backend#1").is_err());
    assert!(validate_backend_name("back\\end").is_err());
    assert!(validate_backend_name("").is_err());
    assert!(validate_backend_name("bäckend").is_err());
    assert!(validate_backend_name("back/end").is_err());
    assert!(validate_backend_name("back\tend").is_err());
    assert!(validate_backend_name("name\n").is_err());
}

#[test]
fn invalid_name_message() {
    assert_eq!(
        validate_backend_name("a b").unwrap_err().message(),
        "invalid backend name 'a b': must contain only letters, numbers, hyphens, and underscores"
    );
}

#[test]
fn path_functions_return_expected_structure() {
    let home = "/home/tester";
    let dir = data_dir(home);
    assert!(dir.ends_with(".uman"));
    assert!(backends_dir(home).starts_with(&dir));
    assert!(index_dir(home).starts_with(&dir));

    let cdir = config_dir(home);
    assert!(cdir.ends_with("uman"));
    assert!(config_path(home).starts_with(&cdir));

    assert!(db_path(home).ends_with("uman.db"));
    assert_eq!(backend_dir(home, "test"), join_path(&backends_dir(home), "test"));
}

#[test]
fn paths_exact_values() {
    assert_eq!(config_dir("/h"), "/h/.config/uman");
    assert_eq!(config_path("/h/"), "/h/.config/uman/config.json");
    assert_eq!(data_dir("/h"), "/h/.uman");
    assert_eq!(backends_dir("/h"), "/h/.uman/backends");
    assert_eq!(index_dir("/h"), "/h/.uman/index");
    assert_eq!(db_path("/h"), "/h/.uman/index/uman.db");
    assert_eq!(backend_dir("/h", "freebsd"), "/h/.uman/backends/freebsd");
    assert_eq!(join_path("/h", "/abs"), "/abs");
    assert_eq!(join_path("", "rel"), "rel");
}

#[test]
fn path_traversal_blocked_in_backend_dir() {
    let _bad_dir = backend_dir("/home/tester", "../../etc");
    assert!(validate_backend_name("../../etc").is_err());
}

#[test]
fn backend_names_with_various_patterns() {
    assert!(validate_backend_name("a").is_ok());
    assert!(validate_backend_name("linux-upstream").is_ok());
    assert!(validate_backend_name("my_backend_v2").is_ok());
    assert!(validate_backend_name("ABC").is_ok());
    assert!(validate_backend_name("123").is_ok());

    assert!(validate_backend_name("").is_err());
    assert!(validate_backend_name("has space").is_err());
    assert!(validate_backend_name("has.dot").is_err());
    assert!(validate_backend_name("has/slash").is_err());
    assert!(validate_backend_name("has\\backslash").is_err());
    assert!(validate_backend_name("has:colon").is_err());
    assert!(validate_backend_name("..").is_err());
    assert!(validate_backend_name(".").is_err());
}
