use uniman::manpage::{extract_description, parse_section_and_name};

#[test]
fn parse_simple_man_page_name() {
    assert_eq!(parse_section_and_name("execve.2"), Some((2, "execve".to_string())));
}

#[test]
fn parse_man_page_with_multiple_dots() {
    assert_eq!(parse_section_and_name("foo.bar.3"), Some((3, "foo.bar".to_string())));
}

#[test]
fn parse_gzipped_man_page() {
    assert_eq!(parse_section_and_name("printf.3.gz"), Some((3, "printf".to_string())));
}

#[test]
fn parse_multi_dot_gzipped() {
    assert_eq!(parse_section_and_name("foo.bar.1.gz"), Some((1, "foo.bar".to_string())));
}

#[test]
fn reject_no_extension() {
    assert_eq!(parse_section_and_name("Makefile"), None);
}

#[test]
fn reject_non_numeric_extension() {
    assert_eq!(parse_section_and_name("readme.txt"), None);
}

#[test]
fn reject_empty_string() {
    assert_eq!(parse_section_and_name(""), None);
}

#[test]
fn parse_section_1() {
    assert_eq!(parse_section_and_name("ls.1"), Some((1, "ls".to_string())));
}

#[test]
fn parse_section_8() {
    assert_eq!(parse_section_and_name("mount.8"), Some((8, "mount".to_string())));
}

#[test]
fn parse_single_char_name() {
    assert_eq!(parse_section_and_name("X.7"), Some((7, "X".to_string())));
}

#[test]
fn parse_underscore_name() {
    assert_eq!(
        parse_section_and_name("__libc_start_main.3"),
        Some((3, "__libc_start_main".to_string()))
    );
}

#[test]
fn parse_edge_cases_of_numbers_and_suffixes() {
    // str::parse::<i32> takes a sign, and refuses values beyond i32.
    assert_eq!(parse_section_and_name("a.+4"), Some((4, "a".to_string())));
    assert_eq!(parse_section_and_name("a.-4"), Some((-4, "a".to_string())));
    assert_eq!(parse_section_and_name("a.2147483648"), None);
    assert_eq!(parse_section_and_name("a.2147483647"), Some((i32::MAX, "a".to_string())));
    // Every trailing .gz goes; an empty name is kept.
    assert_eq!(parse_section_and_name("x.3.gz.gz"), Some((3, "x".to_string())));
    assert_eq!(parse_section_and_name(".5"), Some((5, "".to_string())));
    assert_eq!(parse_section_and_name("open.3p"), None);
}

#[test]
fn page_file_names_read_back() {
    for (name, section) in [("a.b.c", 3), ("x", 0), ("my_tool", 8)] {
        let plain = format!("{name}.{section}");
        let gz = format!("{name}.{section}.gz");
        assert_eq!(parse_section_and_name(&plain), Some((section, name.to_string())));
        assert_eq!(parse_section_and_name(&gz), Some((section, name.to_string())));
    }
}

#[test]
fn extract_description_basic() {
    let desc = extract_description(".TH EXECVE 2\n.SH NAME\nexecve \\- execute program\n.SH SYNOPSIS\n");
    assert_eq!(desc, "execute program");
}

#[test]
fn extract_description_strips_roff() {
    let desc = extract_description(
        ".SH NAME\n\\fBopen\\fP, \\fBopenat\\fP \\- open and possibly create a file\n.SH SYNOPSIS\n",
    );
    assert!(desc.contains("open and possibly create a file"));
    assert!(!desc.contains("\\fB"));
    assert!(!desc.contains("open, openat"));
}

#[test]
fn extract_description_multiline() {
    let desc = extract_description(".SH NAME\nprintf, fprintf, sprintf \\- formatted output conversion\n");
    assert!(desc.contains("formatted output conversion"));
}

#[test]
fn extract_description_no_name_section() {
    let desc = extract_description(".SH SYNOPSIS\nSome stuff\n");
    assert!(desc.is_empty());
}

#[test]
fn extract_description_dash_handled() {
    let desc = extract_description(".SH NAME\nls \\- list directory contents\n");
    assert_eq!(desc, "list directory contents");
}

#[test]
fn extract_description_joins_lines_and_reads_mdoc() {
    let desc = extract_description(".Sh NAME\n.Nm cat\nconcatenate\nand print files\n.Sh SYNOPSIS\n");
    assert_eq!(desc, "concatenate and print files");
    let desc = extract_description(".SH \"NAME\"\nfoo \\- bar\n");
    assert_eq!(desc, "");
    let desc = extract_description(".SH name\r\nfoo \\(tm \\- bar\\(reg\r\n");
    assert_eq!(desc, "bar(R)");
}
