use uniman::fzf::Listing;
use uniman::search::{pad_cell, run_all, run_filename, run_keyword};

#[test]
fn pad_cell_adds_one_space_each_side() {
    assert_eq!(pad_cell("x"), " x ");
    assert_eq!(pad_cell(""), "  ");
}

#[test]
fn filename_listing() {
    let rows = vec![("freebsd".to_string(), 2, "open".to_string())];
    match run_filename("op", &rows, true, "/bin/uniman") {
        Listing::Plain(lines) => {
            assert_eq!(lines.len(), 2);
            assert_eq!(lines[0], format!(" {:<20} \t NAME ", "BACKEND"));
            assert_eq!(lines[1], format!(" {:<20} \t 2 \t open \t {:<30} ", "freebsd", "open(2)"));
        }
        _ => panic!("expected plain lines"),
    }
    match run_filename("op", &rows, false, "/bin/uniman") {
        Listing::Browse(b) => {
            assert_eq!(b.template, "/bin/uniman {1} {2} {3}");
            assert_eq!(b.with_nth.as_deref(), Some("1,4"));
            assert_eq!(b.header, format!(" {:<20} \t NAME ", "BACKEND"));
        }
        _ => panic!("expected a browse listing"),
    }
    match run_filename("zzz", &[], true, "/bin/uniman") {
        Listing::Message(m) => assert_eq!(m, "No matches for 'zzz' in page names."),
        _ => panic!("expected a message"),
    }
}

#[test]
fn keyword_and_all_listings() {
    let rows = vec![(
        "linux-upstream".to_string(),
        3,
        "printf".to_string(),
        "formatted output".to_string(),
    )];
    let expected_line = format!(
        " {:<20} \t 3 \t printf \t {:<30} \t formatted output ",
        "linux-upstream", "printf(3)"
    );
    let expected_header = format!(" {:<20} \t {:<30} \t DESCRIPTION ", "BACKEND", "NAME");
    match run_keyword("format", &rows, true, "u") {
        Listing::Plain(lines) => assert_eq!(lines, vec![expected_header.clone(), expected_line.clone()]),
        _ => panic!("expected plain lines"),
    }
    match run_all(&rows, false, "u") {
        Listing::Browse(b) => {
            assert_eq!(b.lines, vec![expected_line.clone()]);
            assert_eq!(b.with_nth.as_deref(), Some("1,4,5"));
            assert_eq!(b.header, expected_header);
        }
        _ => panic!("expected a browse listing"),
    }
    match run_keyword("nothing", &[], false, "u") {
        Listing::Message(m) => assert_eq!(m, "No matches for 'nothing' in page names and descriptions."),
        _ => panic!("expected a message"),
    }
    match run_all(&[], false, "u") {
        Listing::Message(m) => assert_eq!(m, "No man pages indexed. Try installing a backend first."),
        _ => panic!("expected a message"),
    }
}
