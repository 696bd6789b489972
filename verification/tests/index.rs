use uniman::index::{content_hash, plan_index, to_lower_hex, PageChange, ScannedPage, StoredPage};

fn scanned(section: i32, name: &str, hash: &str) -> ScannedPage {
    ScannedPage {
        section,
        name: name.to_string(),
        path: format!("/b/man{section}/{name}.{section}"),
        hash: hash.to_string(),
        description: String::new(),
    }
}

fn stored(section: i32, name: &str, hash: &str) -> StoredPage {
    StoredPage { section, name: name.to_string(), hash: hash.to_string() }
}

#[test]
fn hash_file_produces_sha256() {
    let h = content_hash(b"hello world");
    assert_eq!(h.len(), 64);
    assert!(h.chars().all(|c| c.is_ascii_hexdigit()));
    assert_eq!(h, "b94d27b9934d3e08a52e52d7da7dabfac484efe37a5380ee9088f7ace2efcde9");
}

#[test]
fn hash_file_deterministic() {
    assert_eq!(content_hash(b"consistent content"), content_hash(b"consistent content"));
}

#[test]
fn hash_file_differs_for_different_content() {
    assert_ne!(content_hash(b"content A"), content_hash(b"content B"));
}

#[test]
fn hex_digits_are_lowercase_pairs() {
    assert_eq!(to_lower_hex(&[0x00, 0x0f, 0xa0, 0xff]), "000fa0ff");
    assert_eq!(to_lower_hex(&[]), "");
}

#[test]
fn scanned_page_from_file() {
    let page = ScannedPage::from_file(
        2,
        "execve".to_string(),
        "/b/man2/execve.2".to_string(),
        b".SH NAME\nexecve \\- execute program\n",
        Some(".SH NAME\nexecve \\- execute program\n"),
    );
    assert_eq!(page.description, "execute program");
    assert_eq!(page.hash, content_hash(b".SH NAME\nexecve \\- execute program\n"));
    let binary = ScannedPage::from_file(3, "x".to_string(), "/b/x.3.gz".to_string(), &[0x1f, 0x8b], None);
    assert_eq!(binary.description, "");
}

#[test]
fn plan_sorts_pages_into_changes() {
    let pages = vec![scanned(2, "open", "h1"), scanned(2, "read", "h2"), scanned(3, "printf", "new")];
    let index = vec![stored(2, "open", "h1"), stored(3, "printf", "old"), stored(1, "gone", "h9")];
    let plan = plan_index(&pages, &index);
    assert_eq!(plan.changes, vec![PageChange::Unchanged, PageChange::Added, PageChange::Replaced]);
    assert_eq!(plan.removed, vec![2]);
    assert_eq!(plan.unchanged_count(), 1);
    let counts = plan.counts(1);
    assert_eq!(counts.inserted, 1);
    assert_eq!(counts.updated, 2);
    assert_eq!(counts.deleted, 1);
    assert_eq!(counts.unchanged, 0);
    assert_eq!(counts.total, 3);
    assert!(counts.needs_rebuild());
    assert_eq!(
        counts.summary("freebsd"),
        "Indexed backend 'freebsd': 1 added, 2 updated, 1 removed, 0 unchanged (total 3)"
    );
}

#[test]
fn same_name_in_another_section_is_another_page() {
    let pages = vec![scanned(1, "printf", "a")];
    let index = vec![stored(3, "printf", "a")];
    let plan = plan_index(&pages, &index);
    assert_eq!(plan.changes, vec![PageChange::Added]);
    assert_eq!(plan.removed, vec![0]);
}

#[test]
fn reindexing_what_was_written_changes_nothing() {
    let pages = vec![scanned(2, "open", "h1"), scanned(3, "printf", "h2"), scanned(3, "open", "h3")];
    let written: Vec<StoredPage> = pages.iter().map(|p| stored(p.section, &p.name, &p.hash)).collect();
    let plan = plan_index(&pages, &written);
    assert!(plan.changes.iter().all(|c| *c == PageChange::Unchanged));
    assert!(plan.removed.is_empty());
    let counts = plan.counts(0);
    assert!(!counts.needs_rebuild());
    assert_eq!(counts.unchanged, 3);
}

#[test]
fn first_indexing_adds_everything() {
    let pages = vec![scanned(2, "open", "h1"), scanned(3, "printf", "h2")];
    let plan = plan_index(&pages, &[]);
    assert_eq!(plan.changes, vec![PageChange::Added, PageChange::Added]);
    assert!(plan.removed.is_empty());
    let counts = plan.counts(0);
    assert_eq!(counts.inserted, 2);
    assert_eq!(counts.unchanged, 0);
}

#[test]
fn reindexing_rows_read_back_in_any_order_changes_nothing() {
    let pages = vec![scanned(2, "open", "h1"), scanned(3, "printf", "h2"), scanned(3, "open", "h3")];
    let mut rows: Vec<StoredPage> = pages.iter().map(|p| stored(p.section, &p.name, &p.hash)).collect();
    rows.reverse();
    rows.swap(0, 1);
    let plan = plan_index(&pages, &rows);
    assert!(plan.changes.iter().all(|c| *c == PageChange::Unchanged));
    assert!(plan.removed.is_empty());
    let counts = plan.counts(2);
    assert_eq!((counts.inserted, counts.updated, counts.deleted), (0, 2, 0));
    assert!(counts.needs_rebuild());
    assert!(!plan.counts(0).needs_rebuild());
}
