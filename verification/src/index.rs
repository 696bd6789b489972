//! The index of man pages: content hashes, timestamps, and deciding which
//! stored entries a fresh scan of a backend adds, replaces or removes.
use vstd::prelude::*;
use crate::date::{civil_from_days, civil_of, lemma_civil_of};
use crate::manpage::{description_of, extract_description};
use crate::text::{
    append_chars, chars_of, decimal, digit_char, fmt_i64, fmt_u64, pad_zero, pad_zero_chars, push_str,
    string_of,
};

verus! {

/// The lowercase hexadecimal digit for `n` (0..=15).
pub open spec fn hex_digit(n: int) -> char {
    if n < 10 {
        digit_char(n)
    } else {
        (('a' as u32) + (n - 10)) as char
    }
}

/// Each byte written as two lowercase hexadecimal digits, high nibble first
/// (what `{:x}` prints for a digest).
pub open spec fn lower_hex(bytes: Seq<u8>) -> Seq<char>
    decreases bytes.len(),
{
    if bytes.len() == 0 {
        seq![]
    } else {
        let b = bytes.last();
        lower_hex(bytes.drop_last()) + seq![hex_digit((b / 16) as int), hex_digit((b % 16) as int)]
    }
}

fn hex_char(n: u8) -> (c: char)
    requires
        n < 16,
    ensures
        c == hex_digit(n as int),
{
    if n == 0 { '0' }
    else if n == 1 { '1' }
    else if n == 2 { '2' }
    else if n == 3 { '3' }
    else if n == 4 { '4' }
    else if n == 5 { '5' }
    else if n == 6 { '6' }
    else if n == 7 { '7' }
    else if n == 8 { '8' }
    else if n == 9 { '9' }
    else if n == 10 { 'a' }
    else if n == 11 { 'b' }
    else if n == 12 { 'c' }
    else if n == 13 { 'd' }
    else if n == 14 { 'e' }
    else { 'f' }
}

/// The lowercase hexadecimal text of `bytes`.
pub fn to_lower_hex(bytes: &[u8]) -> (r: String)
    ensures
        r@ == lower_hex(bytes@),
{
    let mut out: Vec<char> = Vec::new();
    let mut i: usize = 0;
    while i < bytes.len()
        invariant
            i <= bytes@.len(),
            out@ == lower_hex(bytes@.take(i as int)),
        decreases bytes.len() - i,
    {
        let b = bytes[i];
        assert(bytes@.take(i + 1).drop_last() == bytes@.take(i as int));
        out.push(hex_char(b / 16));
        out.push(hex_char(b % 16));
        i += 1;
    }
    assert(bytes@.take(bytes@.len() as int) == bytes@);
    string_of(&out)
}

/// The SHA-256 digest of `data`, as the `sha2` crate computes it.
pub uninterp spec fn sha256(data: Seq<u8>) -> Seq<u8>;

/// `sha2::Sha256::digest`: the 32-byte SHA-256 digest of `data`. The digest
/// itself is named by `sha256`; only its length is stated.
#[verifier::external_body]
fn sha256_digest(data: &[u8]) -> (r: Vec<u8>)
    ensures
        r@ == sha256(data@),
        r@.len() == 32,
{
    <sha2::Sha256 as sha2::Digest>::digest(data).to_vec()
}

/// The content hash stored for a page: its SHA-256 digest in lowercase hex.
pub fn content_hash(data: &[u8]) -> (r: String)
    ensures
        r@ == lower_hex(sha256(data@)),
        r@.len() == 64,
{
    let digest = sha256_digest(data);
    let r = to_lower_hex(&digest);
    proof {
        lemma_lower_hex_len(digest@);
    }
    r
}

proof fn lemma_lower_hex_len(bytes: Seq<u8>)
    ensures
        lower_hex(bytes).len() == 2 * bytes.len(),
    decreases bytes.len(),
{
    if bytes.len() > 0 {
        lemma_lower_hex_len(bytes.drop_last());
    }
}


/// A year as `{:04}` prints it: at least four characters, zero-padded after
/// the sign.
pub open spec fn year_text(y: int) -> Seq<char> {
    if y < 0 {
        seq!['-'] + pad_zero(decimal((-y) as nat), 3)
    } else {
        pad_zero(decimal(y as nat), 4)
    }
}

/// A number as `{:02}` prints it.
pub open spec fn two_digits(n: int) -> Seq<char> {
    pad_zero(decimal(n as nat), 2)
}

/// The UTC time `secs` seconds after the Unix epoch in the form
/// `YYYY-MM-DDTHH:MM:SSZ`.
pub open spec fn iso_text(secs: int) -> Seq<char> {
    let days = secs / 86400;
    let tod = secs % 86400;
    let date = civil_of(days);
    year_text(date.0) + seq!['-'] + two_digits(date.1) + seq!['-'] + two_digits(date.2) + seq!['T']
        + two_digits(tod / 3600) + seq![':'] + two_digits((tod % 3600) / 60) + seq![':']
        + two_digits(tod % 60) + seq!['Z']
}

fn year_chars(y: i64) -> (r: Vec<char>)
    ensures
        r@ == year_text(y as int),
{
    if y < 0 {
        let digits = fmt_i64(y);
        let mut r: Vec<char> = vec!['-'];
        let body = crate::text::sub_chars(&digits, 1, digits.len());
        assert(body@ == decimal((-y) as nat));
        let padded = pad_zero_chars(&body, 3);
        append_chars(&mut r, &padded);
        r
    } else {
        let digits = fmt_u64(y as u64);
        pad_zero_chars(&digits, 4)
    }
}

fn two_digit_chars(n: u64) -> (r: Vec<char>)
    ensures
        r@ == two_digits(n as int),
{
    let digits = fmt_u64(n);
    pad_zero_chars(&digits, 2)
}

/// The UTC time `secs` seconds after the Unix epoch, written
/// `YYYY-MM-DDTHH:MM:SSZ`.
pub fn iso_timestamp(secs: u64) -> (r: String)
    ensures
        r@ == iso_text(secs as int),
{
    let days_since_epoch = secs / 86400;
    let time_of_day = secs % 86400;
    let hours = time_of_day / 3600;
    let minutes = (time_of_day % 3600) / 60;
    let seconds = time_of_day % 60;
    let (year, month, day) = civil_from_days(days_since_epoch as i64);
    proof {
        lemma_civil_of(days_since_epoch as int, year as int, month as int, day as int);
    }
    let mut out = year_chars(year);
    out.push('-');
    append_chars(&mut out, &two_digit_chars(month as u64));
    out.push('-');
    append_chars(&mut out, &two_digit_chars(day as u64));
    out.push('T');
    append_chars(&mut out, &two_digit_chars(hours));
    out.push(':');
    append_chars(&mut out, &two_digit_chars(minutes));
    out.push(':');
    append_chars(&mut out, &two_digit_chars(seconds));
    out.push('Z');
    string_of(&out)
}

/// `SystemTime::now()` as whole seconds since the Unix epoch (0 for a clock
/// set before the epoch). Nothing is stated: the clock decides.
#[verifier::external_body]
fn unix_time_secs() -> u64 {
    std::time::SystemTime::now().duration_since(std::time::UNIX_EPOCH).unwrap_or_default().as_secs()
}

/// The current UTC time, written `YYYY-MM-DDTHH:MM:SSZ`.
pub fn iso_now() -> (r: String)
    ensures
        exists|secs: u64| r@ == iso_text(secs as int),
{
    let secs = unix_time_secs();
    iso_timestamp(secs)
}


/// A man page file found by scanning a backend's directory.
pub struct ScannedPage {
    pub section: i32,
    pub name: String,
    pub path: String,
    pub hash: String,
    pub description: String,
}

impl ScannedPage {
    /// The scanned page for a man page file of `section` and `name` at `path`,
    /// with the file's bytes and, when the file reads as text, that text
    /// (without it the page has no description).
    pub fn from_file(section: i32, name: String, path: String, bytes: &[u8], text: Option<&str>) -> (r: ScannedPage)
        ensures
            r.section == section,
            r.name == name,
            r.path == path,
            r.hash@ == lower_hex(sha256(bytes@)),
            r.description@ == match text {
                Some(t) => description_of(t@),
                None => Seq::<char>::empty(),
            },
    {
        let hash = content_hash(bytes);
        let description = match text {
            Some(t) => extract_description(t),
            None => string_of(&Vec::new()),
        };
        ScannedPage { section, name, path, hash, description }
    }
}

/// A page as the index holds it for a backend.
pub struct StoredPage {
    pub section: i32,
    pub name: String,
    pub hash: String,
}

/// What re-indexing does with one scanned page.
#[derive(Clone, Copy, PartialEq, Eq, Debug, Structural)]
pub enum PageChange {
    /// The index holds the page with the same content hash.
    Unchanged,
    /// The index holds no page of that section and name.
    Added,
    /// The index holds the page with another content hash.
    Replaced,
}

/// What re-indexing a backend does: one change per scanned page, and the
/// positions of the stored pages that the scan no longer has.
pub struct IndexPlan {
    pub changes: Vec<PageChange>,
    pub removed: Vec<usize>,
}

/// The hash the index holds for the page of `section` and `name` (the last
/// such entry, as a map built from the entries keeps).
pub open spec fn stored_hash(stored: Seq<StoredPage>, section: i32, name: Seq<char>) -> Option<Seq<char>>
    decreases stored.len(),
{
    if stored.len() == 0 {
        None
    } else if stored.last().section == section && stored.last().name@ == name {
        Some(stored.last().hash@)
    } else {
        stored_hash(stored.drop_last(), section, name)
    }
}

/// What re-indexing does with the scanned page `page`.
pub open spec fn change_for(stored: Seq<StoredPage>, page: ScannedPage) -> PageChange {
    match stored_hash(stored, page.section, page.name@) {
        None => PageChange::Added,
        Some(h) => if h == page.hash@ { PageChange::Unchanged } else { PageChange::Replaced },
    }
}

/// The scan found a page of `section` and `name`.
pub open spec fn scanned_has(pages: Seq<ScannedPage>, section: i32, name: Seq<char>) -> bool {
    exists|i: int| 0 <= i < pages.len() && pages[i].section == section && #[trigger] pages[i].name@ == name
}

/// The positions, in increasing order, of the first `n` stored pages whose
/// section and name the scan no longer has.
pub open spec fn removals(pages: Seq<ScannedPage>, stored: Seq<StoredPage>, n: int) -> Seq<usize>
    decreases n,
{
    if n <= 0 {
        seq![]
    } else if scanned_has(pages, stored[n - 1].section, stored[n - 1].name@) {
        removals(pages, stored, n - 1)
    } else {
        removals(pages, stored, n - 1).push((n - 1) as usize)
    }
}

proof fn lemma_removals_members(pages: Seq<ScannedPage>, stored: Seq<StoredPage>, n: int)
    requires
        0 <= n <= stored.len(),
        stored.len() <= usize::MAX,
    ensures
        forall|k: usize| #[trigger] removals(pages, stored, n).contains(k) <==> (k < n && !scanned_has(
            pages,
            stored[k as int].section,
            stored[k as int].name@,
        )),
    decreases n,
{
    if n > 0 {
        lemma_removals_members(pages, stored, n - 1);
        let prev = removals(pages, stored, n - 1);
        let cur = removals(pages, stored, n);
        assert forall|k: usize| #[trigger] cur.contains(k) <==> (k < n && !scanned_has(
            pages,
            stored[k as int].section,
            stored[k as int].name@,
        )) by {
            if cur.contains(k) {
                let t = choose|t: int| 0 <= t < cur.len() && cur[t] == k;
                if t < prev.len() {
                    assert(prev[t] == cur[t]);
                    assert(prev.contains(k));
                }
            }
            if k < n - 1 && prev.contains(k) {
                let t = choose|t: int| 0 <= t < prev.len() && prev[t] == k;
                assert(cur[t] == prev[t]);
            }
            if k == n - 1 && !scanned_has(pages, stored[k as int].section, stored[k as int].name@) {
                assert(cur[cur.len() - 1] == k);
            }
        }
    }
}

/// Stored page `j` is in the removal list `removed` exactly when no scanned
/// page has both its section and its name.
pub open spec fn removed_iff_unscanned(
    pages: Seq<ScannedPage>,
    stored: Seq<StoredPage>,
    removed: Seq<usize>,
    j: int,
) -> bool {
    removed.contains(j as usize) <==> !exists|i: int|
        0 <= i < pages.len() && pages[i].section == stored[j].section && pages[i].name@ == stored[j].name@
}

/// A stored page is removed exactly when no scanned page has both its
/// section and its name: a page missing from the scan goes, even when
/// another page of its section or of its name is still there, and a page
/// the scan still has stays.
pub proof fn lemma_removed_exactly_when_unscanned(pages: Seq<ScannedPage>, stored: Seq<StoredPage>, j: int)
    requires
        0 <= j < stored.len(),
        stored.len() <= usize::MAX,
    ensures
        removals(pages, stored, stored.len() as int).contains(j as usize) <==> !exists|i: int|
            0 <= i < pages.len() && pages[i].section == stored[j].section && pages[i].name@
                == stored[j].name@,
{
    lemma_removals_members(pages, stored, stored.len() as int);
    assert((j as usize) as int == j);
}

/// The hash stored for the page of `section` and `name`, if any.
fn find_stored_hash(stored: &[StoredPage], section: i32, name: &String) -> (r: Option<usize>)
    ensures
        match r {
            Some(j) => j < stored@.len() && stored_hash(stored@, section, name@) == Some(stored@[j as int].hash@),
            None => stored_hash(stored@, section, name@) is None,
        },
{
    let mut n = stored.len();
    assert(stored@.take(n as int) == stored@);
    while n > 0
        invariant
            n <= stored@.len(),
            stored_hash(stored@, section, name@) == stored_hash(stored@.take(n as int), section, name@),
        decreases n,
    {
        let ghost t = stored@.take(n as int);
        assert(t.last() == stored@[n - 1]);
        if stored[n - 1].section == section && stored[n - 1].name == *name {
            return Some(n - 1);
        }
        assert(t.drop_last() == stored@.take(n - 1));
        n -= 1;
    }
    None
}

/// Whether the scan holds a page of `section` and `name`.
fn scan_has(pages: &[ScannedPage], section: i32, name: &String) -> (r: bool)
    ensures
        r == scanned_has(pages@, section, name@),
{
    let mut i: usize = 0;
    while i < pages.len()
        invariant
            i <= pages@.len(),
            forall|k: int| 0 <= k < i ==> !(pages@[k].section == section && #[trigger] pages@[k].name@ == name@),
        decreases pages.len() - i,
    {
        if pages[i].section == section && pages[i].name == *name {
            return true;
        }
        i += 1;
    }
    false
}

/// Decides, for a fresh scan of a backend and what the index holds for it,
/// which pages are unchanged, added or replaced, and which stored pages are
/// removed.
pub fn plan_index(pages: &[ScannedPage], stored: &[StoredPage]) -> (plan: IndexPlan)
    ensures
        plan.changes@.len() == pages@.len(),
        forall|i: int| 0 <= i < pages@.len() ==> #[trigger] plan.changes@[i] == change_for(stored@, pages@[i]),
        plan.removed@ == removals(pages@, stored@, stored@.len() as int),
        forall|j: int| 0 <= j < stored@.len() ==> #[trigger] removed_iff_unscanned(pages@, stored@, plan.removed@, j),
{
    let mut changes: Vec<PageChange> = Vec::new();
    let mut i: usize = 0;
    while i < pages.len()
        invariant
            i <= pages@.len(),
            changes@.len() == i,
            forall|k: int| 0 <= k < i ==> #[trigger] changes@[k] == change_for(stored@, pages@[k]),
        decreases pages.len() - i,
    {
        let page = &pages[i];
        let change = match find_stored_hash(stored, page.section, &page.name) {
            None => PageChange::Added,
            Some(j) => if stored[j].hash == page.hash { PageChange::Unchanged } else { PageChange::Replaced },
        };
        changes.push(change);
        i += 1;
    }
    let mut removed: Vec<usize> = Vec::new();
    let mut j: usize = 0;
    while j < stored.len()
        invariant
            j <= stored@.len(),
            removed@ == removals(pages@, stored@, j as int),
        decreases stored.len() - j,
    {
        if !scan_has(pages, stored[j].section, &stored[j].name) {
            removed.push(j);
        }
        j += 1;
    }
    proof {
        assert forall|j: int| 0 <= j < stored@.len() implies #[trigger] removed_iff_unscanned(
            pages@,
            stored@,
            removed@,
            j,
        ) by {
            lemma_removed_exactly_when_unscanned(pages@, stored@, j);
        }
    }
    IndexPlan { changes, removed }
}

/// The scanned pages have distinct sections and names.
pub open spec fn distinct_pages(pages: Seq<ScannedPage>) -> bool {
    forall|i: int, j: int|
        0 <= i < j < pages.len() ==> !(#[trigger] pages[i].section == #[trigger] pages[j].section
            && pages[i].name@ == pages[j].name@)
}

/// What the index holds for a backend once the scan `pages` was written to it.
pub open spec fn written(pages: Seq<ScannedPage>) -> Seq<StoredPage> {
    pages.map_values(|p: ScannedPage| StoredPage { section: p.section, name: p.name, hash: p.hash })
}

/// When some entry holds `section` and `name`, and every such entry holds the
/// hash `h`, the stored hash of that page is `h`, whatever the entries' order.
proof fn lemma_stored_hash_agreed(stored: Seq<StoredPage>, section: i32, name: Seq<char>, h: Seq<char>)
    requires
        exists|j: int| 0 <= j < stored.len() && (#[trigger] stored[j]).section == section && stored[j].name@ == name,
        forall|j: int|
            0 <= j < stored.len() && (#[trigger] stored[j]).section == section && stored[j].name@ == name
                ==> stored[j].hash@ == h,
    ensures
        stored_hash(stored, section, name) == Some(h),
    decreases stored.len(),
{
    let n = stored.len() - 1;
    if !(stored[n].section == section && stored[n].name@ == name) {
        let rest = stored.drop_last();
        let j = choose|j: int| 0 <= j < stored.len() && (#[trigger] stored[j]).section == section && stored[j].name@ == name;
        assert(rest[j] == stored[j]);
        assert forall|k: int|
            0 <= k < rest.len() && (#[trigger] rest[k]).section == section && rest[k].name@ == name
                implies rest[k].hash@ == h by {
            assert(rest[k] == stored[k]);
        }
        lemma_stored_hash_agreed(rest, section, name, h);
    }
}

proof fn lemma_scanned_not_removed(pages: Seq<ScannedPage>, stored: Seq<StoredPage>, n: int)
    requires
        0 <= n <= stored.len(),
        forall|j: int| 0 <= j < stored.len() ==> scanned_has(pages, (#[trigger] stored[j]).section, stored[j].name@),
    ensures
        removals(pages, stored, n) == Seq::<usize>::empty(),
    decreases n,
{
    if n > 0 {
        assert(scanned_has(pages, stored[n - 1].section, stored[n - 1].name@));
        lemma_scanned_not_removed(pages, stored, n - 1);
    }
}

/// No entry of `changes` is `c`, so none is counted.
pub proof fn lemma_count_absent(changes: Seq<PageChange>, c: PageChange)
    requires
        forall|i: int| 0 <= i < changes.len() ==> #[trigger] changes[i] != c,
    ensures
        count_of(changes, c) == 0,
    decreases changes.len(),
{
    if changes.len() > 0 {
        let init = changes.drop_last();
        assert forall|i: int| 0 <= i < init.len() implies #[trigger] init[i] != c by {
            assert(init[i] == changes[i]);
        }
        lemma_count_absent(init, c);
        assert(changes.last() == changes[changes.len() - 1]);
    }
}

/// The changes that planning `pages` against `stored` decides, page by page.
pub open spec fn planned_changes(pages: Seq<ScannedPage>, stored: Seq<StoredPage>) -> Seq<PageChange> {
    Seq::new(pages.len(), |i: int| change_for(stored, pages[i]))
}

/// Planning a scan with distinct pages again, against what was written to
/// the index for it (the same rows in any order), changes nothing: every page
/// is unchanged, nothing is added or replaced, and no stored page is removed.
pub proof fn lemma_reindex_is_stable(pages: Seq<ScannedPage>, stored: Seq<StoredPage>)
    requires
        distinct_pages(pages),
        stored.to_multiset() == written(pages).to_multiset(),
    ensures
        forall|i: int| 0 <= i < pages.len() ==> change_for(stored, #[trigger] pages[i]) == PageChange::Unchanged,
        removals(pages, stored, stored.len() as int) == Seq::<usize>::empty(),
        count_of(planned_changes(pages, stored), PageChange::Added) == 0,
        count_of(planned_changes(pages, stored), PageChange::Replaced) == 0,
{
    let w = written(pages);
    assert forall|x: StoredPage| stored.contains(x) <==> w.contains(x) by {
        vstd::seq_lib::to_multiset_contains(stored, x);
        vstd::seq_lib::to_multiset_contains(w, x);
    }
    assert forall|i: int| 0 <= i < pages.len() implies change_for(stored, #[trigger] pages[i])
        == PageChange::Unchanged by {
        assert(w[i] == StoredPage { section: pages[i].section, name: pages[i].name, hash: pages[i].hash });
        assert(w.contains(w[i]));
        let j = choose|j: int| 0 <= j < stored.len() && stored[j] == w[i];
        assert((#[trigger] stored[j]).section == pages[i].section && stored[j].name@ == pages[i].name@);
        assert forall|k: int|
            0 <= k < stored.len() && (#[trigger] stored[k]).section == pages[i].section && stored[k].name@
                == pages[i].name@ implies stored[k].hash@ == pages[i].hash@ by {
            assert(stored.contains(stored[k]));
            let t = choose|t: int| 0 <= t < w.len() && w[t] == stored[k];
            assert(w[t].section == pages[t].section && w[t].name@ == pages[t].name@);
            if t < i {
                assert(!(pages[t].section == pages[i].section && pages[t].name@ == pages[i].name@));
            } else if t > i {
                assert(!(pages[i].section == pages[t].section && pages[i].name@ == pages[t].name@));
            }
        }
        lemma_stored_hash_agreed(stored, pages[i].section, pages[i].name@, pages[i].hash@);
    }
    assert forall|j: int| 0 <= j < stored.len() implies scanned_has(
        pages,
        (#[trigger] stored[j]).section,
        stored[j].name@,
    ) by {
        assert(stored.contains(stored[j]));
        let t = choose|t: int| 0 <= t < w.len() && w[t] == stored[j];
        assert(w[t].section == pages[t].section && w[t].name@ == pages[t].name@);
    }
    lemma_scanned_not_removed(pages, stored, stored.len() as int);
    let cs = planned_changes(pages, stored);
    assert forall|i: int| 0 <= i < cs.len() implies #[trigger] cs[i] != PageChange::Added by {
        assert(cs[i] == change_for(stored, pages[i]));
    }
    assert forall|i: int| 0 <= i < cs.len() implies #[trigger] cs[i] != PageChange::Replaced by {
        assert(cs[i] == change_for(stored, pages[i]));
    }
    lemma_count_absent(cs, PageChange::Added);
    lemma_count_absent(cs, PageChange::Replaced);
}

/// Planning a scan against an empty index adds every page and removes
/// nothing.
pub proof fn lemma_first_index_adds_all(pages: Seq<ScannedPage>)
    ensures
        forall|i: int| 0 <= i < pages.len() ==> change_for(Seq::<StoredPage>::empty(), #[trigger] pages[i]) == PageChange::Added,
        removals(pages, Seq::<StoredPage>::empty(), 0) == Seq::<usize>::empty(),
{
}

/// How many of `changes` are `c`.
pub open spec fn count_of(changes: Seq<PageChange>, c: PageChange) -> nat
    decreases changes.len(),
{
    if changes.len() == 0 {
        0
    } else {
        count_of(changes.drop_last(), c) + if changes.last() == c { 1nat } else { 0nat }
    }
}

proof fn lemma_counts_add_up(changes: Seq<PageChange>)
    ensures
        count_of(changes, PageChange::Unchanged) + count_of(changes, PageChange::Added) + count_of(
            changes,
            PageChange::Replaced,
        ) == changes.len(),
    decreases changes.len(),
{
    if changes.len() > 0 {
        lemma_counts_add_up(changes.drop_last());
    }
}

fn count_exec(changes: &Vec<PageChange>, c: PageChange) -> (r: usize)
    ensures
        r == count_of(changes@, c),
        r <= changes@.len(),
{
    let mut n: usize = 0;
    let mut i: usize = 0;
    while i < changes.len()
        invariant
            i <= changes@.len(),
            n == count_of(changes@.take(i as int), c),
            n <= i,
        decreases changes.len() - i,
    {
        assert(changes@.take(i + 1).drop_last() == changes@.take(i as int));
        if changes[i] == c {
            n += 1;
        }
        i += 1;
    }
    assert(changes@.take(changes@.len() as int) == changes@);
    n
}

/// The figures that re-indexing a backend reports.
pub struct IndexCounts {
    pub inserted: usize,
    pub updated: usize,
    pub deleted: usize,
    pub unchanged: usize,
    pub total: usize,
}

impl IndexPlan {
    /// How many scanned pages the plan leaves unchanged.
    pub fn unchanged_count(&self) -> (r: usize)
        ensures
            r == count_of(self.changes@, PageChange::Unchanged),
    {
        count_exec(&self.changes, PageChange::Unchanged)
    }

    /// The figures of a re-indexing that carried out this plan and, among the
    /// unchanged pages, refreshed the description of `refreshed` of them.
    /// Added pages count as inserted; replaced and refreshed ones as updated.
    pub fn counts(&self, refreshed: usize) -> (r: IndexCounts)
        requires
            refreshed <= count_of(self.changes@, PageChange::Unchanged),
        ensures
            r.inserted == count_of(self.changes@, PageChange::Added),
            r.updated == count_of(self.changes@, PageChange::Replaced) + refreshed,
            r.deleted == self.removed@.len(),
            r.total == self.changes@.len(),
            r.inserted + r.updated + r.unchanged == r.total,
    {
        let inserted = count_exec(&self.changes, PageChange::Added);
        let replaced = count_exec(&self.changes, PageChange::Replaced);
        proof {
            lemma_counts_add_up(self.changes@);
        }
        let total = self.changes.len();
        let updated = replaced + refreshed;
        IndexCounts { inserted, updated, deleted: self.removed.len(), unchanged: total - inserted - updated, total }
    }
}

impl IndexCounts {
    /// Whether the full-text index has to be rebuilt: something was added,
    /// updated or removed.
    pub fn needs_rebuild(&self) -> (r: bool)
        ensures
            r == (self.inserted > 0 || self.updated > 0 || self.deleted > 0),
    {
        self.inserted > 0 || self.updated > 0 || self.deleted > 0
    }

    /// The line reported after indexing backend `backend`.
    pub fn summary(&self, backend: &str) -> (r: String)
        ensures
            r@ == "Indexed backend '"@ + backend@ + "': "@ + decimal(self.inserted as nat)
                + " added, "@ + decimal(self.updated as nat) + " updated, "@ + decimal(
                self.deleted as nat,
            ) + " removed, "@ + decimal(self.unchanged as nat) + " unchanged (total "@
                + decimal(self.total as nat) + ")"@,
    {
        let mut out: Vec<char> = Vec::new();
        push_str(&mut out, "Indexed backend '");
        push_str(&mut out, backend);
        push_str(&mut out, "': ");
        append_chars(&mut out, &fmt_u64(self.inserted as u64));
        push_str(&mut out, " added, ");
        append_chars(&mut out, &fmt_u64(self.updated as u64));
        push_str(&mut out, " updated, ");
        append_chars(&mut out, &fmt_u64(self.deleted as u64));
        push_str(&mut out, " removed, ");
        append_chars(&mut out, &fmt_u64(self.unchanged as u64));
        push_str(&mut out, " unchanged (total ");
        append_chars(&mut out, &fmt_u64(self.total as u64));
        push_str(&mut out, ")");
        string_of(&out)
    }
}

} // verus!
