//! The search listings: how the pages found by name, by keyword, or all
//! indexed pages are laid out in tab-separated columns.
use vstd::prelude::*;
use crate::fzf::{Listing, listing_is, make_listing};
use crate::text::{
    append_chars, chars_of, fmt_i64, owned, pad_right, pad_right_chars, push_str, signed_decimal,
    starts_with, string_of, views,
};

verus! {

/// `v` with one space on each side.
pub open spec fn cell(v: Seq<char>) -> Seq<char> {
    seq![' '] + v + seq![' ']
}

/// A value with one space on each side, as a column of the search listings.
pub fn pad_cell(value: &str) -> (r: String)
    ensures
        r@ == cell(value@),
{
    let mut out: Vec<char> = Vec::new();
    out.push(' ');
    push_str(&mut out, value);
    out.push(' ');
    string_of(&out)
}

/// How a page is shown: its name with the section in brackets.
pub open spec fn display_name(name: Seq<char>, section: i32) -> Seq<char> {
    name + "("@ + signed_decimal(section as int) + ")"@
}

/// The line for a page found by name: backend, section, name and the shown
/// name, each a padded cell (the backend widened to 20 and the shown name to
/// 30 characters).
pub open spec fn name_match_line(backend: Seq<char>, section: i32, name: Seq<char>) -> Seq<char> {
    cell(pad_right(backend, 20)) + "\t"@ + cell(signed_decimal(section as int)) + "\t"@ + cell(name)
        + "\t"@ + cell(pad_right(display_name(name, section), 30))
}

/// The line for a page with its description: the name-match columns and the
/// description as a fifth cell.
pub open spec fn described_line(
    backend: Seq<char>,
    section: i32,
    name: Seq<char>,
    description: Seq<char>,
) -> Seq<char> {
    name_match_line(backend, section, name) + "\t"@ + cell(description)
}

/// The header over pages found by name.
pub open spec fn name_header() -> Seq<char> {
    cell(pad_right("BACKEND"@, 20)) + "\t"@ + cell("NAME"@)
}

/// The header over pages with descriptions.
pub open spec fn described_header() -> Seq<char> {
    cell(pad_right("BACKEND"@, 20)) + "\t"@ + cell(pad_right("NAME"@, 30)) + "\t"@ + cell(
        "DESCRIPTION"@,
    )
}

/// The command that fzf runs for a chosen search line: this program with the
/// line's backend, section and name.
pub open spec fn search_template(exe: Seq<char>) -> Seq<char> {
    exe + " {1} {2} {3}"@
}

fn cell_chars(out: &mut Vec<char>, v: &[char])
    ensures
        final(out)@ == old(out)@ + cell(v@),
{
    out.push(' ');
    append_chars(out, v);
    out.push(' ');
    assert(final(out)@ =~= old(out)@ + cell(v@));
}

fn name_match_chars(backend: &str, section: i32, name: &str) -> (r: Vec<char>)
    ensures
        r@ == name_match_line(backend@, section, name@),
{
    let sec = fmt_i64(section as i64);
    let mut shown: Vec<char> = Vec::new();
    push_str(&mut shown, name);
    shown.push('(');
    append_chars(&mut shown, &sec);
    shown.push(')');
    proof {
        reveal_strlit("(");
        reveal_strlit(")");
        reveal_strlit("\t");
    }
    assert(shown@ =~= display_name(name@, section));
    let mut out: Vec<char> = Vec::new();
    cell_chars(&mut out, &pad_right_chars(&chars_of(backend), 20));
    out.push('\t');
    cell_chars(&mut out, &sec);
    out.push('\t');
    cell_chars(&mut out, &chars_of(name));
    out.push('\t');
    cell_chars(&mut out, &pad_right_chars(&shown, 30));
    assert(out@ =~= name_match_line(backend@, section, name@));
    out
}

fn described_chars(backend: &str, section: i32, name: &str, description: &str) -> (r: Vec<char>)
    ensures
        r@ == described_line(backend@, section, name@, description@),
{
    let mut out = name_match_chars(backend, section, name);
    proof {
        reveal_strlit("\t");
    }
    out.push('\t');
    cell_chars(&mut out, &chars_of(description));
    assert(out@ =~= described_line(backend@, section, name@, description@));
    out
}

/// The lines for pages found by name.
pub open spec fn name_match_lines(rows: Seq<(String, i32, String)>) -> Seq<Seq<char>> {
    rows.map_values(|r: (String, i32, String)| name_match_line(r.0@, r.1, r.2@))
}

/// The lines for pages with descriptions.
pub open spec fn described_lines(rows: Seq<(String, i32, String, String)>) -> Seq<Seq<char>> {
    rows.map_values(
        |r: (String, i32, String, String)| described_line(r.0@, r.1, r.2@, r.3@),
    )
}

/// Each line of a by-name listing is made from its own row alone: there is
/// one line per row, line `i` is the line that a listing of row `i` by itself
/// shows, and it opens with row `i`'s backend cell.
pub proof fn lemma_name_match_lines_are_per_row(rows: Seq<(String, i32, String)>, i: int)
    requires
        0 <= i < rows.len(),
    ensures
        name_match_lines(rows).len() == rows.len(),
        name_match_lines(rows)[i] == name_match_lines(seq![rows[i]])[0],
        starts_with(name_match_lines(rows)[i], cell(pad_right(rows[i].0@, 20)) + seq!['\t']),
{
    reveal_strlit("\t");
    let l = name_match_lines(rows)[i];
    let p = cell(pad_right(rows[i].0@, 20)) + seq!['\t'];
    assert(l == name_match_line(rows[i].0@, rows[i].1, rows[i].2@));
    assert(l.subrange(0, p.len() as int) =~= p);
}

/// Each line of a listing with descriptions is made from its own row alone:
/// there is one line per row, line `i` is the line that a listing of row `i`
/// by itself shows, and it opens with row `i`'s backend cell and ends with
/// row `i`'s description cell.
pub proof fn lemma_described_lines_are_per_row(rows: Seq<(String, i32, String, String)>, i: int)
    requires
        0 <= i < rows.len(),
    ensures
        described_lines(rows).len() == rows.len(),
        described_lines(rows)[i] == described_lines(seq![rows[i]])[0],
        starts_with(described_lines(rows)[i], cell(pad_right(rows[i].0@, 20)) + seq!['\t']),
        described_lines(rows)[i].len() >= cell(rows[i].3@).len(),
        described_lines(rows)[i].subrange(
            described_lines(rows)[i].len() - cell(rows[i].3@).len(),
            described_lines(rows)[i].len() as int,
        ) == cell(rows[i].3@),
{
    reveal_strlit("\t");
    let l = described_lines(rows)[i];
    let p = cell(pad_right(rows[i].0@, 20)) + seq!['\t'];
    let c = cell(rows[i].3@);
    assert(l == described_line(rows[i].0@, rows[i].1, rows[i].2@, rows[i].3@));
    assert(l.subrange(0, p.len() as int) =~= p);
    assert(l.subrange(l.len() - c.len(), l.len() as int) =~= c);
}

fn name_match_rows(rows: &[(String, i32, String)]) -> (r: Vec<String>)
    ensures
        views(r@) == name_match_lines(rows@),
{
    let mut out: Vec<String> = Vec::new();
    let mut i: usize = 0;
    while i < rows.len()
        invariant
            i <= rows@.len(),
            views(out@) == name_match_lines(rows@).take(i as int),
        decreases rows.len() - i,
    {
        let row = &rows[i];
        let line = string_of(&name_match_chars(row.0.as_str(), row.1, row.2.as_str()));
        let ghost before = out@;
        out.push(line);
        assert(views(out@) =~= views(before).push(name_match_lines(rows@)[i as int]));
        assert(name_match_lines(rows@).take(i + 1) =~= name_match_lines(rows@).take(i as int).push(
            name_match_lines(rows@)[i as int],
        ));
        i += 1;
    }
    assert(name_match_lines(rows@).take(rows@.len() as int) =~= name_match_lines(rows@));
    out
}

fn described_rows(rows: &[(String, i32, String, String)]) -> (r: Vec<String>)
    ensures
        views(r@) == described_lines(rows@),
{
    let mut out: Vec<String> = Vec::new();
    let mut i: usize = 0;
    while i < rows.len()
        invariant
            i <= rows@.len(),
            views(out@) == described_lines(rows@).take(i as int),
        decreases rows.len() - i,
    {
        let row = &rows[i];
        let line = string_of(
            &described_chars(row.0.as_str(), row.1, row.2.as_str(), row.3.as_str()),
        );
        let ghost before = out@;
        out.push(line);
        assert(views(out@) =~= views(before).push(described_lines(rows@)[i as int]));
        assert(described_lines(rows@).take(i + 1) =~= described_lines(rows@).take(i as int).push(
            described_lines(rows@)[i as int],
        ));
        i += 1;
    }
    assert(described_lines(rows@).take(rows@.len() as int) =~= described_lines(rows@));
    out
}

fn template_for(exe: &str) -> (r: String)
    ensures
        r@ == search_template(exe@),
{
    let mut t: Vec<char> = Vec::new();
    push_str(&mut t, exe);
    push_str(&mut t, " {1} {2} {3}");
    string_of(&t)
}

fn header_of(with_description: bool) -> (r: String)
    ensures
        with_description ==> r@ == described_header(),
        !with_description ==> r@ == name_header(),
{
    let mut h: Vec<char> = Vec::new();
    proof {
        reveal_strlit("\t");
    }
    cell_chars(&mut h, &pad_right_chars(&chars_of("BACKEND"), 20));
    h.push('\t');
    if with_description {
        cell_chars(&mut h, &pad_right_chars(&chars_of("NAME"), 30));
        h.push('\t');
        cell_chars(&mut h, &chars_of("DESCRIPTION"));
        assert(h@ =~= described_header());
    } else {
        cell_chars(&mut h, &chars_of("NAME"));
        assert(h@ =~= name_header());
    }
    string_of(&h)
}

/// The listing of the pages whose names contain `topic` (`results`, as the
/// index returned them): a message when there are none; else one line per
/// page, browsed on the backend, section, name and shown-name fields, with
/// this program (`exe`) opening the chosen page.
pub fn run_filename(topic: &str, results: &[(String, i32, String)], plain_text: bool, exe: &str) -> (r: Listing)
    ensures
        results@.len() == 0 ==> (r matches Listing::Message(m)
            && m@ == "No matches for '"@ + topic@ + "' in page names."@),
        results@.len() > 0 ==> listing_is(
            r,
            plain_text,
            name_header(),
            name_match_lines(results@),
            search_template(exe@),
            "1,4"@,
        ),
{
    if results.len() == 0 {
        let mut m: Vec<char> = Vec::new();
        push_str(&mut m, "No matches for '");
        push_str(&mut m, topic);
        push_str(&mut m, "' in page names.");
        return Listing::Message(string_of(&m));
    }
    let lines = name_match_rows(results);
    make_listing(plain_text, header_of(false), lines, template_for(exe), "1,4")
}

/// The listing of the pages that match `keyword` by name or description
/// (`results`, in the index's order of relevance): a message when there are
/// none; else one line per page with its description.
pub fn run_keyword(
    keyword: &str,
    results: &[(String, i32, String, String)],
    plain_text: bool,
    exe: &str,
) -> (r: Listing)
    ensures
        results@.len() == 0 ==> (r matches Listing::Message(m)
            && m@ == "No matches for '"@ + keyword@ + "' in page names and descriptions."@),
        results@.len() > 0 ==> listing_is(
            r,
            plain_text,
            described_header(),
            described_lines(results@),
            search_template(exe@),
            "1,4,5"@,
        ),
{
    if results.len() == 0 {
        let mut m: Vec<char> = Vec::new();
        push_str(&mut m, "No matches for '");
        push_str(&mut m, keyword);
        push_str(&mut m, "' in page names and descriptions.");
        return Listing::Message(string_of(&m));
    }
    let lines = described_rows(results);
    make_listing(plain_text, header_of(true), lines, template_for(exe), "1,4,5")
}

/// The listing of every indexed page (`results`): a message when the index
/// is empty; else one line per page with its description.
pub fn run_all(results: &[(String, i32, String, String)], plain_text: bool, exe: &str) -> (r: Listing)
    ensures
        results@.len() == 0 ==> (r matches Listing::Message(m)
            && m@ == "No man pages indexed. Try installing a backend first."@),
        results@.len() > 0 ==> listing_is(
            r,
            plain_text,
            described_header(),
            described_lines(results@),
            search_template(exe@),
            "1,4,5"@,
        ),
{
    if results.len() == 0 {
        return Listing::Message(owned("No man pages indexed. Try installing a backend first."));
    }
    let lines = described_rows(results);
    make_listing(plain_text, header_of(true), lines, template_for(exe), "1,4,5")
}

} // verus!
