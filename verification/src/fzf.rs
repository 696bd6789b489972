//! Browsing a listing with fzf: what a listing command shows, the arguments
//! that start fzf in browse mode, and how fzf's exit is read.
use vstd::prelude::*;
use crate::error::UmanError;
use crate::text::{fmt_i64, owned, push_owned, push_str, signed_decimal, string_of, views};

verus! {

/// A listing to browse: the header line, the command that fzf runs for the
/// chosen line (with fzf's field references), the fields shown, and the lines.
pub struct BrowseSpec {
    pub header: String,
    pub template: String,
    pub with_nth: Option<String>,
    pub lines: Vec<String>,
}

/// What a listing command ends in: a message when there is nothing to list,
/// lines to print (header first) in plain-text mode, or a listing to browse.
pub enum Listing {
    Message(String),
    Plain(Vec<String>),
    Browse(BrowseSpec),
}

/// Whether `l` is the listing with these parts, printed when `plain_text`
/// holds and browsed otherwise.
pub open spec fn listing_is(
    l: Listing,
    plain_text: bool,
    header: Seq<char>,
    lines: Seq<Seq<char>>,
    template: Seq<char>,
    with_nth: Seq<char>,
) -> bool {
    if plain_text {
        l matches Listing::Plain(v) && views(v@) == seq![header] + lines
    } else {
        l matches Listing::Browse(b) && b.header@ == header && views(b.lines@) == lines
            && b.template@ == template && (b.with_nth matches Some(n) && n@ == with_nth)
    }
}

/// Puts a listing together: printed in plain-text mode, browsed otherwise.
pub fn make_listing(
    plain_text: bool,
    header: String,
    lines: Vec<String>,
    template: String,
    with_nth: &str,
) -> (r: Listing)
    ensures
        listing_is(r, plain_text, header@, views(lines@), template@, with_nth@),
{
    if plain_text {
        let mut out: Vec<String> = Vec::new();
        out.push(header);
        let ghost start = out@;
        let mut i: usize = 0;
        while i < lines.len()
            invariant
                i <= lines@.len(),
                views(out@) == views(start) + views(lines@).take(i as int),
                views(start) == seq![header@],
            decreases lines.len() - i,
        {
            let t = owned(lines[i].as_str());
            let ghost before = out@;
            out.push(t);
            assert(views(out@) =~= views(before).push(lines@[i as int]@));
            assert(views(lines@).take(i + 1) == views(lines@).take(i as int).push(lines@[i as int]@));
            assert(views(out@) =~= views(start) + views(lines@).take(i + 1));
            i += 1;
        }
        assert(views(lines@).take(lines@.len() as int) == views(lines@));
        Listing::Plain(out)
    } else {
        Listing::Browse(BrowseSpec { header, template, with_nth: Some(owned(with_nth)), lines })
    }
}

/// Accepts fzf when it was found on the system.
pub fn require_fzf(found: bool) -> (r: Result<(), UmanError>)
    ensures
        found ==> r is Ok,
        !found ==> r matches Err(UmanError::FzfNotFound),
{
    if found {
        Ok(())
    } else {
        Err(UmanError::FzfNotFound)
    }
}

/// The arguments that start fzf in browse mode: tab-separated fields, the
/// list from the top, the `template` command run on Enter (fzf stays open),
/// and the fields shown when `with_nth` is given.
pub fn browse_args(header: &str, template: &str, with_nth: Option<&str>) -> (r: Vec<String>)
    ensures
        views(r@) == seq![
            "--header"@, header@, "--delimiter"@, "\t"@, "--layout"@, "reverse"@, "--bind"@,
            "enter:execute("@ + template@ + ")"@,
        ] + match with_nth {
            Some(n) => seq!["--with-nth"@, n@],
            None => Seq::<Seq<char>>::empty(),
        },
{
    let mut args: Vec<String> = Vec::new();
    push_owned(&mut args, "--header");
    push_owned(&mut args, header);
    push_owned(&mut args, "--delimiter");
    push_owned(&mut args, "\t");
    push_owned(&mut args, "--layout");
    push_owned(&mut args, "reverse");
    push_owned(&mut args, "--bind");
    let mut bind: Vec<char> = Vec::new();
    push_str(&mut bind, "enter:execute(");
    push_str(&mut bind, template);
    push_str(&mut bind, ")");
    let bind = string_of(&bind);
    push_owned(&mut args, bind.as_str());
    match with_nth {
        Some(n) => {
            push_owned(&mut args, "--with-nth");
            push_owned(&mut args, n);
        },
        None => {},
    }
    args
}

/// How fzf's exit is read: codes 0, 1 and 130 (a choice, no match, or
/// Escape / Ctrl-C) end browsing normally; any other code, or an end by a
/// signal (`None`), is an error with this text.
pub fn browse_outcome(code: Option<i32>) -> (r: Result<(), String>)
    ensures
        match code {
            Some(c) => if c == 0 || c == 1 || c == 130 {
                r is Ok
            } else {
                r matches Err(m) && m@ == "fzf exited with unexpected code "@ + signed_decimal(c as int)
            },
            None => r matches Err(m) && m@ == "fzf was terminated by a signal"@,
        },
{
    match code {
        Some(c) => {
            if c == 0 || c == 1 || c == 130 {
                Ok(())
            } else {
                let mut m: Vec<char> = Vec::new();
                push_str(&mut m, "fzf exited with unexpected code ");
                let digits = fmt_i64(c as i64);
                crate::text::append_chars(&mut m, &digits);
                Err(string_of(&m))
            }
        },
        None => Err(owned("fzf was terminated by a signal")),
    }
}

} // verus!
