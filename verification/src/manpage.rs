//! Recognising man page files and reading the one-line description out of a
//! roff page.
use vstd::prelude::*;
use crate::text::{
    chars_eq, chars_of, decimal, digit_char, find, find_chars, join, join_chars, lines, lowercase, replace,
    replace_chars, split_lines, starts_with, starts_with_chars, string_of, sub_chars, to_lowercase,
    trim, trim_chars,
};

verus! {

/// `s` with every trailing `.gz` removed (`str::trim_end_matches(".gz")`).
pub open spec fn strip_gz(s: Seq<char>) -> Seq<char>
    decreases s.len(),
{
    if s.len() >= 3 && s.subrange(s.len() - 3, s.len() as int) == seq!['.', 'g', 'z'] {
        strip_gz(s.take(s.len() - 3))
    } else {
        s
    }
}

/// The position of the last `c` in `s`.
pub open spec fn last_index_of(s: Seq<char>, c: char) -> Option<int>
    decreases s.len(),
{
    if s.len() == 0 {
        None
    } else if s.last() == c {
        Some(s.len() - 1)
    } else {
        last_index_of(s.drop_last(), c)
    }
}

/// An ASCII decimal digit.
pub open spec fn is_digit(c: char) -> bool {
    '0' <= c <= '9'
}

/// Every character of `s` is an ASCII decimal digit.
pub open spec fn all_digits(s: Seq<char>) -> bool {
    forall|i: int| 0 <= i < s.len() ==> is_digit(#[trigger] s[i])
}

/// The number written by the digits `s`.
pub open spec fn digits_value(s: Seq<char>) -> int
    decreases s.len(),
{
    if s.len() == 0 {
        0
    } else {
        10 * digits_value(s.drop_last()) + ((s.last() as u32) - ('0' as u32))
    }
}

/// What `str::parse::<i32>` accepts: an optional `+` or `-`, then one or more
/// ASCII digits, denoting a value that fits in an `i32`.
pub open spec fn parse_i32(s: Seq<char>) -> Option<i32> {
    if s.len() == 0 {
        None
    } else {
        let signed = s[0] == '+' || s[0] == '-';
        let body = if signed { s.drop_first() } else { s };
        if body.len() == 0 || !all_digits(body) {
            None
        } else {
            let v = if s[0] == '-' { -digits_value(body) } else { digits_value(body) };
            if i32::MIN <= v <= i32::MAX { Some(v as i32) } else { None }
        }
    }
}

/// The section number and topic name that a man page file name stands for:
/// after dropping `.gz` suffixes, the text after the last `.` must be a
/// section number and the text before it is the name.
pub open spec fn section_and_name(file_name: Seq<char>) -> Option<(i32, Seq<char>)> {
    let t = strip_gz(file_name);
    match last_index_of(t, '.') {
        None => None,
        Some(k) => match parse_i32(t.skip(k + 1)) {
            None => None,
            Some(section) => Some((section, t.take(k))),
        },
    }
}

proof fn lemma_digits_value_nonneg(s: Seq<char>)
    requires
        all_digits(s),
    ensures
        digits_value(s) >= 0,
    decreases s.len(),
{
    if s.len() > 0 {
        lemma_digits_value_nonneg(s.drop_last());
    }
}

/// Appending digits never makes the value smaller.
proof fn lemma_digits_value_prefix(s: Seq<char>, i: int)
    requires
        all_digits(s),
        0 <= i <= s.len(),
    ensures
        digits_value(s.take(i)) <= digits_value(s),
    decreases s.len() - i,
{
    if i < s.len() {
        lemma_digits_value_prefix(s.drop_last(), i);
        assert(s.drop_last().take(i) == s.take(i));
        lemma_digits_value_nonneg(s.drop_last());
    } else {
        assert(s.take(i) == s);
    }
}

proof fn lemma_decimal_digits(n: nat)
    ensures
        decimal(n).len() > 0,
        all_digits(decimal(n)),
        digits_value(decimal(n)) == n,
    decreases n,
{
    let c = digit_char((n % 10) as int);
    assert((c as u32) - ('0' as u32) == n % 10);
    if n >= 10 {
        lemma_decimal_digits(n / 10);
        let d = decimal(n);
        assert(d.drop_last() == decimal(n / 10));
        assert(d.last() == c);
        assert forall|i: int| 0 <= i < d.len() implies is_digit(#[trigger] d[i]) by {
            if i < d.len() - 1 {
                assert(d[i] == decimal(n / 10)[i]);
            }
        }
        assert(digits_value(d) == 10 * digits_value(decimal(n / 10)) + ((c as u32) - ('0' as u32)));
        assert(10 * (n / 10) + n % 10 == n);
    } else {
        let d = decimal(n);
        assert(d.drop_last() =~= Seq::<char>::empty());
        assert(digits_value(d) == 10 * digits_value(d.drop_last()) + ((d.last() as u32) - ('0' as u32)));
    }
}

proof fn lemma_last_dot_before_digits(name: Seq<char>, d: Seq<char>)
    requires
        all_digits(d),
    ensures
        last_index_of(name + seq!['.'] + d, '.') == Some(name.len() as int),
    decreases d.len(),
{
    let s = name + seq!['.'] + d;
    if d.len() == 0 {
        assert(s.last() == '.');
    } else {
        assert(is_digit(d.last()));
        assert(s.last() == d.last());
        assert(s.drop_last() == name + seq!['.'] + d.drop_last());
        assert(all_digits(d.drop_last())) by {
            assert forall|i: int| 0 <= i < d.drop_last().len() implies is_digit(#[trigger] d.drop_last()[i]) by {
                assert(d.drop_last()[i] == d[i]);
            }
        }
        lemma_last_dot_before_digits(name, d.drop_last());
    }
}

/// A man page file named after a topic and a section (`<name>.<section>`),
/// compressed (`.gz`) or not, is read back as that section and name, however
/// many dots the name holds.
pub proof fn lemma_page_file_roundtrip(name: Seq<char>, section: i32, gz: bool)
    requires
        section >= 0,
    ensures
        section_and_name(
            name + seq!['.'] + decimal(section as nat) + if gz {
                seq!['.', 'g', 'z']
            } else {
                Seq::<char>::empty()
            },
        ) == Some((section, name)),
{
    let d = decimal(section as nat);
    lemma_decimal_digits(section as nat);
    let base = name + seq!['.'] + d;
    let file = base + if gz { seq!['.', 'g', 'z'] } else { Seq::<char>::empty() };
    assert(is_digit(base.last()));
    assert(strip_gz(base) == base) by {
        if base.len() >= 3 {
            assert(base.subrange(base.len() - 3, base.len() as int).last() == base.last());
        }
    }
    if gz {
        assert(file.subrange(file.len() - 3, file.len() as int) == seq!['.', 'g', 'z']);
        assert(file.take(file.len() - 3) == base);
    } else {
        assert(file == base);
    }
    assert(strip_gz(file) == base);
    lemma_last_dot_before_digits(name, d);
    assert(base.skip((name.len() + 1) as int) == d);
    assert(base.take(name.len() as int) == name);
    assert(is_digit(d[0]));
    lemma_digits_value_nonneg(d);
}

/// Parses a decimal `i32` the way `str::parse::<i32>` does.
pub fn parse_i32_chars(v: &[char]) -> (r: Option<i32>)
    ensures
        r == parse_i32(v@),
{
    if v.len() == 0 {
        return None;
    }
    let negative = v[0] == '-';
    let start: usize = if v[0] == '+' || v[0] == '-' { 1 } else { 0 };
    let ghost body = if start == 1 { v@.drop_first() } else { v@ };
    assert(body == v@.skip(start as int));
    if start >= v.len() {
        return None;
    }
    let mut acc: i64 = 0;
    let mut i = start;
    while i < v.len()
        invariant
            start <= i <= v@.len(),
            start < v@.len(),
            v@[0] == '+' || v@[0] == '-' ==> start == 1,
            !(v@[0] == '+' || v@[0] == '-') ==> start == 0,
            negative == (v@[0] == '-'),
            body == (if v@[0] == '+' || v@[0] == '-' { v@.drop_first() } else { v@ }),
            body == v@.skip(start as int),
            forall|k: int| start <= k < i ==> is_digit(#[trigger] v@[k]),
            acc == digits_value(body.take(i - start)),
            0 <= acc <= 2147483648,
        decreases v.len() - i,
    {
        let c = v[i];
        if !('0' <= c && c <= '9') {
            assert(!all_digits(body)) by {
                assert(body[i - start] == c);
            }
            assert(parse_i32(v@) is None);
            return None;
        }
        let d = (c as u32 - '0' as u32) as i64;
        assert(body.take(i - start + 1).drop_last() == body.take(i - start));
        acc = acc * 10 + d;
        if acc > 2147483648 {
            proof {
                let t = body.take(i - start + 1);
                assert forall|k: int| 0 <= k < t.len() implies is_digit(#[trigger] t[k]) by {
                    assert(t[k] == v@[start + k]);
                }
                if all_digits(body) {
                    lemma_digits_value_prefix(body, i - start + 1);
                    assert(digits_value(body) > 2147483648);
                }
                assert(parse_i32(v@) is None);
            }
            return None;
        }
        i += 1;
    }
    assert(body.take(i - start) == body);
    assert(all_digits(body)) by {
        assert forall|k: int| 0 <= k < body.len() implies is_digit(#[trigger] body[k]) by {
            assert(body[k] == v@[start + k]);
        }
    }
    if negative {
        Some((-acc) as i32)
    } else if acc <= 2147483647 {
        Some(acc as i32)
    } else {
        None
    }
}

/// The length of `v` once every trailing `.gz` is dropped.
fn strip_gz_len(v: &[char]) -> (hi: usize)
    ensures
        hi <= v@.len(),
        strip_gz(v@) == v@.take(hi as int),
{
    let mut hi = v.len();
    assert(v@.take(hi as int) == v@);
    while hi >= 3 && v[hi - 3] == '.' && v[hi - 2] == 'g' && v[hi - 1] == 'z'
        invariant
            hi <= v@.len(),
            strip_gz(v@) == strip_gz(v@.take(hi as int)),
        decreases hi,
    {
        let ghost t = v@.take(hi as int);
        assert(t.subrange(t.len() - 3, t.len() as int) =~= seq!['.', 'g', 'z']);
        assert(t.take(t.len() - 3) == v@.take(hi - 3));
        hi -= 3;
    }
    let ghost t = v@.take(hi as int);
    assert(strip_gz(t) == t) by {
        if t.len() >= 3 && t.subrange(t.len() - 3, t.len() as int) == seq!['.', 'g', 'z'] {
            assert(t.subrange(t.len() - 3, t.len() as int)[0] == v@[hi - 3]);
            assert(t.subrange(t.len() - 3, t.len() as int)[1] == v@[hi - 2]);
            assert(t.subrange(t.len() - 3, t.len() as int)[2] == v@[hi - 1]);
        }
    }
    hi
}

/// The position of the last `.` among the first `hi` characters of `v`.
fn last_dot(v: &[char], hi: usize) -> (r: Option<usize>)
    requires
        hi <= v@.len(),
    ensures
        match r {
            Some(k) => last_index_of(v@.take(hi as int), '.') == Some(k as int) && k < hi,
            None => last_index_of(v@.take(hi as int), '.') is None,
        },
{
    let ghost t = v@.take(hi as int);
    let mut k = hi;
    assert(v@.take(k as int) == t);
    while k > 0 && v[k - 1] != '.'
        invariant
            k <= hi <= v@.len(),
            t == v@.take(hi as int),
            last_index_of(t, '.') == last_index_of(v@.take(k as int), '.'),
        decreases k,
    {
        assert(v@.take(k as int).drop_last() == v@.take(k - 1));
        k -= 1;
    }
    if k == 0 {
        None
    } else {
        Some(k - 1)
    }
}

/// The section number and topic name of a man page file name such as
/// `printf.3.gz`, or `None` when the name does not end in a section number.
pub fn parse_section_and_name(file_name: &str) -> (r: Option<(i32, String)>)
    ensures
        match r {
            Some((section, name)) => section_and_name(file_name@) == Some((section, name@)),
            None => section_and_name(file_name@) is None,
        },
{
    let v = chars_of(file_name);
    let hi = strip_gz_len(&v);
    let ghost t = v@.take(hi as int);
    match last_dot(&v, hi) {
        None => None,
        Some(dot) => {
            let section_chars = sub_chars(&v, dot + 1, hi);
            assert(section_chars@ == t.skip(dot + 1));
            match parse_i32_chars(&section_chars) {
                None => None,
                Some(section) => {
                    let name_chars = sub_chars(&v, 0, dot);
                    assert(name_chars@ == t.take(dot as int));
                    Some((section, string_of(&name_chars)))
                },
            }
        },
    }
}


/// A roff section heading: a line starting with `.SH` or `.Sh`.
pub open spec fn is_section_heading(t: Seq<char>) -> bool {
    starts_with(t, seq!['.', 'S', 'H']) || starts_with(t, seq!['.', 'S', 'h'])
}

/// The heading of the NAME section (the heading's title is compared
/// trimmed and lower-cased).
pub open spec fn is_name_heading(t: Seq<char>) -> bool {
    is_section_heading(t) && lowercase(trim(t.skip(3))) == seq!['n', 'a', 'm', 'e']
}

/// The text lines of the NAME section among `ls`, trimmed, with blank lines
/// and roff requests (lines starting with `.`) left out. `inside` says
/// whether the lines before `ls` already opened the NAME section; the section
/// ends at the next heading that is not a NAME heading.
pub open spec fn name_section_lines(ls: Seq<Seq<char>>, inside: bool) -> Seq<Seq<char>>
    decreases ls.len(),
{
    if ls.len() == 0 {
        seq![]
    } else {
        let t = trim(ls[0]);
        if is_name_heading(t) {
            name_section_lines(ls.drop_first(), true)
        } else if is_section_heading(t) && inside {
            seq![]
        } else if inside && t.len() > 0 && t[0] != '.' {
            seq![t] + name_section_lines(ls.drop_first(), true)
        } else {
            name_section_lines(ls.drop_first(), inside)
        }
    }
}

/// Some line of `ls`, trimmed, is the NAME heading.
pub open spec fn has_name_heading(ls: Seq<Seq<char>>) -> bool {
    exists|k: int| 0 <= k < ls.len() && is_name_heading(trim(#[trigger] ls[k]))
}

/// The NAME section ends at the next other section heading: once the NAME
/// section is open (before `ls`, or opened by a NAME heading among `ls`),
/// the lines after a later heading `h` that is not a NAME heading never
/// count, whatever they are.
pub proof fn lemma_name_section_ends_at_heading(
    ls: Seq<Seq<char>>,
    inside: bool,
    h: Seq<char>,
    r1: Seq<Seq<char>>,
    r2: Seq<Seq<char>>,
)
    requires
        inside || has_name_heading(ls),
        is_section_heading(trim(h)),
        !is_name_heading(trim(h)),
    ensures
        name_section_lines(ls + seq![h] + r1, inside) == name_section_lines(ls + seq![h] + r2, inside),
    decreases ls.len(),
{
    let s1 = ls + seq![h] + r1;
    let s2 = ls + seq![h] + r2;
    if ls.len() == 0 {
        assert(s1[0] == h && s2[0] == h);
    } else {
        let rest = ls.drop_first();
        assert(s1[0] == ls[0] && s2[0] == ls[0]);
        assert(s1.drop_first() =~= rest + seq![h] + r1);
        assert(s2.drop_first() =~= rest + seq![h] + r2);
        let t = trim(ls[0]);
        if is_name_heading(t) {
            lemma_name_section_ends_at_heading(rest, true, h, r1, r2);
        } else if is_section_heading(t) && inside {
        } else if inside && t.len() > 0 && t[0] != '.' {
            lemma_name_section_ends_at_heading(rest, true, h, r1, r2);
        } else {
            if !inside {
                let k = choose|k: int| 0 <= k < ls.len() && is_name_heading(trim(#[trigger] ls[k]));
                assert(k != 0);
                assert(rest[k - 1] == ls[k]);
            }
            lemma_name_section_ends_at_heading(rest, inside, h, r1, r2);
        }
    }
}

/// Inside the NAME section, lines up to the next other section heading `h`
/// are all that count: the NAME lines of `body`, `h` and anything after are
/// those of `body` alone.
pub proof fn lemma_name_section_stops_at_heading(body: Seq<Seq<char>>, h: Seq<char>, rest: Seq<Seq<char>>)
    requires
        forall|k: int| 0 <= k < body.len() ==> !is_section_heading(trim(#[trigger] body[k])),
        is_section_heading(trim(h)),
        !is_name_heading(trim(h)),
    ensures
        name_section_lines(body + seq![h] + rest, true) == name_section_lines(body, true),
    decreases body.len(),
{
    let s = body + seq![h] + rest;
    if body.len() == 0 {
        assert(s[0] == h);
    } else {
        let tail = body.drop_first();
        assert(s[0] == body[0]);
        assert(s.drop_first() =~= tail + seq![h] + rest);
        assert forall|k: int| 0 <= k < tail.len() implies !is_section_heading(trim(#[trigger] tail[k])) by {
            assert(tail[k] == body[k + 1]);
        }
        assert(!is_section_heading(trim(body[0])));
        lemma_name_section_stops_at_heading(tail, h, rest);
    }
}

/// The description of a page depends only on its text up to the heading
/// that closes the NAME section: two pages whose lines agree up to and
/// including a non-NAME heading after their NAME heading have the same
/// description, whatever sections follow.
pub proof fn lemma_description_ignores_later_sections(
    c1: Seq<char>,
    c2: Seq<char>,
    ls: Seq<Seq<char>>,
    h: Seq<char>,
    r1: Seq<Seq<char>>,
    r2: Seq<Seq<char>>,
)
    requires
        lines(c1) == ls + seq![h] + r1,
        lines(c2) == ls + seq![h] + r2,
        has_name_heading(ls),
        is_section_heading(trim(h)),
        !is_name_heading(trim(h)),
    ensures
        description_of(c1) == description_of(c2),
{
    lemma_name_section_ends_at_heading(ls, false, h, r1, r2);
}

/// The roff escapes that a description line is cleaned of, in order.
pub open spec fn roff_cleanup(s: Seq<char>) -> Seq<char> {
    let s1 = replace(s, seq!['\\', '-', ' '], seq!['-', ' ']);
    let s2 = replace(s1, seq!['\\', '-'], seq!['-']);
    let s3 = replace(s2, seq!['\\', 'f', 'B'], seq![]);
    let s4 = replace(s3, seq!['\\', 'f', 'I'], seq![]);
    let s5 = replace(s4, seq!['\\', 'f', 'P'], seq![]);
    let s6 = replace(s5, seq!['\\', 'f', 'R'], seq![]);
    let s7 = replace(s6, seq!['\\', '&'], seq![]);
    let s8 = replace(s7, seq!['\\', '(', 't', 'm'], seq!['T', 'M']);
    let s9 = replace(s8, seq!['\\', '(', 'r', 'e', 'g'], seq!['(', 'R', ')']);
    replace(s9, seq![' ', ' '], seq![' '])
}

/// The one-line description of a roff man page: the NAME section's lines
/// joined with spaces, cleaned of roff escapes, and cut after the first
/// ` - ` that separates the page names from their description.
pub open spec fn description_of(content: Seq<char>) -> Seq<char> {
    let ls = name_section_lines(lines(content), false);
    if ls.len() == 0 {
        seq![]
    } else {
        let cleaned = roff_cleanup(join(ls, seq![' ']));
        match find(cleaned, seq![' ', '-', ' ']) {
            Some(i) => trim(cleaned.skip(i + 3)),
            None => trim(cleaned),
        }
    }
}

fn is_section_heading_exec(t: &[char]) -> (r: bool)
    ensures
        r == is_section_heading(t@),
{
    let a: Vec<char> = vec!['.', 'S', 'H'];
    let b: Vec<char> = vec!['.', 'S', 'h'];
    starts_with_chars(t, &a) || starts_with_chars(t, &b)
}

fn is_name_heading_exec(t: &[char]) -> (r: bool)
    ensures
        r == is_name_heading(t@),
{
    if !is_section_heading_exec(t) {
        return false;
    }
    let title = sub_chars(t, 3, t.len());
    assert(title@ == t@.skip(3));
    let title = trim_chars(&title);
    let title = to_lowercase(&title);
    let name: Vec<char> = vec!['n', 'a', 'm', 'e'];
    chars_eq(&title, &name)
}

/// The trimmed text lines of the NAME section of a page (see
/// `name_section_lines`).
fn collect_name_lines(ls: &Vec<Vec<char>>) -> (r: Vec<Vec<char>>)
    ensures
        r@.map_values(|l: Vec<char>| l@) == name_section_lines(
            ls@.map_values(|l: Vec<char>| l@),
            false,
        ),
{
    let ghost all = ls@.map_values(|l: Vec<char>| l@);
    let mut out: Vec<Vec<char>> = Vec::new();
    let mut inside = false;
    let mut i: usize = 0;
    assert(all.skip(0) == all);
    while i < ls.len()
        invariant
            i <= ls@.len(),
            all == ls@.map_values(|l: Vec<char>| l@),
            name_section_lines(all, false) == out@.map_values(|l: Vec<char>| l@)
                + name_section_lines(all.skip(i as int), inside),
        decreases ls.len() - i,
    {
        let ghost rest = all.skip(i as int);
        assert(rest[0] == ls@[i as int]@);
        assert(rest.drop_first() == all.skip(i + 1));
        let t = trim_chars(&ls[i]);
        if is_name_heading_exec(&t) {
            inside = true;
        } else if is_section_heading_exec(&t) && inside {
            assert(name_section_lines(rest, inside) == Seq::<Seq<char>>::empty());
            assert(out@.map_values(|l: Vec<char>| l@) + Seq::<Seq<char>>::empty() == out@.map_values(|l: Vec<char>| l@));
            return out;
        } else if inside && t.len() > 0 && t[0] != '.' {
            let ghost before = out@;
            out.push(t);
            assert(out@.map_values(|l: Vec<char>| l@) == before.map_values(|l: Vec<char>| l@).push(t@));
        }
        i += 1;
    }
    assert(all.skip(i as int).len() == 0);
    assert(out@.map_values(|l: Vec<char>| l@) + Seq::<Seq<char>>::empty() == out@.map_values(|l: Vec<char>| l@));
    out
}

/// Cleans a joined description of roff escapes (see `roff_cleanup`).
fn cleanup_roff(s: &[char]) -> (r: Vec<char>)
    ensures
        r@ == roff_cleanup(s@),
{
    let p1: Vec<char> = vec!['\\', '-', ' '];
    let r1: Vec<char> = vec!['-', ' '];
    let p2: Vec<char> = vec!['\\', '-'];
    let r2: Vec<char> = vec!['-'];
    let p3: Vec<char> = vec!['\\', 'f', 'B'];
    let p4: Vec<char> = vec!['\\', 'f', 'I'];
    let p5: Vec<char> = vec!['\\', 'f', 'P'];
    let p6: Vec<char> = vec!['\\', 'f', 'R'];
    let p7: Vec<char> = vec!['\\', '&'];
    let p8: Vec<char> = vec!['\\', '(', 't', 'm'];
    let r8: Vec<char> = vec!['T', 'M'];
    let p9: Vec<char> = vec!['\\', '(', 'r', 'e', 'g'];
    let r9: Vec<char> = vec!['(', 'R', ')'];
    let p10: Vec<char> = vec![' ', ' '];
    let r10: Vec<char> = vec![' '];
    let none: Vec<char> = Vec::new();
    assert(p1@ == seq!['\\', '-', ' '] && r1@ == seq!['-', ' ']);
    assert(p2@ == seq!['\\', '-'] && r2@ == seq!['-']);
    assert(p3@ == seq!['\\', 'f', 'B'] && p4@ == seq!['\\', 'f', 'I']);
    assert(p5@ == seq!['\\', 'f', 'P'] && p6@ == seq!['\\', 'f', 'R']);
    assert(p7@ == seq!['\\', '&'] && none@ == Seq::<char>::empty());
    assert(p8@ == seq!['\\', '(', 't', 'm'] && r8@ == seq!['T', 'M']);
    assert(p9@ == seq!['\\', '(', 'r', 'e', 'g'] && r9@ == seq!['(', 'R', ')']);
    assert(p10@ == seq![' ', ' '] && r10@ == seq![' ']);
    let s1 = replace_chars(s, &p1, &r1);
    let s2 = replace_chars(&s1, &p2, &r2);
    let s3 = replace_chars(&s2, &p3, &none);
    let s4 = replace_chars(&s3, &p4, &none);
    let s5 = replace_chars(&s4, &p5, &none);
    let s6 = replace_chars(&s5, &p6, &none);
    let s7 = replace_chars(&s6, &p7, &none);
    let s8 = replace_chars(&s7, &p8, &r8);
    let s9 = replace_chars(&s8, &p9, &r9);
    replace_chars(&s9, &p10, &r10)
}

/// The one-line description of a roff man page whose text is `content`
/// (empty when the page has no NAME section).
pub fn extract_description(content: &str) -> (r: String)
    ensures
        r@ == description_of(content@),
{
    let v = chars_of(content);
    let ls = split_lines(&v);
    let name_lines = collect_name_lines(&ls);
    if name_lines.len() == 0 {
        return String::new();
    }
    let space: Vec<char> = vec![' '];
    assert(space@ == seq![' ']);
    let raw = join_chars(&name_lines, &space);
    let cleaned = cleanup_roff(&raw);
    let dash: Vec<char> = vec![' ', '-', ' '];
    assert(dash@ == seq![' ', '-', ' ']);
    match find_chars(&cleaned, &dash) {
        Some(idx) => {
            proof {
                crate::text::lemma_find_from_bounds(cleaned@, dash@, 0);
                assert(find(cleaned@, dash@) == Some(idx as int));
                assert(crate::text::occurs_at(cleaned@, dash@, idx as int));
            }
            let n = cleaned.len();
            let tail = sub_chars(&cleaned, idx + 3, n);
            assert(tail@ == cleaned@.skip(idx + 3));
            string_of(&trim_chars(&tail))
        },
        None => string_of(&trim_chars(&cleaned)),
    }
}

} // verus!
