//! Where the reader keeps its files, relative to the user's home directory,
//! and which backend names are acceptable as directory names.
use vstd::prelude::*;
use crate::error::UmanError;
use crate::text::{append_chars, chars_of, string_of};

verus! {

/// `base` with the path component `comp` appended, as `PathBuf::join` does on
/// Unix: an absolute `comp` replaces `base`, and a `/` is put between them
/// unless `base` is empty or already ends in one.
pub open spec fn path_join(base: Seq<char>, comp: Seq<char>) -> Seq<char> {
    if comp.len() > 0 && comp[0] == '/' {
        comp
    } else if base.len() == 0 {
        comp
    } else if base.last() == '/' {
        base + comp
    } else {
        base + seq!['/'] + comp
    }
}

/// Appends the path component `comp` to `base` (see `path_join`).
pub fn join_path(base: &str, comp: &str) -> (r: String)
    ensures
        r@ == path_join(base@, comp@),
{
    let b = chars_of(base);
    let c = chars_of(comp);
    if c.len() > 0 && c[0] == '/' {
        return string_of(&c);
    }
    if b.len() == 0 {
        return string_of(&c);
    }
    let mut out: Vec<char> = Vec::new();
    append_chars(&mut out, &b);
    if b[b.len() - 1] != '/' {
        out.push('/');
    }
    append_chars(&mut out, &c);
    string_of(&out)
}

/// `~/.config/uman`.
pub open spec fn config_dir_of(home: Seq<char>) -> Seq<char> {
    path_join(path_join(home, ".config"@), "uman"@)
}

/// `~/.uman`.
pub open spec fn data_dir_of(home: Seq<char>) -> Seq<char> {
    path_join(home, ".uman"@)
}

/// `~/.config/uman/config.json`.
pub open spec fn config_path_of(home: Seq<char>) -> Seq<char> {
    path_join(config_dir_of(home), "config.json"@)
}

/// `~/.uman/backends`.
pub open spec fn backends_dir_of(home: Seq<char>) -> Seq<char> {
    path_join(data_dir_of(home), "backends"@)
}

/// `~/.uman/index`.
pub open spec fn index_dir_of(home: Seq<char>) -> Seq<char> {
    path_join(data_dir_of(home), "index"@)
}

/// `~/.uman/index/uman.db`.
pub open spec fn db_path_of(home: Seq<char>) -> Seq<char> {
    path_join(index_dir_of(home), "uman.db"@)
}

/// `~/.uman/backends/<name>`.
pub open spec fn backend_dir_of(home: Seq<char>, name: Seq<char>) -> Seq<char> {
    path_join(backends_dir_of(home), name)
}

/// The directory of the configuration file, under the home directory `home`.
pub fn config_dir(home: &str) -> (r: String)
    ensures
        r@ == config_dir_of(home@),
{
    let c = join_path(home, ".config");
    join_path(&c, "uman")
}

/// The directory of the backends and the index, under the home directory `home`.
pub fn data_dir(home: &str) -> (r: String)
    ensures
        r@ == data_dir_of(home@),
{
    join_path(home, ".uman")
}

/// The configuration file, under the home directory `home`.
pub fn config_path(home: &str) -> (r: String)
    ensures
        r@ == config_path_of(home@),
{
    let d = config_dir(home);
    join_path(&d, "config.json")
}

/// The directory that holds one directory per installed backend.
pub fn backends_dir(home: &str) -> (r: String)
    ensures
        r@ == backends_dir_of(home@),
{
    let d = data_dir(home);
    join_path(&d, "backends")
}

/// The directory of the page index.
pub fn index_dir(home: &str) -> (r: String)
    ensures
        r@ == index_dir_of(home@),
{
    let d = data_dir(home);
    join_path(&d, "index")
}

/// The page index database file.
pub fn db_path(home: &str) -> (r: String)
    ensures
        r@ == db_path_of(home@),
{
    let d = index_dir(home);
    join_path(&d, "uman.db")
}

/// The directory of the backend `name`.
pub fn backend_dir(home: &str, name: &str) -> (r: String)
    ensures
        r@ == backend_dir_of(home@, name@),
{
    let d = backends_dir(home);
    join_path(&d, name)
}

/// A character allowed in a backend name: an ASCII letter or digit, `_` or `-`.
pub open spec fn is_name_char(c: char) -> bool {
    ||| 'a' <= c <= 'z'
    ||| 'A' <= c <= 'Z'
    ||| '0' <= c <= '9'
    ||| c == '_'
    ||| c == '-'
}

/// A backend name: one or more allowed characters (so it cannot climb out of
/// the backends directory).
pub open spec fn is_backend_name(s: Seq<char>) -> bool {
    s.len() > 0 && forall|i: int| 0 <= i < s.len() ==> is_name_char(#[trigger] s[i])
}

/// A valid backend name names a directory directly inside the backends
/// directory: it holds no `/`, it is neither `.` nor `..`, and the backend's
/// directory is the backends directory, a `/` and the name.
pub proof fn lemma_backend_dir_stays_inside(home: Seq<char>, name: Seq<char>)
    requires
        is_backend_name(name),
    ensures
        !name.contains('/'),
        name != "."@,
        name != ".."@,
        backend_dir_of(home, name) == backends_dir_of(home) + seq!['/'] + name,
{
    reveal_strlit(".");
    reveal_strlit("..");
    reveal_strlit("backends");
    assert(is_name_char(name[0]));
    assert(!name.contains('/')) by {
        if name.contains('/') {
            let i = choose|i: int| 0 <= i < name.len() && name[i] == '/';
            assert(is_name_char(name[i]));
        }
    }
    let b = backends_dir_of(home);
    let d = data_dir_of(home);
    assert(b.len() > 0 && b.last() == 's') by {
        if d.len() == 0 {
            assert(b == "backends"@);
        } else if d.last() == '/' {
            assert(b == d + "backends"@);
        } else {
            assert(b == d + seq!['/'] + "backends"@);
        }
    }
}

/// `regex::Regex::new(pattern)` and `is_match(text)` for the backend-name
/// pattern `^[a-zA-Z0-9_-]+$`. The regex crate documents `^` and `$` as the
/// start and end of the haystack and the bracket class as those ASCII
/// characters, so a match means a non-empty text of allowed characters.
#[verifier::external_body]
fn regex_is_match(pattern: &str, text: &str) -> (r: bool)
    requires
        pattern@ == "^[a-zA-Z0-9_-]+$"@,
    ensures
        r == is_backend_name(text@),
{
    regex::Regex::new(pattern).unwrap().is_match(text)
}

/// Accepts `name` when it is a valid backend name and refuses it otherwise.
pub fn validate_backend_name(name: &str) -> (r: Result<(), UmanError>)
    ensures
        r is Ok <==> is_backend_name(name@),
        r matches Err(e) ==> e matches UmanError::InvalidBackendName(n) && n@ == name@,
{
    if regex_is_match("^[a-zA-Z0-9_-]+$", name) {
        Ok(())
    } else {
        Err(UmanError::InvalidBackendName(string_of(&chars_of(name))))
    }
}

} // verus!
