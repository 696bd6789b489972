//! The decisions behind installing, updating and removing backends: which
//! programs to run, what a failed run reports, and how a backend named on the
//! command line is found.
use vstd::prelude::*;
use crate::config::{
    BackendDef, BackendMap, Config, alias_seq, copy_string, man_format_name, resolve_in,
};
use crate::error::UmanError;
use crate::fzf::{Listing, listing_is, make_listing};
use crate::search::display_name;
use crate::paths::{backends_dir_of, is_backend_name, join_path, path_join, validate_backend_name};
use crate::text::{
    append_chars, chars_eq, chars_of, find, find_chars, fmt_i64, signed_decimal, lowercase, owned, pad_right,
    pad_right_chars, push_owned, push_str, str_eq, string_of, to_lowercase, trim, trim_chars,
    views,
};

verus! {

/// A program to run, its arguments, and the words that name the run in an
/// error report.
pub struct CommandSpec {
    pub program: String,
    pub args: Vec<String>,
    pub context: String,
}

/// Whether `e` is the error for a missing program `cmd`: git and curl have
/// errors of their own, any other program a failed command saying it is not
/// installed.
pub open spec fn is_missing_program_error(e: UmanError, cmd: Seq<char>) -> bool {
    if cmd == "git"@ {
        e is GitNotFound
    } else if cmd == "curl"@ {
        e is CurlNotFound
    } else {
        e matches UmanError::CommandFailed { cmd: c, stderr: s }
            && c@ == cmd && s@ == cmd + " is not installed or not on PATH"@
    }
}

/// Accepts a program that was found on the system (`found`) and otherwise
/// reports it missing.
pub fn check_command_exists(cmd: &str, found: bool) -> (r: Result<(), UmanError>)
    ensures
        found ==> r is Ok,
        !found ==> (r matches Err(e) && is_missing_program_error(e, cmd@)),
{
    if found {
        return Ok(());
    }
    if str_eq(cmd, "git") {
        Err(UmanError::GitNotFound)
    } else if str_eq(cmd, "curl") {
        Err(UmanError::CurlNotFound)
    } else {
        let mut msg: Vec<char> = Vec::new();
        push_str(&mut msg, cmd);
        push_str(&mut msg, " is not installed or not on PATH");
        Err(UmanError::CommandFailed { cmd: owned(cmd), stderr: string_of(&msg) })
    }
}

/// What a failed run reports of its output: its error output and its
/// standard output (both already trimmed), one per line, leaving out an
/// empty one.
pub open spec fn failure_detail(stderr: Seq<char>, stdout: Seq<char>) -> Seq<char> {
    if stdout.len() == 0 {
        stderr
    } else if stderr.len() == 0 {
        stdout
    } else {
        stderr + seq!['\n'] + stdout
    }
}

/// The error for a run named `context` that failed with the given outputs.
pub fn command_failure(context: &str, stderr: &str, stdout: &str) -> (r: UmanError)
    ensures
        r matches UmanError::CommandFailed { cmd: c, stderr: d }
            && c@ == context@ && d@ == failure_detail(trim(stderr@), trim(stdout@)),
{
    let err = trim_chars(&chars_of(stderr));
    let out = trim_chars(&chars_of(stdout));
    let mut detail: Vec<char> = Vec::new();
    append_chars(&mut detail, &err);
    if out.len() > 0 {
        if detail.len() > 0 {
            detail.push('\n');
        }
        append_chars(&mut detail, &out);
    }
    UmanError::CommandFailed { cmd: owned(context), stderr: string_of(&detail) }
}

/// The shallow clone of the repository at `source` into `dest`.
pub fn install_git(source: &str, dest: &str) -> (r: CommandSpec)
    ensures
        r.program@ == "git"@,
        views(r.args@) == seq!["clone"@, "--depth"@, "1"@, source@, dest@],
        r.context@ == "git clone "@ + source@,
{
    let mut args: Vec<String> = Vec::new();
    push_owned(&mut args, "clone");
    push_owned(&mut args, "--depth");
    push_owned(&mut args, "1");
    push_owned(&mut args, source);
    push_owned(&mut args, dest);
    let mut context: Vec<char> = Vec::new();
    push_str(&mut context, "git clone ");
    push_str(&mut context, source);
    CommandSpec { program: owned("git"), args, context: string_of(&context) }
}

/// The download of the archive at `source` into the file `archive`, failing
/// on HTTP errors, following redirects, and giving up after thirty seconds
/// without a connection or five minutes in all.
pub fn curl_download(source: &str, archive: &str) -> (r: CommandSpec)
    ensures
        r.program@ == "curl"@,
        views(r.args@) == seq![
            "-Lsf"@, "--connect-timeout"@, "30"@, "--max-time"@, "300"@, "-o"@, archive@, source@,
        ],
        r.context@ == "curl download "@ + source@,
{
    let mut args: Vec<String> = Vec::new();
    push_owned(&mut args, "-Lsf");
    push_owned(&mut args, "--connect-timeout");
    push_owned(&mut args, "30");
    push_owned(&mut args, "--max-time");
    push_owned(&mut args, "300");
    push_owned(&mut args, "-o");
    push_owned(&mut args, archive);
    push_owned(&mut args, source);
    let mut context: Vec<char> = Vec::new();
    push_str(&mut context, "curl download ");
    push_str(&mut context, source);
    CommandSpec { program: owned("curl"), args, context: string_of(&context) }
}

/// The unpacking of the file `archive` into the directory `dest`.
pub fn tar_extract(archive: &str, dest: &str) -> (r: CommandSpec)
    ensures
        r.program@ == "tar"@,
        views(r.args@) == seq!["-xf"@, archive@, "-C"@, dest@],
        r.context@ == "tar extract"@,
{
    let mut args: Vec<String> = Vec::new();
    push_owned(&mut args, "-xf");
    push_owned(&mut args, archive);
    push_owned(&mut args, "-C");
    push_owned(&mut args, dest);
    CommandSpec { program: owned("tar"), args, context: owned("tar extract") }
}

/// The pull of new commits into the clone at `dir` of the backend `name`.
pub fn git_pull(dir: &str, name: &str) -> (r: CommandSpec)
    ensures
        r.program@ == "git"@,
        views(r.args@) == seq!["-C"@, dir@, "pull"@],
        r.context@ == "git pull for '"@ + name@ + "'"@,
{
    let mut args: Vec<String> = Vec::new();
    push_owned(&mut args, "-C");
    push_owned(&mut args, dir);
    push_owned(&mut args, "pull");
    let mut context: Vec<char> = Vec::new();
    push_str(&mut context, "git pull for '");
    push_str(&mut context, name);
    push_str(&mut context, "'");
    CommandSpec { program: owned("git"), args, context: string_of(&context) }
}

/// The error for a failed pull: only its error output is reported.
pub fn pull_failure(name: &str, stderr: &str) -> (r: UmanError)
    ensures
        r matches UmanError::CommandFailed { cmd: c, stderr: d }
            && c@ == "git pull for '"@ + name@ + "'"@ && d@ == trim(stderr@),
{
    let mut context: Vec<char> = Vec::new();
    push_str(&mut context, "git pull for '");
    push_str(&mut context, name);
    push_str(&mut context, "'");
    let detail = trim_chars(&chars_of(stderr));
    UmanError::CommandFailed { cmd: string_of(&context), stderr: string_of(&detail) }
}

/// The directory that a fresh download of backend `name` is unpacked into
/// before it replaces the installed one.
pub open spec fn staging_dir_of(home: Seq<char>, name: Seq<char>) -> Seq<char> {
    path_join(backends_dir_of(home), name + ".staging"@)
}

/// `~/.uman/backends/<name>.staging`.
pub fn staging_dir(home: &str, name: &str) -> (r: String)
    ensures
        r@ == staging_dir_of(home@, name@),
{
    let base = crate::paths::backends_dir(home);
    let mut comp: Vec<char> = Vec::new();
    push_str(&mut comp, name);
    push_str(&mut comp, ".staging");
    let comp = string_of(&comp);
    join_path(&base, &comp)
}

/// The backend that `name` (a key or an alias) stands for, once the name is
/// known to be acceptable as a directory name.
pub fn locate<'a>(config: &'a Config, name: &str) -> (r: Result<&'a BackendDef, UmanError>)
    ensures
        !is_backend_name(name@) ==> (r matches Err(UmanError::InvalidBackendName(n)) && n@ == name@),
        is_backend_name(name@) ==> match r {
            Ok(d) => resolve_in(config.backends, name@) == Some(*d),
            Err(e) => resolve_in(config.backends, name@) is None
                && (e matches UmanError::BackendNotFound(n) && n@ == name@),
        },
{
    validate_backend_name(name)?;
    config.resolve(name)
}

/// Refuses to install backend `canonical` over an existing directory.
pub fn require_absent(canonical: &str, installed: bool) -> (r: Result<(), UmanError>)
    ensures
        !installed ==> r is Ok,
        installed ==> (r matches Err(UmanError::BackendAlreadyInstalled(n)) && n@ == canonical@),
{
    if installed {
        Err(UmanError::BackendAlreadyInstalled(owned(canonical)))
    } else {
        Ok(())
    }
}

/// Refuses to work on backend `canonical` when its directory is missing.
pub fn require_installed(canonical: &str, installed: bool) -> (r: Result<(), UmanError>)
    ensures
        installed ==> r is Ok,
        !installed ==> (r matches Err(UmanError::BackendNotInstalled(n)) && n@ == canonical@),
{
    if installed {
        Ok(())
    } else {
        Err(UmanError::BackendNotInstalled(owned(canonical)))
    }
}

/// Whether a lowered, trimmed answer to "remove the default backend?(Y/n)"
/// agrees: everything but "n" and "no" does.
pub open spec fn confirm_answer(lowered: Seq<char>) -> bool {
    lowered != "n"@ && lowered != "no"@
}

/// Reads a lowered, trimmed answer to the removal question.
pub fn confirm_answer_of(lowered: &[char]) -> (r: bool)
    ensures
        r == confirm_answer(lowered@),
{
    let n = chars_of("n");
    let no = chars_of("no");
    !(chars_eq(lowered, &n) || chars_eq(lowered, &no))
}

/// Reads an answer to the removal question: the input is trimmed and
/// lowered, and only "n" or "no" declines (an empty answer agrees).
pub fn parse_confirm_response(input: &str) -> (r: bool)
    ensures
        r == confirm_answer(lowercase(trim(input@))),
{
    let t = trim_chars(&chars_of(input));
    let lowered = to_lowercase(&t);
    confirm_answer_of(&lowered)
}

/// Whether a lowered, trimmed answer to "install the default backend now?
/// [Y/n]" agrees: only an empty answer, "y" and "yes" do.
pub open spec fn install_answer(lowered: Seq<char>) -> bool {
    lowered.len() == 0 || lowered == "y"@ || lowered == "yes"@
}

/// Reads a lowered, trimmed answer to the install question.
pub fn install_answer_of(lowered: &[char]) -> (r: bool)
    ensures
        r == install_answer(lowered@),
{
    let y = chars_of("y");
    let yes = chars_of("yes");
    lowered.len() == 0 || chars_eq(lowered, &y) || chars_eq(lowered, &yes)
}

/// Reads an answer to the install question: the input is trimmed and
/// lowered, and only an empty answer, "y" or "yes" agrees.
pub fn accepts_install(input: &str) -> (r: bool)
    ensures
        r == install_answer(lowercase(trim(input@))),
{
    let t = trim_chars(&chars_of(input));
    let lowered = to_lowercase(&t);
    install_answer_of(&lowered)
}

/// The question asked before the default backend `name` is removed.
pub fn remove_prompt(name: &str) -> (r: String)
    ensures
        r@ == name@ + " is the default man page backend, do you want to remove it?(Y/n) "@,
{
    let mut out: Vec<char> = Vec::new();
    push_str(&mut out, name);
    push_str(&mut out, " is the default man page backend, do you want to remove it?(Y/n) ");
    string_of(&out)
}

/// Whether the configured default is exactly the key `canonical` (an alias
/// set as default does not count here).
pub fn is_default_name(config: &Config, canonical: &str) -> (r: bool)
    ensures
        r == (config.default_backend matches Some(d) && d@ == canonical@),
{
    match &config.default_backend {
        Some(d) => str_eq(d.as_str(), canonical),
        None => false,
    }
}

/// Whether the backend kept under `backend_key` with these aliases is the one
/// that the configured default names, by its key or one of its aliases.
pub fn is_default_backend(default_name: Option<&str>, backend_key: &str, aliases: &[String]) -> (r: bool)
    ensures
        r == match default_name {
            Some(dn) => dn@ == backend_key@ || views(aliases@).contains(dn@),
            None => false,
        },
{
    match default_name {
        None => false,
        Some(dn) => {
            if str_eq(dn, backend_key) {
                return true;
            }
            let ghost vs = views(aliases@);
            let mut i: usize = 0;
            while i < aliases.len()
                invariant
                    i <= aliases@.len(),
                    vs == views(aliases@),
                    default_name == Some(dn),
                    forall|k: int| 0 <= k < i ==> vs[k] != dn@,
                decreases aliases.len() - i,
            {
                if str_eq(aliases[i].as_str(), dn) {
                    assert(vs[i as int] == aliases@[i as int]@);
                    assert(vs.contains(dn@));
                    return true;
                }
                i += 1;
            }
            false
        },
    }
}

/// What to print after a backend failed to install while all were being
/// installed: whether it goes to the error stream, and the line.
pub fn install_failure_line(name: &str, message: &str) -> (r: (bool, String))
    ensures
        find(message@, "already installed"@) is Some ==> !r.0
            && r.1@ == "Backend '"@ + name@ + "' is already installed."@,
        find(message@, "already installed"@) is None ==> r.0
            && r.1@ == "warning: failed to install '"@ + name@ + "': "@ + message@,
{
    let msg = chars_of(message);
    let needle = chars_of("already installed");
    let mut out: Vec<char> = Vec::new();
    if find_chars(&msg, &needle).is_some() {
        push_str(&mut out, "Backend '");
        push_str(&mut out, name);
        push_str(&mut out, "' is already installed.");
        (false, string_of(&out))
    } else {
        push_str(&mut out, "warning: failed to install '");
        push_str(&mut out, name);
        push_str(&mut out, "': ");
        push_str(&mut out, message);
        (true, string_of(&out))
    }
}

/// Whether installing every backend installed at least one, given whether
/// each install succeeded: only then may the first backend become the
/// default.
pub fn any_installed(outcomes: &[bool]) -> (r: bool)
    ensures
        r == outcomes@.contains(true),
{
    let mut i: usize = 0;
    while i < outcomes.len()
        invariant
            i <= outcomes@.len(),
            forall|k: int| 0 <= k < i ==> !outcomes@[k],
        decreases outcomes.len() - i,
    {
        if outcomes[i] {
            assert(outcomes@[i as int]);
            return true;
        }
        i += 1;
    }
    false
}

impl Config {
    /// After backend `name` was installed: when no default is set, the backend
    /// that `name` stands for becomes the default, and its name is returned.
    pub fn adopt_default(&mut self, name: &str) -> (r: Result<Option<String>, UmanError>)
        ensures
            final(self).backends == old(self).backends,
            old(self).default_backend is Some ==> (r matches Ok(None))
                && final(self).default_backend == old(self).default_backend,
            old(self).default_backend is None ==> match resolve_in(old(self).backends, name@) {
                None => (r matches Err(UmanError::BackendNotFound(n)) && n@ == name@)
                    && final(self).default_backend is None,
                Some(d) => (r matches Ok(Some(c)) && c@ == d.name@)
                    && (final(self).default_backend matches Some(x) && x@ == d.name@),
            },
    {
        if self.default_backend.is_some() {
            return Ok(None);
        }
        let canonical = match self.resolve(name) {
            Ok(d) => copy_string(&d.name),
            Err(e) => return Err(e),
        };
        let shown = copy_string(&canonical);
        self.default_backend = Some(canonical);
        Ok(Some(shown))
    }

    /// After installing every backend, of which at least one succeeded: when
    /// no default is set, the backend with the first key becomes the default,
    /// and its key is returned.
    pub fn adopt_first_default(&mut self) -> (r: Option<String>)
        ensures
            final(self).backends == old(self).backends,
            old(self).default_backend is Some || old(self).backends.key_seq().len() == 0 ==> r is None
                && final(self).default_backend == old(self).default_backend,
            old(self).default_backend is None && old(self).backends.key_seq().len() > 0 ==> (r matches Some(k)
                && k@ == old(self).backends.key_seq()[0])
                && (final(self).default_backend matches Some(x) && x@ == old(self).backends.key_seq()[0]),
    {
        if self.default_backend.is_some() {
            return None;
        }
        let first = match self.backends.first_key() {
            Some(k) => copy_string(k),
            None => return None,
        };
        let shown = copy_string(&first);
        self.default_backend = Some(first);
        Some(shown)
    }

    /// Makes backend `canonical` the default, provided that it is installed.
    pub fn make_default(&mut self, canonical: &str, installed: bool) -> (r: Result<(), UmanError>)
        ensures
            final(self).backends == old(self).backends,
            installed ==> (r is Ok) && (final(self).default_backend matches Some(x) && x@ == canonical@),
            !installed ==> (r matches Err(UmanError::DefaultNotInstalled(n)) && n@ == canonical@)
                && final(self).default_backend == old(self).default_backend,
    {
        if !installed {
            return Err(UmanError::DefaultNotInstalled(owned(canonical)));
        }
        self.default_backend = Some(owned(canonical));
        Ok(())
    }

    /// What `uniman default` prints: nothing set; the default's key; or, when
    /// the default is an alias, the key followed by the alias.
    pub fn show_default_text(&self) -> (r: String)
        ensures
            match self.default_backend {
                None => r@ == "No default backend set."@,
                Some(n) => match resolve_in(self.backends, n@) {
                    None => r@ == n@,
                    Some(d) => if d.name@ == n@ {
                        r@ == n@
                    } else {
                        r@ == d.name@ + " (alias: "@ + n@ + ")"@
                    },
                },
            },
    {
        match &self.default_backend {
            None => owned("No default backend set."),
            Some(n) => match self.resolve(n.as_str()) {
                Err(_) => copy_string(n),
                Ok(d) => {
                    if str_eq(d.name.as_str(), n.as_str()) {
                        copy_string(&d.name)
                    } else {
                        let mut out: Vec<char> = Vec::new();
                        push_str(&mut out, d.name.as_str());
                        push_str(&mut out, " (alias: ");
                        push_str(&mut out, n.as_str());
                        push_str(&mut out, ")");
                        string_of(&out)
                    }
                },
            },
        }
    }
}

/// Whether the backend kept under `key` is the one that the configured
/// `default` names, by its key or one of its aliases.
pub open spec fn names_default(default: Option<String>, key: Seq<char>, def: BackendDef) -> bool {
    match default {
        Some(dn) => dn@ == key || alias_seq(def).contains(dn@),
        None => false,
    }
}

/// For each backend of `m`, in key order, whether the default names it.
pub open spec fn default_flags(m: BackendMap, default: Option<String>) -> Seq<bool> {
    Seq::new(m.key_seq().len(), |i: int| names_default(default, m.key_seq()[i], m.value_seq()[i]))
}

/// The row of `uniman list` for one backend: key, default marker, status,
/// format and source, the first three padded to 20, 12 and 10 characters.
pub open spec fn list_row(key: Seq<char>, def: BackendDef, is_default: bool, installed: bool) -> Seq<char> {
    pad_right(key, 20) + " "@ + pad_right(if is_default { "*"@ } else { ""@ }, 12) + " "@
        + pad_right(if installed { "installed"@ } else { "available"@ }, 10) + " "@
        + man_format_name(def.format) + " "@ + def.source@
}

/// The header of `uniman list`.
pub open spec fn list_header() -> Seq<char> {
    pad_right("NAME"@, 20) + " "@ + pad_right("DEFAULT"@, 12) + " "@ + pad_right("STATUS"@, 10) + " "@
        + "FORMAT"@ + " "@ + "SOURCE"@
}

/// The rows, in key order, of the first `n` backends whose default flag is
/// `want`.
pub open spec fn rows_where(
    m: BackendMap,
    flags: Seq<bool>,
    installed: Seq<bool>,
    want: bool,
    n: int,
) -> Seq<Seq<char>>
    decreases n,
{
    if n <= 0 {
        seq![]
    } else {
        rows_where(m, flags, installed, want, n - 1) + if flags[n - 1] == want {
            seq![list_row(m.key_seq()[n - 1], m.value_seq()[n - 1], want, installed[n - 1])]
        } else {
            Seq::<Seq<char>>::empty()
        }
    }
}

/// The last position below `n` whose flag is set.
pub open spec fn last_flagged(flags: Seq<bool>, n: int) -> Option<int>
    decreases n,
{
    if n <= 0 {
        None
    } else if flags[n - 1] {
        Some(n - 1)
    } else {
        last_flagged(flags, n - 1)
    }
}

/// The warning under `uniman list`: a default that names no backend, or a
/// default backend (the last one it names) that is not installed.
pub open spec fn list_warning(m: BackendMap, default: Option<String>, installed: Seq<bool>) -> Seq<Seq<char>> {
    let flags = default_flags(m, default);
    match default {
        None => seq![],
        Some(dn) => match last_flagged(flags, flags.len() as int) {
            None => seq!["\nwarning: default backend '"@ + dn@ + "' is not in config"@],
            Some(i) => if installed[i] {
                seq![]
            } else {
                seq!["\nwarning: default backend '"@ + m.key_seq()[i] + "' is not installed"@]
            },
        },
    }
}

/// What `uniman list` prints, given for each backend in key order whether it
/// is installed: the header, the backends that the default names, the
/// others, and a warning about the default if there is one to give.
pub open spec fn list_report(m: BackendMap, default: Option<String>, installed: Seq<bool>) -> Seq<Seq<char>> {
    let flags = default_flags(m, default);
    let n = m.key_seq().len() as int;
    if n == 0 {
        seq!["No backends configured."@]
    } else {
        seq![list_header()] + rows_where(m, flags, installed, true, n) + rows_where(
            m,
            flags,
            installed,
            false,
            n,
        ) + list_warning(m, default, installed)
    }
}

/// `uniman list` shows one row for each backend: those the default names
/// and the others together are all of them.
pub proof fn lemma_list_row_count(m: BackendMap, flags: Seq<bool>, installed: Seq<bool>, n: int)
    requires
        0 <= n,
    ensures
        rows_where(m, flags, installed, true, n).len() + rows_where(m, flags, installed, false, n).len()
            == n,
    decreases n,
{
    if n > 0 {
        lemma_list_row_count(m, flags, installed, n - 1);
    }
}

fn list_row_chars(key: &str, def: &BackendDef, is_default: bool, installed: bool) -> (r: Vec<char>)
    ensures
        r@ == list_row(key@, *def, is_default, installed),
{
    let mut out = pad_right_chars(&chars_of(key), 20);
    out.push(' ');
    let marker = if is_default { chars_of("*") } else { chars_of("") };
    append_chars(&mut out, &pad_right_chars(&marker, 12));
    out.push(' ');
    let status = if installed { chars_of("installed") } else { chars_of("available") };
    append_chars(&mut out, &pad_right_chars(&status, 10));
    out.push(' ');
    let format = def.format.to_string();
    push_str(&mut out, format.as_str());
    out.push(' ');
    push_str(&mut out, def.source.as_str());
    proof {
        reveal_strlit(" ");
    }
    assert(out@ =~= list_row(key@, *def, is_default, installed));
    out
}

fn append_list_rows(
    out: &mut Vec<String>,
    config: &Config,
    flags: &Vec<bool>,
    installed: &[bool],
    want: bool,
)
    requires
        flags@ == default_flags(config.backends, config.default_backend),
        installed@.len() == config.backends.key_seq().len(),
    ensures
        views(final(out)@) == views(old(out)@) + rows_where(
            config.backends,
            flags@,
            installed@,
            want,
            config.backends.key_seq().len() as int,
        ),
{
    let n = config.backends.len();
    let mut i: usize = 0;
    while i < n
        invariant
            n == config.backends.key_seq().len(),
            flags@ == default_flags(config.backends, config.default_backend),
            installed@.len() == n,
            i <= n,
            views(out@) == views(old(out)@) + rows_where(config.backends, flags@, installed@, want, i as int),
        decreases n - i,
    {
        if flags[i] == want {
            let line = list_row_chars(
                config.backends.key_at(i).as_str(),
                config.backends.value_at(i),
                want,
                installed[i],
            );
            let ghost before = out@;
            out.push(string_of(&line));
            assert(views(out@) =~= views(before).push(line@));
        }
        assert(views(out@) =~= views(old(out)@) + rows_where(
            config.backends,
            flags@,
            installed@,
            want,
            i + 1,
        ));
        i += 1;
    }
}

/// The lines that `uniman list` prints, given for each backend in key order
/// whether its directory is present.
pub fn list_lines(config: &Config, installed: &[bool]) -> (r: Vec<String>)
    requires
        installed@.len() == config.backends.key_seq().len(),
    ensures
        views(r@) == list_report(config.backends, config.default_backend, installed@),
{
    let n = config.backends.len();
    let mut out: Vec<String> = Vec::new();
    if n == 0 {
        push_owned(&mut out, "No backends configured.");
        return out;
    }
    let dn: Option<&str> = match &config.default_backend {
        Some(d) => Some(d.as_str()),
        None => None,
    };
    let ghost want_flags = default_flags(config.backends, config.default_backend);
    let mut flags: Vec<bool> = Vec::new();
    let mut i: usize = 0;
    while i < n
        invariant
            n == config.backends.key_seq().len(),
            want_flags == default_flags(config.backends, config.default_backend),
            match config.default_backend {
                Some(d) => dn matches Some(x) && x@ == d@,
                None => dn is None,
            },
            i <= n,
            flags@ == want_flags.take(i as int),
        decreases n - i,
    {
        let def = config.backends.value_at(i);
        let f = is_default_backend(dn, config.backends.key_at(i).as_str(), def.aliases.as_slice());
        proof {
            assert(views(def.aliases@) =~= alias_seq(*def));
        }
        flags.push(f);
        assert(flags@ =~= want_flags.take(i + 1));
        i += 1;
    }
    assert(flags@ =~= want_flags);
    let mut header: Vec<char> = pad_right_chars(&chars_of("NAME"), 20);
    header.push(' ');
    append_chars(&mut header, &pad_right_chars(&chars_of("DEFAULT"), 12));
    header.push(' ');
    append_chars(&mut header, &pad_right_chars(&chars_of("STATUS"), 10));
    push_str(&mut header, " FORMAT SOURCE");
    proof {
        reveal_strlit(" ");
        reveal_strlit(" FORMAT SOURCE");
        reveal_strlit("FORMAT");
        reveal_strlit("SOURCE");
    }
    assert(header@ =~= list_header());
    out.push(string_of(&header));
    append_list_rows(&mut out, config, &flags, installed, true);
    append_list_rows(&mut out, config, &flags, installed, false);
    let ghost body = views(out@);
    let mut last: Option<usize> = None;
    let mut k: usize = 0;
    while k < n
        invariant
            n == config.backends.key_seq().len(),
            flags@ == want_flags,
            want_flags == default_flags(config.backends, config.default_backend),
            k <= n,
            last matches Some(j) ==> j < k,
            match last {
                Some(j) => last_flagged(flags@, k as int) == Some(j as int),
                None => last_flagged(flags@, k as int) is None,
            },
        decreases n - k,
    {
        if flags[k] {
            last = Some(k);
        }
        k += 1;
    }
    match &config.default_backend {
        None => {},
        Some(d) => match last {
            None => {
                let mut w: Vec<char> = Vec::new();
                push_str(&mut w, "\nwarning: default backend '");
                push_str(&mut w, d.as_str());
                push_str(&mut w, "' is not in config");
                out.push(string_of(&w));
            },
            Some(j) => {
                if !installed[j] {
                    let mut w: Vec<char> = Vec::new();
                    push_str(&mut w, "\nwarning: default backend '");
                    push_str(&mut w, config.backends.key_at(j).as_str());
                    push_str(&mut w, "' is not installed");
                    out.push(string_of(&w));
                }
            },
        },
    }
    assert(views(out@) =~= body + list_warning(config.backends, config.default_backend, installed@));
    out
}

/// The line for one indexed page of a backend: section, name, the shown name
/// widened to 40 characters, and the description, separated by tabs.
pub open spec fn topic_line(section: i32, name: Seq<char>, description: Seq<char>) -> Seq<char> {
    signed_decimal(section as int) + "\t"@ + name + "\t"@ + pad_right(display_name(name, section), 40)
        + "\t"@ + description
}

/// The lines for the indexed pages of a backend.
pub open spec fn topic_lines(rows: Seq<(i32, String, String)>) -> Seq<Seq<char>> {
    rows.map_values(|r: (i32, String, String)| topic_line(r.0, r.1@, r.2@))
}

/// The header over the pages of a backend.
pub open spec fn topics_header() -> Seq<char> {
    pad_right("NAME"@, 40) + "\t"@ + "DESCRIPTION"@
}

/// The command that fzf runs for a chosen page of backend `canonical`: this
/// program with the backend, the line's section and its name.
pub open spec fn topics_template(exe: Seq<char>, canonical: Seq<char>) -> Seq<char> {
    exe + " "@ + canonical + " {1} {2}"@
}

fn topic_line_chars(section: i32, name: &str, description: &str) -> (r: Vec<char>)
    ensures
        r@ == topic_line(section, name@, description@),
{
    let sec = fmt_i64(section as i64);
    let mut shown: Vec<char> = Vec::new();
    push_str(&mut shown, name);
    shown.push('(');
    append_chars(&mut shown, &sec);
    shown.push(')');
    proof {
        reveal_strlit("(");
        reveal_strlit(")");
        reveal_strlit("\t");
    }
    assert(shown@ =~= display_name(name@, section));
    let mut out: Vec<char> = Vec::new();
    append_chars(&mut out, &sec);
    out.push('\t');
    push_str(&mut out, name);
    out.push('\t');
    append_chars(&mut out, &pad_right_chars(&shown, 40));
    out.push('\t');
    push_str(&mut out, description);
    assert(out@ =~= topic_line(section, name@, description@));
    out
}

/// The listing of the indexed pages of the installed backend `canonical`
/// (`topics`, as the index returned them, by section and name): a message
/// when none are indexed; else one line per page, browsed on the shown name
/// and description, with this program (`exe`) opening the chosen page.
pub fn list_topics(canonical: &str, topics: &[(i32, String, String)], plain_text: bool, exe: &str) -> (r: Listing)
    ensures
        topics@.len() == 0 ==> (r matches Listing::Message(m) && m@ == "No topics indexed for backend '"@
            + canonical@ + "'. Try 'uniman update "@ + canonical@ + "'."@),
        topics@.len() > 0 ==> listing_is(
            r,
            plain_text,
            topics_header(),
            topic_lines(topics@),
            topics_template(exe@, canonical@),
            "3,4"@,
        ),
{
    if topics.len() == 0 {
        let mut m: Vec<char> = Vec::new();
        push_str(&mut m, "No topics indexed for backend '");
        push_str(&mut m, canonical);
        push_str(&mut m, "'. Try 'uniman update ");
        push_str(&mut m, canonical);
        push_str(&mut m, "'.");
        return Listing::Message(string_of(&m));
    }
    let mut lines: Vec<String> = Vec::new();
    let mut i: usize = 0;
    while i < topics.len()
        invariant
            i <= topics@.len(),
            views(lines@) == topic_lines(topics@).take(i as int),
        decreases topics.len() - i,
    {
        let row = &topics[i];
        let line = string_of(&topic_line_chars(row.0, row.1.as_str(), row.2.as_str()));
        let ghost before = lines@;
        lines.push(line);
        assert(views(lines@) =~= views(before).push(topic_lines(topics@)[i as int]));
        assert(topic_lines(topics@).take(i + 1) =~= topic_lines(topics@).take(i as int).push(
            topic_lines(topics@)[i as int],
        ));
        i += 1;
    }
    assert(topic_lines(topics@).take(topics@.len() as int) =~= topic_lines(topics@));
    let mut header = pad_right_chars(&chars_of("NAME"), 40);
    push_str(&mut header, "\tDESCRIPTION");
    proof {
        reveal_strlit("\t");
        reveal_strlit("\tDESCRIPTION");
        reveal_strlit("DESCRIPTION");
    }
    assert(header@ =~= topics_header());
    let mut template: Vec<char> = Vec::new();
    push_str(&mut template, exe);
    push_str(&mut template, " ");
    push_str(&mut template, canonical);
    push_str(&mut template, " {1} {2}");
    make_listing(plain_text, string_of(&header), lines, string_of(&template), "3,4")
}

} // verus!
