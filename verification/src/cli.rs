//! The command line as the program reads it, and how the positional
//! arguments of a plain `uniman ...` call are routed to a page.
use vstd::prelude::*;
use crate::config::{Config, resolve_in};
use crate::text::owned;

verus! {

/// The positional arguments of a reading call: up to three words, read as
/// backend, section and topic (or fewer, see `route_read`).
pub struct ReadArgs {
    pub backend: Option<String>,
    pub section: Option<String>,
    pub topic: Option<String>,
}

/// The shells for which completions can be printed.
#[derive(Clone, Copy, PartialEq, Eq, Debug, Structural)]
pub enum CompletionShell {
    Bash,
    Elvish,
    Fish,
    PowerShell,
    Zsh,
}

/// What `uniman backend` does.
#[derive(Clone, Copy, PartialEq, Eq, Debug, Structural)]
pub enum BackendAction {
    List,
}

/// The subcommands.
#[allow(inconsistent_fields)]
pub enum Commands {
    /// List the backends, or the pages of one backend.
    List { backend: Option<String> },
    /// Print the configuration file's path.
    Config,
    /// Print shell completions.
    Completion { shell: CompletionShell },
    /// Show the default backend, or set it.
    Default { name: Option<String> },
    /// Install a backend.
    Install { backend: String },
    /// Remove a backend.
    Remove { backend: String },
    /// Update one backend, or all installed ones.
    Update { backend: Option<String> },
    /// Search page names, or names and descriptions with `keyword`.
    Search { keyword: bool, topic: String },
    /// Work with the backends.
    Backend { action: BackendAction },
}

/// A parsed command line: a subcommand, or the words of a reading call, and
/// whether listings are printed as plain text instead of browsed.
pub struct Cli {
    pub command: Option<Commands>,
    pub read: ReadArgs,
    pub plain_text: bool,
}

impl Cli {
    /// Whether the command browses a listing with fzf: a search, or the list
    /// of a backend's pages, unless plain text was asked for.
    pub fn requires_fzf(&self) -> (r: bool)
        ensures
            r == (!self.plain_text && (self.command matches Some(Commands::Search { .. })
                || self.command matches Some(Commands::List { backend: Some(_) }))),
    {
        if self.plain_text {
            return false;
        }
        match &self.command {
            Some(Commands::Search { .. }) => true,
            Some(Commands::List { backend: Some(_) }) => true,
            _ => false,
        }
    }

    /// Whether the command shows a man page: no subcommand, and words to read.
    pub fn requires_renderer(&self) -> (r: bool)
        ensures
            r == (self.command is None && self.read.backend is Some),
    {
        self.command.is_none() && self.read.backend.is_some()
    }
}

/// Whether `s` is a section number: one or more ASCII digits.
pub open spec fn is_numeric_text(s: Seq<char>) -> bool {
    s.len() > 0 && forall|i: int| 0 <= i < s.len() ==> '0' <= #[trigger] s[i] <= '9'
}

/// Whether `s` reads as a section number.
pub fn is_numeric(s: &str) -> (r: bool)
    ensures
        r == is_numeric_text(s@),
{
    let v = crate::text::chars_of(s);
    if v.len() == 0 {
        return false;
    }
    let mut i: usize = 0;
    while i < v.len()
        invariant
            i <= v@.len(),
            v@ == s@,
            forall|k: int| 0 <= k < i ==> '0' <= #[trigger] v@[k] <= '9',
        decreases v.len() - i,
    {
        if !('0' <= v[i] && v[i] <= '9') {
            return false;
        }
        i += 1;
    }
    true
}

/// Where the words of a reading call lead.
pub enum ReadRoute {
    /// No words: print the help.
    Help,
    /// A backend and nothing to read in it: print the help and fail.
    Usage,
    /// The first word is neither a backend nor usable with the default
    /// backend: report it, print the help and fail.
    Unknown(String),
    /// Read `topic` (in `section`, when given) from the backend with this key.
    Page { backend: String, section: Option<String>, topic: String },
    /// Read `topic` (in `section`, when given) from the default backend.
    WithDefault { section: Option<String>, topic: String },
}

/// Whether `r` is the route for the words `args` with the configuration `c`:
/// `<backend> <section> <topic>`, `<backend> <topic>`, `<section> <topic>`
/// and `<topic>` read a page, a backend alone asks for usage, no words ask
/// for help, and anything else is unknown.
pub open spec fn routes_to(c: Config, args: ReadArgs, r: ReadRoute) -> bool {
    match args.backend {
        None => r is Help,
        Some(first) => match resolve_in(c.backends, first@) {
            Some(def) => match (args.section, args.topic) {
                (Some(sec), Some(top)) => r matches ReadRoute::Page { backend: b, section: Some(s), topic: t }
                    && b@ == def.name@ && s@ == sec@ && t@ == top@,
                (Some(top), None) => r matches ReadRoute::Page { backend: b, section: None, topic: t }
                    && b@ == def.name@ && t@ == top@,
                (None, None) => r is Usage,
                (None, Some(_)) => r matches ReadRoute::Unknown(w) && w@ == first@,
            },
            None => match (args.section, args.topic) {
                (Some(top), None) => if is_numeric_text(first@) {
                    r matches ReadRoute::WithDefault { section: Some(s), topic: t } && s@ == first@
                        && t@ == top@
                } else {
                    r matches ReadRoute::Unknown(w) && w@ == first@
                },
                (None, None) => if is_numeric_text(first@) {
                    r matches ReadRoute::Unknown(w) && w@ == first@
                } else {
                    r matches ReadRoute::WithDefault { section: None, topic: t } && t@ == first@
                },
                (_, Some(_)) => r matches ReadRoute::Unknown(w) && w@ == first@,
            },
        },
    }
}

/// Routes the words of a reading call (see `routes_to`).
pub fn route_read(config: &Config, args: &ReadArgs) -> (r: ReadRoute)
    ensures
        routes_to(*config, *args, r),
{
    let first = match &args.backend {
        None => return ReadRoute::Help,
        Some(f) => f,
    };
    match config.resolve(first.as_str()) {
        Ok(def) => match (&args.section, &args.topic) {
            (Some(sec), Some(top)) => ReadRoute::Page {
                backend: owned(def.name.as_str()),
                section: Some(owned(sec.as_str())),
                topic: owned(top.as_str()),
            },
            (Some(top), None) => ReadRoute::Page {
                backend: owned(def.name.as_str()),
                section: None,
                topic: owned(top.as_str()),
            },
            (None, None) => ReadRoute::Usage,
            (None, Some(_)) => ReadRoute::Unknown(owned(first.as_str())),
        },
        Err(_) => match (&args.section, &args.topic) {
            (Some(top), None) => {
                if is_numeric(first.as_str()) {
                    ReadRoute::WithDefault {
                        section: Some(owned(first.as_str())),
                        topic: owned(top.as_str()),
                    }
                } else {
                    ReadRoute::Unknown(owned(first.as_str()))
                }
            },
            (None, None) => {
                if is_numeric(first.as_str()) {
                    ReadRoute::Unknown(owned(first.as_str()))
                } else {
                    ReadRoute::WithDefault { section: None, topic: owned(first.as_str()) }
                }
            },
            (_, Some(_)) => ReadRoute::Unknown(owned(first.as_str())),
        },
    }
}

} // verus!
