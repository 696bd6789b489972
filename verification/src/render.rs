//! Reading a man page. Each step is decided here and carried out by the
//! caller, who answers with what it found: which renderer is available,
//! whether the backend is installed, which section the index knows the page
//! in, and how the renderer exited.
use vstd::prelude::*;
use crate::error::{UmanError, error_text};
use crate::paths::{backend_dir, backend_dir_of, is_backend_name, validate_backend_name};
use crate::text::{
    append_chars, chars_of, fmt_i64, owned, push_owned, push_str, signed_decimal, string_of, trim,
    trim_chars, views,
};

verus! {

/// A run of the renderer: the program, the `MANPATH` it is given, and its
/// arguments.
pub struct ManCommand {
    pub program: String,
    pub manpath: String,
    pub args: Vec<String>,
}

/// What the caller is to do next while reading a page.
pub enum ReadAction {
    /// Try the renderer program (run it with `-w` and an empty `MANPATH`)
    /// and answer with `on_probe`.
    Probe(String),
    /// Tell with `on_backend` whether this backend directory exists.
    CheckBackend(String),
    /// Tell with `on_section` the lowest section in which the index holds
    /// the topic for the backend.
    LookUpSection,
    /// Run the renderer (output to the terminal, error output captured) and
    /// answer with `on_exit`.
    Run(ManCommand),
    /// The page was shown.
    Done,
    /// Reading failed with this message.
    Fail(String),
}

/// Where a read stands.
pub enum ReadPhase {
    Probing,
    Checking,
    LookingUp,
    Running,
    Finished,
}

/// A read in progress: what was asked for, the renderer found, and the
/// phase.
pub struct ReadState {
    pub home: String,
    pub backend: String,
    pub section: Option<String>,
    pub topic: String,
    pub probe: usize,
    pub renderer: String,
    pub phase: ReadPhase,
}

/// The renderers tried, in order.
pub open spec fn renderers() -> Seq<Seq<char>> {
    seq!["man"@, "mandoc"@]
}

/// The `MANPATH` that makes the renderer look only in a backend's directory.
pub open spec fn manpath_of(dir: Seq<char>) -> Seq<char> {
    dir + ":"@
}

/// Whether `c` runs `renderer` on `topic` (in `section`, when one is known)
/// with the pages of the backend directory `dir` only.
pub open spec fn command_is(
    c: ManCommand,
    renderer: Seq<char>,
    dir: Seq<char>,
    section: Option<Seq<char>>,
    topic: Seq<char>,
) -> bool {
    &&& c.program@ == renderer
    &&& c.manpath@ == manpath_of(dir)
    &&& views(c.args@) == match section {
        Some(s) => seq![s, topic],
        None => seq![topic],
    }
}

/// The text of a section as the renderer is given it.
pub open spec fn section_view(s: Option<String>) -> Option<Seq<char>> {
    match s {
        Some(x) => Some(x@),
        None => None,
    }
}

/// What a failed renderer run reports: its trimmed error output, or its exit
/// code (-1 when it has none) when that output is empty.
pub open spec fn exit_detail(code: Option<i32>, stderr: Seq<char>) -> Seq<char> {
    if trim(stderr).len() == 0 {
        "exit code "@ + signed_decimal(
            match code {
                Some(c) => c as int,
                None => -1,
            },
        )
    } else {
        trim(stderr)
    }
}

/// The message for a page that the renderer could not show.
pub open spec fn not_found_message(
    backend: Seq<char>,
    section: Option<Seq<char>>,
    topic: Seq<char>,
    detail: Seq<char>,
) -> Seq<char> {
    match section {
        Some(s) => "man page not found: "@ + backend + " "@ + s + " "@ + topic + ": "@ + detail,
        None => "man page not found: "@ + backend + " "@ + topic + ": "@ + detail,
    }
}

/// The `MANPATH` value for the backend directory `dir`.
pub fn manpath(dir: &str) -> (r: String)
    ensures
        r@ == manpath_of(dir@),
{
    let mut out: Vec<char> = Vec::new();
    push_str(&mut out, dir);
    push_str(&mut out, ":");
    string_of(&out)
}

/// The renderer run for `topic`, in `section` when one is given, over the
/// backend directory `dir`.
pub fn build_command(renderer: &str, dir: &str, section: Option<&str>, topic: &str) -> (r: ManCommand)
    ensures
        command_is(
            r,
            renderer@,
            dir@,
            match section {
                Some(s) => Some(s@),
                None => None,
            },
            topic@,
        ),
{
    let mut args: Vec<String> = Vec::new();
    assert(views(args@) =~= Seq::<Seq<char>>::empty());
    match section {
        Some(s) => push_owned(&mut args, s),
        None => {},
    }
    push_owned(&mut args, topic);
    let r = ManCommand { program: owned(renderer), manpath: manpath(dir), args };
    assert(r.program@ == renderer@);
    assert(r.manpath@ == manpath_of(dir@));
    assert(views(r.args@) == match section {
        Some(s) => seq![s@, topic@],
        None => seq![topic@],
    });
    r
}

/// Starts reading `topic` (in `section`, when given) from backend
/// `backend_name`, whose directory lies under the home directory `home`: a
/// name that is not a valid backend name fails at once; otherwise the first
/// renderer is tried.
pub fn read(home: &str, backend_name: &str, section: Option<&str>, topic: &str) -> (r: (ReadState, ReadAction))
    ensures
        r.0.home@ == home@,
        r.0.backend@ == backend_name@,
        section_view(r.0.section) == match section {
            Some(s) => Some(s@),
            None => None,
        },
        r.0.topic@ == topic@,
        !is_backend_name(backend_name@) ==> r.0.phase is Finished && (r.1 matches ReadAction::Fail(m)
            && m@ == error_text(UmanError::InvalidBackendName(r.0.backend))),
        is_backend_name(backend_name@) ==> r.0.phase is Probing && r.0.probe == 0 && (r.1 matches ReadAction::Probe(p)
            && p@ == renderers()[0]),
{
    let sec = match section {
        Some(s) => Some(owned(s)),
        None => None,
    };
    let mut state = ReadState {
        home: owned(home),
        backend: owned(backend_name),
        section: sec,
        topic: owned(topic),
        probe: 0,
        renderer: owned(""),
        phase: ReadPhase::Probing,
    };
    match validate_backend_name(backend_name) {
        Err(e) => {
            state.phase = ReadPhase::Finished;
            let m = e.message();
            (state, ReadAction::Fail(m))
        },
        Ok(()) => (state, ReadAction::Probe(owned("man"))),
    }
}

impl ReadState {
    /// The answer to a `Probe`: whether the renderer tried works. The first
    /// that works is used and the backend directory is checked next; when
    /// none works, reading fails.
    pub fn on_probe(self, works: bool) -> (r: (ReadState, ReadAction))
        requires
            self.phase is Probing,
            self.probe < 2,
        ensures
            r.0.home == self.home && r.0.backend == self.backend && r.0.section == self.section
                && r.0.topic == self.topic,
            works ==> r.0.phase is Checking && r.0.renderer@ == renderers()[self.probe as int]
                && (r.1 matches ReadAction::CheckBackend(d) && d@ == backend_dir_of(self.home@, self.backend@)),
            !works && self.probe + 1 < 2 ==> r.0.phase is Probing && r.0.probe == self.probe + 1
                && (r.1 matches ReadAction::Probe(p) && p@ == renderers()[self.probe + 1]),
            !works && self.probe + 1 >= 2 ==> r.0.phase is Finished
                && (r.1 matches ReadAction::Fail(m) && m@ == error_text(UmanError::NoRenderer)),
    {
        let mut state = self;
        if works {
            state.renderer = if state.probe == 0 { owned("man") } else { owned("mandoc") };
            state.phase = ReadPhase::Checking;
            let dir = backend_dir(state.home.as_str(), state.backend.as_str());
            (state, ReadAction::CheckBackend(dir))
        } else if state.probe == 0 {
            state.probe = 1;
            (state, ReadAction::Probe(owned("mandoc")))
        } else {
            state.phase = ReadPhase::Finished;
            let m = UmanError::NoRenderer.message();
            (state, ReadAction::Fail(m))
        }
    }

    /// The answer to `CheckBackend`. A missing backend fails; otherwise the
    /// page is shown in the requested section, or the index is asked for one
    /// when none was requested.
    pub fn on_backend(self, exists: bool) -> (r: (ReadState, ReadAction))
        requires
            self.phase is Checking,
        ensures
            r.0.home == self.home && r.0.backend == self.backend && r.0.section == self.section
                && r.0.topic == self.topic && r.0.renderer == self.renderer,
            !exists ==> r.0.phase is Finished && (r.1 matches ReadAction::Fail(m)
                && m@ == error_text(UmanError::BackendNotInstalled(self.backend))),
            exists && self.section is Some ==> r.0.phase is Running && (r.1 matches ReadAction::Run(c)
                && command_is(
                c,
                self.renderer@,
                backend_dir_of(self.home@, self.backend@),
                section_view(self.section),
                self.topic@,
            )),
            exists && self.section is None ==> r.0.phase is LookingUp && r.1 is LookUpSection,
    {
        let mut state = self;
        if !exists {
            state.phase = ReadPhase::Finished;
            let m = UmanError::BackendNotInstalled(owned(state.backend.as_str())).message();
            return (state, ReadAction::Fail(m));
        }
        match &state.section {
            None => {
                state.phase = ReadPhase::LookingUp;
                (state, ReadAction::LookUpSection)
            },
            Some(s) => {
                let dir = backend_dir(state.home.as_str(), state.backend.as_str());
                let c = build_command(state.renderer.as_str(), dir.as_str(), Some(s.as_str()), state.topic.as_str());
                state.phase = ReadPhase::Running;
                (state, ReadAction::Run(c))
            },
        }
    }

    /// The answer to `LookUpSection`: the lowest section in which the index
    /// holds the page, if any. The renderer is run in that section, or
    /// without one.
    pub fn on_section(self, found: Option<i32>) -> (r: (ReadState, ReadAction))
        requires
            self.phase is LookingUp,
        ensures
            r.0.home == self.home && r.0.backend == self.backend && r.0.topic == self.topic
                && r.0.renderer == self.renderer,
            section_view(r.0.section) == match found {
                Some(n) => Some(signed_decimal(n as int)),
                None => None,
            },
            r.0.phase is Running,
            r.1 matches ReadAction::Run(c) && command_is(
                c,
                self.renderer@,
                backend_dir_of(self.home@, self.backend@),
                section_view(r.0.section),
                self.topic@,
            ),
    {
        let mut state = self;
        state.section = match found {
            Some(n) => Some(string_of(&fmt_i64(n as i64))),
            None => None,
        };
        let dir = backend_dir(state.home.as_str(), state.backend.as_str());
        let c = match &state.section {
            Some(s) => build_command(state.renderer.as_str(), dir.as_str(), Some(s.as_str()), state.topic.as_str()),
            None => build_command(state.renderer.as_str(), dir.as_str(), None, state.topic.as_str()),
        };
        state.phase = ReadPhase::Running;
        (state, ReadAction::Run(c))
    }

    /// The answer to `Run`: whether the renderer succeeded, its exit code
    /// (none when a signal ended it) and its error output. A failure reports
    /// the page as not found, with the error output or the exit code.
    pub fn on_exit(self, success: bool, code: Option<i32>, stderr: &str) -> (r: (ReadState, ReadAction))
        requires
            self.phase is Running,
        ensures
            r.0.phase is Finished,
            success ==> r.1 is Done,
            !success ==> (r.1 matches ReadAction::Fail(m) && m@ == not_found_message(
                self.backend@,
                section_view(self.section),
                self.topic@,
                exit_detail(code, stderr@),
            )),
    {
        let mut state = self;
        state.phase = ReadPhase::Finished;
        if success {
            return (state, ReadAction::Done);
        }
        let err = trim_chars(&chars_of(stderr));
        let mut detail: Vec<char> = Vec::new();
        if err.len() == 0 {
            push_str(&mut detail, "exit code ");
            let c: i32 = match code {
                Some(c) => c,
                None => -1,
            };
            append_chars(&mut detail, &fmt_i64(c as i64));
        } else {
            append_chars(&mut detail, &err);
        }
        let mut m: Vec<char> = Vec::new();
        push_str(&mut m, "man page not found: ");
        push_str(&mut m, state.backend.as_str());
        push_str(&mut m, " ");
        match &state.section {
            Some(s) => {
                push_str(&mut m, s.as_str());
                push_str(&mut m, " ");
            },
            None => {},
        }
        push_str(&mut m, state.topic.as_str());
        push_str(&mut m, ": ");
        append_chars(&mut m, &detail);
        (state, ReadAction::Fail(string_of(&m)))
    }
}

} // verus!
