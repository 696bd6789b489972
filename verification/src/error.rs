//! The errors that the library reports, and the text shown for each.
use vstd::prelude::*;
use crate::text::{push_str, string_of};

verus! {

/// An error of the man page reader.
#[derive(Debug)]
pub enum UmanError {
    BackendNotFound(String),
    BackendAlreadyInstalled(String),
    BackendNotInstalled(String),
    NoRenderer,
    GitNotFound,
    CurlNotFound,
    FzfNotFound,
    CommandFailed { cmd: String, stderr: String },
    NoBackendsInstalled,
    NoDefaultBackend,
    DefaultNotFoundInConfig(String),
    DefaultNotInstalled(String),
    InvalidBackendName(String),
    MissingDependency(String),
    RendererRequired,
}

/// The text shown for an error.
pub open spec fn error_text(e: UmanError) -> Seq<char> {
    match e {
        UmanError::BackendNotFound(n) => "backend '"@ + n@ + "' not found in config"@,
        UmanError::BackendAlreadyInstalled(n) => "backend '"@ + n@ + "' is already installed"@,
        UmanError::BackendNotInstalled(n) => "backend '"@ + n@ + "' is not installed"@,
        UmanError::NoRenderer => "no man page renderer found (install man-db or mandoc)"@,
        UmanError::GitNotFound => "git is not installed or not on PATH"@,
        UmanError::CurlNotFound => "curl is not installed or not on PATH"@,
        UmanError::FzfNotFound => "fzf is not installed or not on PATH"@,
        UmanError::CommandFailed { cmd, stderr } => "command '"@ + cmd@ + "' failed: "@ + stderr@,
        UmanError::NoBackendsInstalled => "no backends installed"@,
        UmanError::NoDefaultBackend => "no default backend set; use 'uman backend default <name>' to set one"@,
        UmanError::DefaultNotFoundInConfig(n) => "default backend '"@ + n@ + "' not found in config"@,
        UmanError::DefaultNotInstalled(n) => "default backend '"@ + n@
            + "' is not installed; install it or change the default"@,
        UmanError::InvalidBackendName(n) => "invalid backend name '"@ + n@
            + "': must contain only letters, numbers, hyphens, and underscores"@,
        UmanError::MissingDependency(n) => "Required dependency '"@ + n@
            + "' is not installed or not in PATH."@,
        UmanError::RendererRequired =>
            "A man page renderer is required. Please install 'man-db', 'mandoc', or just regular 'man'."@,
    }
}

impl UmanError {
    /// The text shown for this error.
    pub fn message(&self) -> (r: String)
        ensures
            r@ == error_text(*self),
    {
        let mut out: Vec<char> = Vec::new();
        match self {
            UmanError::BackendNotFound(n) => {
                push_str(&mut out, "backend '");
                push_str(&mut out, n);
                push_str(&mut out, "' not found in config");
            },
            UmanError::BackendAlreadyInstalled(n) => {
                push_str(&mut out, "backend '");
                push_str(&mut out, n);
                push_str(&mut out, "' is already installed");
            },
            UmanError::BackendNotInstalled(n) => {
                push_str(&mut out, "backend '");
                push_str(&mut out, n);
                push_str(&mut out, "' is not installed");
            },
            UmanError::NoRenderer => {
                push_str(&mut out, "no man page renderer found (install man-db or mandoc)");
            },
            UmanError::GitNotFound => {
                push_str(&mut out, "git is not installed or not on PATH");
            },
            UmanError::CurlNotFound => {
                push_str(&mut out, "curl is not installed or not on PATH");
            },
            UmanError::FzfNotFound => {
                push_str(&mut out, "fzf is not installed or not on PATH");
            },
            UmanError::CommandFailed { cmd, stderr } => {
                push_str(&mut out, "command '");
                push_str(&mut out, cmd);
                push_str(&mut out, "' failed: ");
                push_str(&mut out, stderr);
            },
            UmanError::NoBackendsInstalled => {
                push_str(&mut out, "no backends installed");
            },
            UmanError::NoDefaultBackend => {
                push_str(&mut out, "no default backend set; use 'uman backend default <name>' to set one");
            },
            UmanError::DefaultNotFoundInConfig(n) => {
                push_str(&mut out, "default backend '");
                push_str(&mut out, n);
                push_str(&mut out, "' not found in config");
            },
            UmanError::DefaultNotInstalled(n) => {
                push_str(&mut out, "default backend '");
                push_str(&mut out, n);
                push_str(&mut out, "' is not installed; install it or change the default");
            },
            UmanError::InvalidBackendName(n) => {
                push_str(&mut out, "invalid backend name '");
                push_str(&mut out, n);
                push_str(&mut out, "': must contain only letters, numbers, hyphens, and underscores");
            },
            UmanError::MissingDependency(n) => {
                push_str(&mut out, "Required dependency '");
                push_str(&mut out, n);
                push_str(&mut out, "' is not installed or not in PATH.");
            },
            UmanError::RendererRequired => {
                push_str(&mut out, "A man page renderer is required. Please install 'man-db', 'mandoc', or just regular 'man'.");
            },
        }
        string_of(&out)
    }
}

} // verus!
