//! Checking that the programs the reader relies on are installed.
use vstd::prelude::*;
use crate::error::UmanError;
use crate::text::{chars_of, string_of};

verus! {

/// What the finder answered for `name`.
pub open spec fn answered<F: Fn(&str) -> bool>(finder: F, name: &str, found: bool) -> bool {
    finder.ensures((name,), found)
}

/// Checks, with `finder` telling whether a program is installed, the programs
/// that a command needs: git always; fzf when the command browses a listing
/// (`requires_fzf`); and, when it shows a page (`requires_renderer`), one of
/// man-db, mandoc or man (asked in that order, stopping at the first found).
/// Programs are asked in that order, stopping at the first one missing;
/// curl is checked only when a backend is downloaded with it.
pub fn check_dependencies_with<F: Fn(&str) -> bool>(
    finder: F,
    requires_fzf: bool,
    requires_renderer: bool,
) -> (r: Result<(), UmanError>)
    requires
        forall|s: &str| #[trigger] finder.requires((s,)),
    ensures
        r matches Err(UmanError::MissingDependency(n)) ==> {
            ||| n@ == "git"@ && answered(finder, "git", false)
            ||| n@ == "fzf"@ && requires_fzf && answered(finder, "git", true) && answered(finder, "fzf", false)
        },
        r matches Err(UmanError::RendererRequired) ==> {
            &&& requires_renderer
            &&& answered(finder, "git", true)
            &&& requires_fzf ==> answered(finder, "fzf", true)
            &&& answered(finder, "man-db", false)
            &&& answered(finder, "mandoc", false)
            &&& answered(finder, "man", false)
        },
        r is Ok ==> {
            &&& answered(finder, "git", true)
            &&& requires_fzf ==> answered(finder, "fzf", true)
            &&& requires_renderer ==> {
                ||| answered(finder, "man-db", true)
                ||| answered(finder, "man-db", false) && answered(finder, "mandoc", true)
                ||| answered(finder, "man-db", false) && answered(finder, "mandoc", false)
                    && answered(finder, "man", true)
            }
        },
        r is Ok || r matches Err(UmanError::MissingDependency(_)) || r matches Err(UmanError::RendererRequired),
{
    if !finder("git") {
        return Err(UmanError::MissingDependency(string_of(&chars_of("git"))));
    }
    if requires_fzf && !finder("fzf") {
        return Err(UmanError::MissingDependency(string_of(&chars_of("fzf"))));
    }
    if requires_renderer {
        let has_renderer = finder("man-db") || finder("mandoc") || finder("man");
        if !has_renderer {
            return Err(UmanError::RendererRequired);
        }
    }
    Ok(())
}

} // verus!
