use vstd::prelude::*;

pub mod date;
pub mod text;
pub mod manpage;
pub mod index;
pub mod error;
pub mod paths;
pub mod config;
pub mod deps;
pub mod backend;
pub mod fzf;
pub mod search;
pub mod render;
pub mod cli;

verus! {

} // verus!
