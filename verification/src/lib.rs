//! The front end of Mnemosyne, a functional systems programming language:
//! the parser, the syntax trees and their annotations, the type model, the
//! forkable scope table, the pass that resolves names and checks arities,
//! and the printing of trees and of problems.
use vstd::prelude::*;
use vstd::string::StringExecFns;

pub mod chars;
pub mod compile;
pub mod errors;
pub mod forktable;
pub mod parser;
pub mod position;
pub mod semantic;
mod shared;
pub mod syntax;
pub mod text;

pub use crate::errors::{ExpectICE, UnwrapICE};
pub use crate::semantic::ast;

verus! {

/// The text that names this version of Mnemosyne.
pub open spec fn version_text() -> Seq<char> {
    "Mnemosyne 0.1.0"@
}

/// Returns the Mnemosyne version as a String.
pub fn mnemosyne_version() -> (s: String)
    ensures
        s@ == version_text(),
{
    String::from_str("Mnemosyne 0.1.0")
}

} // verus!
