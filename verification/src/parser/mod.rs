//! The Mnemosyne parser: from source text to an unscoped syntax tree.
use vstd::prelude::*;

pub mod grammar;
pub mod laws;
pub mod lexical;
pub mod model;
pub mod parse;

pub use crate::parser::lexical::Source;
pub use crate::parser::parse::{parse_module, parse_text};

verus! {

} // verus!
