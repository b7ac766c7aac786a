//! Special characters used within Mnemosyne.
use vstd::prelude::*;

verus! {

/// The lambda character.
pub const LAMBDA: &'static str = "\u{03bb}";

/// The arrow character.
pub const ARROW: &'static str = "\u{2192}";

/// The fat arrow (typeclass) character.
pub const FAT_ARROW: &'static str = "\u{21D2}";

/// The characters, besides letters, that may start an identifier.
pub const ALPHA_EXT: &'static str = "+-*/<=>!:%^";

/// The characters, besides letters and digits, that may continue an
/// identifier.
pub const ALPHA_EXT_SUBSEQUENT: &'static str = "+-*/<=>!:%^'";

/// The characters that operators are made of.
pub const OPS: &'static str = "+-*/|=<>";

} // verus!
