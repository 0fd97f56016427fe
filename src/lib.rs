//! A command-line argument parser built from composable grammars, and the
//! help documents that go with it: a backend-neutral token stream rendered
//! as terminal text, Markdown and manual-page (roff) markup.
use vstd::prelude::*;

pub mod doc;
pub mod roff;
pub mod manpage;
pub mod markdown;
pub mod terminal;
pub mod parser;
pub mod laws;

verus! {

} // verus!
