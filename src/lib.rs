use vstd::prelude::*;

pub mod analysis;
pub mod completion;
pub mod diagnostic;
pub mod kinds;
pub mod laws;
pub mod matching;
pub mod scope;
pub mod settings;
pub mod text;
pub mod ty;

verus! {

} // verus!
