use vstd::prelude::*;
use crate::scope::{ModuleScopes, Name};
use crate::ty::TyArena;

verus! {

/// What is known of one file: its names, its scope tree and the inferred
/// types of its values.
pub struct FileAnalysis {
    pub names: Vec<Name>,
    pub scopes: ModuleScopes,
    pub tys: TyArena,
}

impl FileAnalysis {
    pub open spec fn wf(&self) -> bool {
        &&& self.scopes.wf()
        &&& self.tys.wf()
        &&& forall|i: int|
            0 <= i < self.scopes.defs().len() ==> (#[trigger] self.scopes.defs()[i]).name
                < self.names@.len()
    }
}

} // verus!
