//! Marks UI-component usages in a module's syntax tree with a traceable
//! attribute: a gate on the module's imports, bindings of a configured UI
//! library, chains of styled wrappers, and a scoped naming context, with the
//! transform's laws proved over its mathematical model.

use vstd::prelude::*;

pub mod options;
pub mod tree;
pub mod model;
pub mod marker;
pub mod laws;

verus! {

} // verus!
