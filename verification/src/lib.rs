use vstd::prelude::*;

pub mod digest;
pub mod error;
pub mod path_rules;
pub mod order;
pub mod reconcile;
pub mod sets;
pub mod settings;
pub mod storage;
pub mod text;

verus! {

} // verus!
