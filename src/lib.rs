use vstd::prelude::*;

pub mod ir;
pub mod codegen;
pub mod emission;
pub mod backend;
pub mod program;

verus! {

} // verus!
