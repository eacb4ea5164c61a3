use vstd::prelude::*;

pub mod engine;
pub mod laws;
pub mod number;
pub mod text;
pub mod tools;

verus! {

} // verus!
