use vstd::prelude::*;

pub mod cli;
pub mod dims;
pub mod pipeline;
pub mod resize;
pub mod raw;
pub mod tensor;

verus! {

} // verus!
