use vstd::prelude::*;

pub mod frame;
pub mod session;
pub mod text;

verus! {

} // verus!
