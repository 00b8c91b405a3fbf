use vstd::prelude::*;

pub mod daemon;
pub mod naming;
pub mod node;
pub mod text;
pub mod tree;
pub mod window;

verus! {

} // verus!
