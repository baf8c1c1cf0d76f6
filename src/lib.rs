use vstd::prelude::*;

pub mod declaration;
pub mod emit;
pub mod laws;
pub mod plan;
pub mod text;
