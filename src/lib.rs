use vstd::prelude::*;

pub mod error;
pub mod text;
pub mod ignore;
pub mod number;
pub mod digest;
pub mod record;
pub mod repo;
pub mod history;
pub mod cli;

verus! {

} // verus!
