use vstd::prelude::*;

pub mod config;
pub mod text;
pub mod marketwatch;
pub mod wallet;
pub mod app;
pub mod laws;
pub mod update_laws;
pub mod display;

verus! {

} // verus!
