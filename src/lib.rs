use vstd::prelude::*;

pub mod text;
pub mod snippet;
pub mod store;
pub mod history;
pub mod commands;
pub mod display;
pub mod menu;

verus! {

} // verus!
