//! Quick save / quick load for Syobon Action.
use vstd::prelude::*;

pub mod capture;
pub mod config;
pub mod inject;
pub mod keys;
pub mod numfmt;
pub mod text;
pub mod quicksave;
pub mod trusted;
pub mod utf16;

verus! {

} // verus!
