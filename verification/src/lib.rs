//! Verified core of a Discord bot front-end for the fend calculator.
use vstd::prelude::*;

pub mod buffers;
pub mod event_handler;
pub mod registry;
pub mod response_helper;
pub mod utils;
pub mod text;

verus! {

} // verus!
