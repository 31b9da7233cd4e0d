//! A template for new commands.
use vstd::prelude::*;

verus! {

/// The answer of the template command.
pub fn cmd() -> (r: String)
    ensures
        r@ == "Hello!"@,
{
    let mut r = String::new();
    r.append("Hello!");
    r
}

/// The answer of the template's slash command.
pub fn interaction_cmd() -> (r: String)
    ensures
        r@ == "Hello from interaction command!"@,
{
    let mut r = String::new();
    r.append("Hello from interaction command!");
    r
}

} // verus!
