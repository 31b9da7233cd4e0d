//! The `version` command.
use vstd::prelude::*;

verus! {

/// The answer of `version`: the package name and version, in code style.
pub fn cmd(name: &str, version: &str) -> (r: String)
    ensures
        r@ == "`"@ + name@ + " "@ + version@ + "`"@,
{
    let mut r = String::new();
    r.append("`");
    r.append(name);
    r.append(" ");
    r.append(version);
    r.append("`");
    r
}

} // verus!
