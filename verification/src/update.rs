//! The words of a self-update: what is printed once the latest release has
//! been looked up.

use vstd::prelude::*;
use vstd::string::StringExecFns;

verus! {

/// The line printed after a self-update: the new version when the program
/// was replaced, else the version it already has.
pub open spec fn update_message_text(updated: bool, version: Seq<char>) -> Seq<char> {
    if updated {
        "updated to v"@ + version
    } else {
        "already up to date (v"@ + version + ")"@
    }
}

/// The line printed after a self-update that `updated` (or not) to `version`,
/// e.g. `"updated to v0.3.0"`.
pub fn update_message(updated: bool, version: &str) -> (r: String)
    ensures
        r@ == update_message_text(updated, version@),
{
    if updated {
        let mut s = String::from_str("updated to v");
        s.append(version);
        s
    } else {
        let mut s = String::from_str("already up to date (v");
        s.append(version);
        s.append(")");
        s
    }
}

} // verus!
