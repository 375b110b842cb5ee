use vstd::prelude::*;
use crate::text::{replace, replace_all};

verus! {

/// A release-candidate version turned into a plain comparable one: `-rc`
/// becomes `0`, then every `00` is removed (`v1.9.2-rc1` gives `v1.9.201`).
pub open spec fn rc_converted(v: Seq<char>) -> Seq<char> {
    replace_all(replace_all(v, "-rc"@, "0"@), "00"@, ""@)
}

/// Helps with converting release candidate numbers.
pub fn convert_release_candidate_number(version_number: String) -> (r: String)
    ensures
        r@ == rc_converted(version_number@),
{
    let once = replace(version_number.as_str(), "-rc", "0");
    replace(once.as_str(), "00", "")
}

/// The launcher's version as shown to the user: `v<version>`, followed by
/// ` (debug mode)` in a debug build.
pub fn launcher_version_label(version: &str, debug: bool) -> (r: String)
    ensures
        r@ == (if debug { "v"@ + version@ + " (debug mode)"@ } else { "v"@ + version@ }),
{
    let mut out = String::from_str("v");
    out.append(version);
    if debug {
        out.append(" (debug mode)");
    }
    out
}

} // verus!
