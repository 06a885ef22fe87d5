//! The versions that this crate answers to.
use vstd::prelude::*;

verus! {

/// The version of `autojump` whose behaviour and file format this crate
/// follows.
pub const VERSION_TRACK: &'static str = "22.5.0";

/// The version of this crate.
pub const VERSION: &'static str = "0.3.1";

/// The text shown for `--version`: both versions, one to a line.
pub fn get_version_str() -> (r: String)
    ensures
        r@ == "autojump v"@ + VERSION_TRACK@ + "\nautojump-rs v"@ + VERSION@,
{
    let mut tmp = String::new();
    tmp.append("autojump v");
    tmp.append(VERSION_TRACK);
    tmp.append("\nautojump-rs v");
    tmp.append(VERSION);
    tmp
}

} // verus!
