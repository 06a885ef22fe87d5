//! What the shell that called us tells about itself.
use vstd::prelude::*;
use crate::text::{find, find_first, str_eq, to_chars};

verus! {

/// Whether the shell has sourced the integration script: it then sets the
/// variable that `value` is read from to `1`.
pub fn is_autojump_sourced(value: Option<&str>) -> (r: bool)
    ensures
        r == (value matches Some(v) && v@ == "1"@),
{
    match value {
        Some(v) => str_eq(v, "1"),
        None => false,
    }
}

/// Whether the shell named by `shell`, the value of `SHELL`, is a bash: its
/// name then holds `bash`.
pub fn in_bash_internal(shell: Option<&str>) -> (r: bool)
    ensures
        r == (shell matches Some(s) && find(s@, "bash"@) is Some),
{
    match shell {
        Some(s) => {
            let hay = to_chars(s);
            let pat = to_chars("bash");
            find_first(&hay, &pat).is_some()
        },
        None => false,
    }
}

/// `s` between double quotes where the shell is a bash, else `s` as it is.
pub fn surround_quotes(s: String, in_bash: bool) -> (r: String)
    ensures
        r@ == if in_bash {
            seq!['"'] + s@ + seq!['"']
        } else {
            s@
        },
{
    if in_bash {
        let mut result = String::new();
        result.push('"');
        result.append(s.as_str());
        result.push('"');
        result
    } else {
        s
    }
}

} // verus!
