//! Where the history is kept.
use vstd::prelude::*;
use crate::input::SEPARATOR;

verus! {

/// The directory that holds the history, the history file and its backup.
pub struct Config {
    pub prefix: String,
    pub data_path: String,
    pub backup_path: String,
}

/// The path `name` seen from the directory `dir`: `name` itself where it
/// starts at the root, else `dir` and `name` with one separator between them,
/// which is left out where `dir` is empty or brings its own.
pub open spec fn joined(dir: Seq<char>, name: Seq<char>) -> Seq<char> {
    if name.len() > 0 && name[0] == SEPARATOR {
        name
    } else if dir.len() == 0 || dir.last() == SEPARATOR {
        dir + name
    } else {
        dir + seq![SEPARATOR] + name
    }
}

/// The home directory to work with: the one given, or the root where there
/// is none.
pub open spec fn home_or_root(home: Option<&str>) -> Seq<char> {
    match home {
        Some(h) => h@,
        None => seq![SEPARATOR],
    }
}

/// `.local/share/autojump` below the home directory.
pub open spec fn xdg_home(home: Option<&str>) -> Seq<char> {
    joined(joined(joined(home_or_root(home), ".local"@), "share"@), "autojump"@)
}

/// The path `name` seen from the directory `dir`.
pub fn join(dir: &str, name: &str) -> (r: String)
    ensures
        r@ == joined(dir@, name@),
{
    let name_len: usize = name.unicode_len();
    if name_len > 0 && name.get_char(0) == SEPARATOR {
        return String::from_str(name);
    }
    let dir_len: usize = dir.unicode_len();
    let mut r = String::from_str(dir);
    if dir_len > 0 && dir.get_char(dir_len - 1) != SEPARATOR {
        r.push(SEPARATOR);
    }
    r.append(name);
    r
}

/// The data directory under the XDG convention, `~/.local/share/autojump`,
/// for the home directory `home`. Without a home directory the root stands
/// in.
pub fn xdg_home_hardcoded(home: Option<&str>) -> (r: String)
    ensures
        r@ == xdg_home(home),
{
    proof {
        reveal_strlit("/");
    }
    let base = match home {
        Some(h) => h,
        None => "/",
    };
    let local = join(base, ".local");
    let share = join(local.as_str(), "share");
    join(share.as_str(), "autojump")
}

/// The data directory: `xdg_data_home` where the environment names one, else
/// `~/.local/share/autojump`.
pub fn data_home(xdg_data_home: Option<&str>, home: Option<&str>) -> (r: String)
    ensures
        r@ == match xdg_data_home {
            Some(dir) => dir@,
            None => xdg_home(home),
        },
{
    match xdg_data_home {
        Some(dir) => String::from_str(dir),
        None => xdg_home_hardcoded(home),
    }
}

impl Config {
    /// Whether this is the configuration for the data directory `prefix`.
    pub open spec fn is_for(&self, prefix: Seq<char>) -> bool {
        &&& self.prefix@ == prefix
        &&& self.data_path@ == joined(prefix, "autojump.txt"@)
        &&& self.backup_path@ == joined(prefix, "autojump.txt.bak"@)
    }

    /// The configuration for the default data directory, given what the
    /// environment says of the data directory and of the home directory.
    pub fn defaults(xdg_data_home: Option<&str>, home: Option<&str>) -> (r: Config)
        ensures
            r.is_for(
                match xdg_data_home {
                    Some(dir) => dir@,
                    None => xdg_home(home),
                },
            ),
    {
        let data_home = data_home(xdg_data_home, home);
        Config::from_prefix(data_home.as_str())
    }

    /// The configuration for the data directory `data_home`.
    pub fn from_prefix(data_home: &str) -> (r: Config)
        ensures
            r.is_for(data_home@),
    {
        let data_path = join(data_home, "autojump.txt");
        let backup_path = join(data_home, "autojump.txt.bak");
        Config { prefix: String::from_str(data_home), data_path, backup_path }
    }
}

} // verus!
