//! The daemon's files, below `.bnvr` in the user's home directory.

use vstd::prelude::*;

use crate::paths::{join, join_path, user_home_dir};

verus! {

/// The daemon's home below a user's home directory as it was looked up:
/// `.bnvr` in it where it is known, none where it is not.
pub fn home_below(user_home: Option<String>) -> (r: Option<String>)
    ensures
        match user_home {
            Some(u) => r matches Some(h) && h@ == join(u@, ".bnvr"@),
            None => r is None,
        },
{
    match user_home {
        Some(u) => Some(join_path(u.as_str(), ".bnvr")),
        None => None,
    }
}

/// The daemon's home: `.bnvr` in the user's home directory, where that is
/// known. Whether it is known, and where it is, depends on the environment
/// and is not stated; `home_below` says what follows from each answer.
pub fn bnvr_home() -> (r: Option<String>)
    ensures
        r matches Some(h) ==> exists|u: Seq<char>| h@ == #[trigger] join(u, ".bnvr"@),
{
    home_below(user_home_dir())
}

/// A file `name` in the daemon's home below a user's home directory as it
/// was looked up: `.bnvr/name` in it where it is known, none where it is
/// not.
pub fn file_below(user_home: Option<String>, name: &str) -> (r: Option<String>)
    ensures
        match user_home {
            Some(u) => r matches Some(p) && p@ == join(join(u@, ".bnvr"@), name@),
            None => r is None,
        },
{
    match home_below(user_home) {
        Some(h) => Some(join_path(h.as_str(), name)),
        None => None,
    }
}

/// A file `name` in the daemon's home; see `file_below` for what follows
/// from each answer of the home lookup.
fn in_home(name: &str) -> (r: Option<String>)
    ensures
        r matches Some(p) ==> exists|u: Seq<char>| p@ == #[trigger] join(join(u, ".bnvr"@), name@),
{
    let user = user_home_dir();
    let ghost looked_up = user;
    let r = file_below(user, name);
    proof {
        if let Some(u) = looked_up {
            assert(r->Some_0@ == join(join(u@, ".bnvr"@), name@));
        }
    }
    r
}

/// `bnvr.pid` in the daemon's home.
pub fn pid_file() -> (r: Option<String>)
    ensures
        r matches Some(p) ==> exists|u: Seq<char>| p@ == #[trigger] join(join(u, ".bnvr"@), "bnvr.pid"@),
{
    in_home("bnvr.pid")
}

/// `bnvr.db` in the daemon's home.
pub fn db_file() -> (r: Option<String>)
    ensures
        r matches Some(p) ==> exists|u: Seq<char>| p@ == #[trigger] join(join(u, ".bnvr"@), "bnvr.db"@),
{
    in_home("bnvr.db")
}

/// `logs` in the daemon's home.
pub fn log_dir() -> (r: Option<String>)
    ensures
        r matches Some(p) ==> exists|u: Seq<char>| p@ == #[trigger] join(join(u, ".bnvr"@), "logs"@),
{
    in_home("logs")
}

} // verus!
