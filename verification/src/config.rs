//! Where the journal's database lives.

use vstd::prelude::*;

verus! {

/// The database path to use: the one the environment names, else the one the
/// configuration file names, else the default.
pub fn choose_db_path(env_override: Option<String>, configured: Option<String>, default: String) -> (r: String)
    ensures
        env_override matches Some(p) ==> r == p,
        env_override is None && configured is Some ==> r == configured.unwrap(),
        env_override is None && configured is None ==> r == default,
{
    match env_override {
        Some(path) => path,
        None => match configured {
            Some(path) => path,
            None => default,
        },
    }
}

} // verus!
