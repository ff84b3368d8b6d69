//! Files of the shell under the user's home directory.
use vstd::prelude::*;
use crate::repl::module_loader::path_join;

verus! {

/// The user's home directory as `dirs::home_dir` finds it, as text.
/// Nothing is stated of it: it depends on the environment.
#[verifier::external_body]
pub(crate) fn home_dir_text() -> Option<String> {
    dirs::home_dir().map(|p| p.to_string_lossy().into_owned())
}

/// A file or directory under the home directory, where there is one.
pub open spec fn under_home(home: Option<Seq<char>>, name: Seq<char>) -> Option<Seq<char>> {
    match home {
        Some(h) => Some(path_join(h, name)),
        None => None,
    }
}

/// The text of an optional string.
pub open spec fn opt_view(s: Option<String>) -> Option<Seq<char>> {
    match s {
        Some(t) => Some(t@),
        None => None,
    }
}

/// `name` under the home directory `home`, where there is one.
pub fn path_under(home: &Option<String>, name: &str) -> (r: Option<String>)
    ensures
        opt_view(r) == under_home(opt_view(*home), name@),
{
    match home {
        Some(h) => Some(crate::repl::module_loader::join_path(h.as_str(), name)),
        None => None,
    }
}

} // verus!
