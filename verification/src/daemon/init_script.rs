//! How an init script is run.
use vstd::prelude::*;
use vstd::slice::slice_to_vec;

verus! {

/// What stands between the directories of a search path: a colon.
pub const SEPARATOR: u8 = 0x3a;

/// How an init-script run ended.
#[derive(Debug, Clone, Copy, PartialEq, Eq, Structural)]
pub enum ScriptOutcome {
    /// The script exited zero, so its staged commands may be committed.
    Succeeded,
    /// The script exited non-zero or was killed by a signal.
    Exited,
    /// The script outlived the load timeout and was killed.
    TimedOut,
    /// The script could not be run at all.
    NotRun,
}

/// The search path of a script: the directory of the running executable before what was inherited.
pub open spec fn searched(directory: Option<&[u8]>, inherited: Seq<u8>) -> Seq<u8> {
    match directory {
        None => inherited,
        Some(directory) => if inherited.len() == 0 {
            directory@
        } else {
            directory@.push(SEPARATOR) + inherited
        },
    }
}

/// Returns the search path of a script, so that `nhop` in it resolves to the running executable.
///
/// Paths are bytes: neither the directory nor what was inherited has to be text.
pub fn search_path(directory: Option<&[u8]>, inherited: &[u8]) -> (r: Vec<u8>)
    ensures
        r@ == searched(directory, inherited@),
{
    let mut inherited = slice_to_vec(inherited);
    match directory {
        None => inherited,
        Some(directory) => {
            let mut search = slice_to_vec(directory);
            if inherited.len() > 0 {
                search.push(SEPARATOR);
                search.append(&mut inherited);
            }
            search
        },
    }
}

/// The directory of the executable comes first in the search path and what was inherited behind it;
/// without the one the other stays as it is.
pub proof fn law_the_executable_leads_the_search_path(directory: &[u8], inherited: Seq<u8>)
    ensures
        searched(None, inherited) == inherited,
        searched(Some(directory), Seq::empty()) == directory@,
        inherited.len() > 0 ==> searched(Some(directory), inherited) == directory@ + seq![58u8]
            + inherited,
{
    assert(directory@.push(58) =~= directory@ + seq![58u8]);
}

} // verus!
