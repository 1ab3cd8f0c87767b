//! One line of a client's conversation with the daemon.
use vstd::prelude::*;

use crate::ipc::{Command, ErrKind, Response};
use crate::text;
use crate::text::trimmed;

verus! {

/// What a line a client sent asks for.
#[derive(Debug, Clone, PartialEq, Eq)]
pub enum Asked {
    /// The connection becomes a stream of decisions.
    Stream,
    /// A command for the daemon's state.
    Call(Command),
    /// An answer that needs no state.
    Answer(Response),
}

/// Returns what a line says, absent where it is blank.
pub fn said(line: &str) -> (r: Option<&str>)
    ensures
        match r {
            Some(s) => s@ == trimmed(line@) && s@.len() > 0,
            None => trimmed(line@).len() == 0,
        },
{
    let line = text::trim(line);
    if line.is_empty() {
        return None;
    }
    Some(line)
}

/// Decides what to do with a line, given the command it reads as or why it reads as none.
pub fn asked(read: Result<Command, String>) -> (r: Asked)
    ensures
        match read {
            Ok(Command::Subscribe) => r == Asked::Stream,
            Ok(command) => r == Asked::Call(command),
            Err(failure) => r == Asked::Answer(
                Response::Failed { kind: ErrKind::InvalidArgs, message: failure },
            ),
        },
{
    match read {
        Ok(Command::Subscribe) => Asked::Stream,
        Ok(command) => Asked::Call(command),
        Err(failure) => Asked::Answer(
            Response::Failed { kind: ErrKind::InvalidArgs, message: failure },
        ),
    }
}

} // verus!
