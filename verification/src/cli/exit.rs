//! The codes the process exits with.
use vstd::prelude::*;

use crate::cli::client::Unreachable;
use crate::daemon::lock::StartFailure;
use crate::ipc::ErrKind;

verus! {

/// Code the process exits with, one variant per row of the exit-code table.
#[derive(Debug, Clone, Copy, PartialEq, Eq, Structural)]
pub enum Exit {
    /// The command succeeded.
    Success,
    /// The command failed for a reason the operator has to read the message for.
    Failed,
    /// The socket, the daemon or the addressed thing is not there.
    Missing,
    /// The upstream is down and a `require` rule demanded it.
    UpstreamDown,
    /// The arguments were malformed.
    InvalidArgs,
}

/// The exit of a failed command.
pub open spec fn exit_of_err(kind: ErrKind) -> Exit {
    match kind {
        ErrKind::NotFound => Exit::Missing,
        ErrKind::UpstreamDown => Exit::UpstreamDown,
        ErrKind::InvalidArgs => Exit::InvalidArgs,
        ErrKind::LoadInProgress => Exit::Failed,
        ErrKind::Internal => Exit::Failed,
    }
}

impl Exit {
    /// Returns the number handed to the operating system.
    pub fn code(self) -> (r: u8)
        ensures
            r == match self {
                Exit::Success => 0u8,
                Exit::Failed => 1,
                Exit::Missing => 2,
                Exit::UpstreamDown => 3,
                Exit::InvalidArgs => 4,
            },
    {
        match self {
            Self::Success => 0,
            Self::Failed => 1,
            Self::Missing => 2,
            Self::UpstreamDown => 3,
            Self::InvalidArgs => 4,
        }
    }

    /// Returns the exit of a command the daemon refused.
    pub fn of_err(kind: ErrKind) -> (r: Exit)
        ensures
            r == exit_of_err(kind),
    {
        match kind {
            ErrKind::NotFound => Self::Missing,
            ErrKind::UpstreamDown => Self::UpstreamDown,
            ErrKind::InvalidArgs => Self::InvalidArgs,
            ErrKind::LoadInProgress | ErrKind::Internal => Self::Failed,
        }
    }

    /// Returns the exit of a command no daemon answered.
    pub fn of_unreachable(failure: &Unreachable) -> (r: Exit)
        ensures
            r == if failure is Malformed {
                Exit::Failed
            } else {
                Exit::Missing
            },
    {
        match failure {
            Unreachable::NoDaemon(_) => Self::Missing,
            Unreachable::Closed => Self::Missing,
            Unreachable::Io(_) => Self::Missing,
            Unreachable::Malformed(_) => Self::Failed,
        }
    }

    /// Returns the exit of a daemon that did not start.
    pub fn of_start(failure: &StartFailure) -> (r: Exit)
        ensures
            r == Exit::Failed,
    {
        match failure {
            StartFailure::AlreadyRunning(_) => Self::Failed,
            StartFailure::Io(_) => Self::Failed,
        }
    }
}

/// What a refused command exits with: 2 for what is not there, 3 for an upstream that is down, 4 for
/// what was written wrongly, 1 for everything else.
pub proof fn law_exits_carry_their_meaning()
    ensures
        exit_of_err(ErrKind::NotFound) == Exit::Missing,
        exit_of_err(ErrKind::UpstreamDown) == Exit::UpstreamDown,
        exit_of_err(ErrKind::InvalidArgs) == Exit::InvalidArgs,
        exit_of_err(ErrKind::LoadInProgress) == Exit::Failed,
        exit_of_err(ErrKind::Internal) == Exit::Failed,
{
}

} // verus!
