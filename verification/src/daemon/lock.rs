//! Who holds the single-instance lock, and why a daemon did not start.
use vstd::prelude::*;

use crate::text;
use crate::text::{decimal, number, trimmed};

verus! {

/// Identifier of a process on this machine.
#[derive(Debug, Clone, Copy, PartialEq, Eq, Structural)]
pub struct Pid(pub u32);

/// Process the single-instance lock belongs to.
#[derive(Debug, Clone, Copy, PartialEq, Eq, Structural)]
pub enum LockOwner {
    /// The pid file named its owner.
    Known(Pid),
    /// The pid file held nothing readable.
    Unknown,
}

impl LockOwner {
    /// The owner as it is named.
    pub open spec fn shown(self) -> Seq<char> {
        match self {
            LockOwner::Known(pid) => "pid "@ + decimal(pid.0 as nat),
            LockOwner::Unknown => "pid unknown"@,
        }
    }

    /// Returns the owner as it is named.
    pub fn text(&self) -> (r: String)
        ensures
            r@ == self.shown(),
    {
        match self {
            Self::Known(pid) => {
                let mut r = "pid ".to_owned();
                r.append(text::decimal_text(pid.0 as u64).as_str());
                r
            },
            Self::Unknown => "pid unknown".to_owned(),
        }
    }
}

/// Reads the owner a pid file names; what could not be read is absent.
pub fn read_owner(written: Option<&str>) -> (r: LockOwner)
    ensures
        r == match written {
            None => LockOwner::Unknown,
            Some(s) => match number(trimmed(s@), u32::MAX as nat) {
                Some(pid) => LockOwner::Known(Pid(pid as u32)),
                None => LockOwner::Unknown,
            },
        },
{
    match written {
        None => LockOwner::Unknown,
        Some(s) => match text::read_number(text::trim(s), u32::MAX as u64) {
            Some(pid) => LockOwner::Known(Pid(pid as u32)),
            None => LockOwner::Unknown,
        },
    }
}

/// Reason the daemon refused to start.
#[derive(Debug, Clone, PartialEq, Eq)]
pub enum StartFailure {
    /// A live daemon holds the lock.
    AlreadyRunning(LockOwner),
    /// The state directory, the pid file or the socket could not be prepared.
    Io(String),
}

impl StartFailure {
    /// Returns the explanation shown to the operator.
    pub fn message(&self) -> (r: String)
        ensures
            r@ == match self {
                StartFailure::AlreadyRunning(owner) => "another nhop daemon is already running ("@
                    + owner.shown() + ")"@,
                StartFailure::Io(failure) => "cannot start the daemon: "@ + failure@,
            },
    {
        match self {
            Self::AlreadyRunning(owner) => {
                let mut r = "another nhop daemon is already running (".to_owned();
                r.append(owner.text().as_str());
                r.append(")");
                r
            },
            Self::Io(failure) => {
                let mut r = "cannot start the daemon: ".to_owned();
                r.append(failure.as_str());
                r
            },
        }
    }
}

/// The owner of the lock is told by the number of its process where that is known.
pub proof fn law_how_the_owner_of_the_lock_is_told(pid: Pid)
    ensures
        LockOwner::Known(pid).shown() == "pid "@ + decimal(pid.0 as nat),
        LockOwner::Unknown.shown() == "pid unknown"@,
{
}

} // verus!
