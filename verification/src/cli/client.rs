//! Why the client got no answer.
use vstd::prelude::*;

verus! {

/// The failures of a system call the client tells apart.
#[derive(Debug, Clone, Copy, PartialEq, Eq, Structural)]
pub enum IoKind {
    /// The file is not there.
    NotFound,
    /// Nobody listens.
    ConnectionRefused,
    /// The peer closed with bytes unread.
    ConnectionReset,
    /// There is no route.
    HostUnreachable,
    /// Anything else.
    Other,
}

/// A failed system call.
#[derive(Debug, Clone, PartialEq, Eq)]
pub struct IoFailure {
    /// What failed.
    pub kind: IoKind,
    /// How the system words it.
    pub text: String,
}

/// Reason the client got no answer out of the daemon.
#[derive(Debug, Clone, PartialEq, Eq)]
pub enum Unreachable {
    /// Nobody listens on this socket.
    NoDaemon(String),
    /// The daemon hung up.
    Closed,
    /// The conversation failed.
    Io(String),
    /// The answer cannot be read.
    Malformed(String),
}

/// The explanation shown to the operator.
pub open spec fn unreachable_text(failure: Unreachable) -> Seq<char> {
    match failure {
        Unreachable::NoDaemon(socket_file) => "no daemon is listening on "@ + socket_file@
            + ", run `nhop start`"@,
        Unreachable::Closed => "the daemon closed the connection without answering"@,
        Unreachable::Io(failure) => "cannot talk to the daemon: "@ + failure@,
        Unreachable::Malformed(failure) =>
            "the daemon answered with a line this client cannot read: "@ + failure@,
    }
}

impl Unreachable {
    /// Returns the explanation shown to the operator.
    pub fn message(&self) -> (r: String)
        ensures
            r@ == unreachable_text(*self),
    {
        match self {
            Self::NoDaemon(socket_file) => {
                let mut r = "no daemon is listening on ".to_owned();
                r.append(socket_file.as_str());
                r.append(", run `nhop start`");
                r
            },
            Self::Closed => "the daemon closed the connection without answering".to_owned(),
            Self::Io(failure) => {
                let mut r = "cannot talk to the daemon: ".to_owned();
                r.append(failure.as_str());
                r
            },
            Self::Malformed(failure) => {
                let mut r = "the daemon answered with a line this client cannot read: ".to_owned();
                r.append(failure.as_str());
                r
            },
        }
    }
}

/// Folds a reset read into the end of file it stands for.
///
/// A peer that closes the socket while bytes it never read are still queued makes the next read
/// fail with a reset rather than return zero, which is what a daemon shutting down on a command it
/// never answered does. Both are the same event.
///
/// # Errors
///
/// Returns [`Unreachable::Io`] for any other failure.
pub fn read_or_hangup(read: Result<usize, IoFailure>) -> (r: Result<usize, Unreachable>)
    ensures
        match read {
            Ok(n) => r == Ok::<usize, Unreachable>(n),
            Err(failure) => if failure.kind == IoKind::ConnectionReset {
                r == Ok::<usize, Unreachable>(0)
            } else {
                r == Err::<usize, Unreachable>(Unreachable::Io(failure.text))
            },
        },
{
    match read {
        Ok(read) => Ok(read),
        Err(failure) => match failure.kind {
            IoKind::ConnectionReset => Ok(0),
            _ => Err(Unreachable::Io(failure.text)),
        },
    }
}

/// Names an absent daemon rather than the failure to connect behind it.
pub fn unconnectable(socket_file: &str, failure: IoFailure) -> (r: Unreachable)
    ensures
        if failure.kind == IoKind::NotFound || failure.kind == IoKind::ConnectionRefused {
            r matches Unreachable::NoDaemon(path) && path@ == socket_file@
        } else {
            r == Unreachable::Io(failure.text)
        },
{
    match failure.kind {
        IoKind::NotFound | IoKind::ConnectionRefused => Unreachable::NoDaemon(
            socket_file.to_owned(),
        ),
        _ => Unreachable::Io(failure.text),
    }
}

/// What the operator is told where the daemon could not be asked.
pub proof fn law_how_an_absent_daemon_is_told(text: String)
    ensures
        unreachable_text(Unreachable::NoDaemon(text)) == "no daemon is listening on "@ + text@
            + ", run `nhop start`"@,
        unreachable_text(Unreachable::Closed)
            == "the daemon closed the connection without answering"@,
        unreachable_text(Unreachable::Io(text)) == "cannot talk to the daemon: "@ + text@,
        unreachable_text(Unreachable::Malformed(text))
            == "the daemon answered with a line this client cannot read: "@ + text@,
{
}

} // verus!
