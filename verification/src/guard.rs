//! The rendezvous guard's decision: given what a probe of the socket path
//! found, either bind, unlink a stale file and then bind, or report that a
//! broker is already running. The probe itself — stat and a synchronous
//! connect — happens outside; the rule is decided here.

use crate::error::BotError;
use vstd::prelude::*;

verus! {

/// What probing the socket path found.
#[derive(Debug, Clone, Copy, PartialEq, Eq, Structural)]
pub enum SocketProbe {
    /// No file at the path.
    Absent,
    /// A connect succeeded: someone is listening.
    Connected,
    /// A connect was refused: a socket file with no listener.
    Refused,
    /// Any other error, an unrelated non-socket file included.
    OtherError,
}

/// What the daemon must do before binding.
#[derive(Debug, Clone, Copy, PartialEq, Eq, Structural)]
pub enum SocketAction {
    /// The path is free: bind.
    Bind,
    /// A stale file occupies the path: unlink it, then bind.
    UnlinkThenBind,
}

/// Single-instance rule: an absent path binds directly; an active peer
/// means another broker runs and the daemon must fail; anything else — a
/// refused connect or an unreadable, unrelated file — is stale and is
/// unlinked before binding.
pub fn stale_socket_action(probe: SocketProbe, socket_path: String) -> (r: Result<
    SocketAction,
    BotError,
>)
    ensures
        probe == SocketProbe::Absent ==> r == Ok::<SocketAction, BotError>(SocketAction::Bind),
        probe == SocketProbe::Connected ==> (r matches Err(e) && e matches BotError::AlreadyRunning(
            p,
        ) && p@ == socket_path@),
        probe == SocketProbe::Refused || probe == SocketProbe::OtherError ==> r == Ok::<
            SocketAction,
            BotError,
        >(SocketAction::UnlinkThenBind),
{
    match probe {
        SocketProbe::Absent => Ok(SocketAction::Bind),
        SocketProbe::Connected => Err(BotError::AlreadyRunning(socket_path)),
        SocketProbe::Refused => Ok(SocketAction::UnlinkThenBind),
        SocketProbe::OtherError => Ok(SocketAction::UnlinkThenBind),
    }
}

} // verus!
