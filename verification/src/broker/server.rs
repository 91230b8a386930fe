//! Accept-loop decisions: single-instance election on the broker's socket name, when the accept
//! loop stops, and how a persistent broker's exit is reported.
use vstd::prelude::*;

use super::actor::TerminalReason;
use super::wire::Reason;

verus! {

/// What binding the broker's socket name gave.
#[derive(Debug, Clone, Copy, PartialEq, Eq, Structural)]
pub enum BindResult {
    /// The name is ours: serve.
    Bound,
    /// Another broker holds the name.
    AddrInUse,
    /// Binding failed otherwise.
    Failed,
}

/// What to do after binding.
#[derive(Debug, Clone, Copy, PartialEq, Eq, Structural)]
pub enum BindAction {
    /// Serve on the bound socket.
    Serve,
    /// Exit successfully: another broker is already serving this device.
    ExitQuietly,
    /// Fail: the name is held and a silent exit would hide a lost startup race.
    RefuseHeld,
    /// Fail with the bind error.
    Fail,
}

/// The single-instance election: a lost race exits quietly only where that is allowed (the
/// ephemeral broker, spawned redundantly by racing commands); the persistent daemon reports it
/// as an error instead, so a supervisor never mistakes it for a successful start.
pub fn bind_action(result: BindResult, allow_silent_exit: bool) -> (a: BindAction)
    ensures
        a == match result {
            BindResult::Bound => BindAction::Serve,
            BindResult::AddrInUse => if allow_silent_exit {
                BindAction::ExitQuietly
            } else {
                BindAction::RefuseHeld
            },
            BindResult::Failed => BindAction::Fail,
        },
{
    match result {
        BindResult::Bound => BindAction::Serve,
        BindResult::AddrInUse => {
            if allow_silent_exit {
                BindAction::ExitQuietly
            } else {
                BindAction::RefuseHeld
            }
        },
        BindResult::Failed => BindAction::Fail,
    }
}

/// What the accept loop saw next.
#[derive(Debug, Clone, Copy, PartialEq, Eq, Structural)]
pub enum AcceptEvent {
    /// The actor's shutdown signal changed: its sender is gone (`closed`) or a terminal reason
    /// was published (`terminal`).
    ShutdownChanged { closed: bool, terminal: bool },
    /// The shutdown coordinator cancelled (persistent broker only).
    Cancelled,
    /// A client connected.
    Accepted,
}

/// What the accept loop does next.
#[derive(Debug, Clone, Copy, PartialEq, Eq, Structural)]
pub enum AcceptAction {
    /// Stop accepting.
    Stop,
    /// Keep waiting.
    Continue,
    /// Serve the new connection in its own task.
    Serve,
}

/// One step of the accept loop: the actor going away or publishing why it stopped, or the
/// coordinator cancelling, stops the loop; a new connection is served.
pub fn accept_step(ev: AcceptEvent) -> (a: AcceptAction)
    ensures
        a == match ev {
            AcceptEvent::ShutdownChanged { closed, terminal } => if closed || terminal {
                AcceptAction::Stop
            } else {
                AcceptAction::Continue
            },
            AcceptEvent::Cancelled => AcceptAction::Stop,
            AcceptEvent::Accepted => AcceptAction::Serve,
        },
{
    match ev {
        AcceptEvent::ShutdownChanged { closed, terminal } => {
            if closed || terminal {
                AcceptAction::Stop
            } else {
                AcceptAction::Continue
            }
        },
        AcceptEvent::Cancelled => AcceptAction::Stop,
        AcceptEvent::Accepted => AcceptAction::Serve,
    }
}

/// How a persistent broker's exit is reported once it has drained: a connect phase that gave up
/// for good is an error carrying its reason (so a supervisor sees a failure); any other stop is
/// a clean exit.
pub fn daemon_outcome(reason: Option<TerminalReason>) -> (r: Result<(), Reason>)
    ensures
        r == match reason {
            Some(TerminalReason::PermanentFailure(why)) => Err(why),
            _ => Ok::<(), Reason>(()),
        },
{
    match reason {
        Some(TerminalReason::PermanentFailure(why)) => Err(why),
        _ => Ok(()),
    }
}

} // verus!
