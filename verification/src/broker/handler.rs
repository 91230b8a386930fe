//! Per-connection decisions: how a request is routed, the readiness gate, the one-shot request
//! to device-operation mapping, `Shutdown` and `Status` answers, and the `Watch` stream's steps.
use vstd::prelude::*;

use super::actor::{is_operational, op_route, OpRoute};
use super::wire::{wire_state, BrokerRequest, BrokerResponse, ConnState, DeviceOp, Reason, WatchEvent};

verus! {

/// Where a request is served.
#[derive(Debug, Clone, Copy, PartialEq, Eq, Structural)]
pub enum Route {
    /// From the connection-state watch, without touching the device.
    Status,
    /// By the event stream.
    Watch,
    /// By the shutdown coordinator, if any.
    Shutdown,
    /// Through the readiness gate to the device actor.
    OneShot,
}

/// The route of a request.
pub open spec fn route_of(req: BrokerRequest) -> Route {
    match req {
        BrokerRequest::Status => Route::Status,
        BrokerRequest::Watch => Route::Watch,
        BrokerRequest::Shutdown => Route::Shutdown,
        _ => Route::OneShot,
    }
}

/// Routes a request: `Status` from the state watch, `Watch` to the stream handler, `Shutdown` to
/// the coordinator, everything else through the readiness gate to the actor.
pub fn route(req: &BrokerRequest) -> (r: Route)
    ensures
        r == route_of(*req),
{
    match req {
        BrokerRequest::Status => Route::Status,
        BrokerRequest::Watch => Route::Watch,
        BrokerRequest::Shutdown => Route::Shutdown,
        _ => Route::OneShot,
    }
}

/// The answer to `Status`: the wire state, the device, and whether this broker is persistent
/// (has a shutdown coordinator).
pub fn status_info<P>(state: &ConnState, device: String, persistent: bool) -> (r: BrokerResponse<
    P,
>)
    ensures
        r == (BrokerResponse::<P>::StatusInfo { state: wire_state(*state), device, persistent }),
{
    BrokerResponse::StatusInfo { state: state.to_wire(), device, persistent }
}

/// The answer to `Shutdown`, and whether to cancel the coordinator: a persistent broker cancels
/// and answers [`BrokerResponse::Acknowledged`]; an ephemeral one (no coordinator) refuses with an explicit error.
pub fn handle_shutdown<P>(has_coordinator: bool) -> (r: (bool, BrokerResponse<P>))
    ensures
        r.0 == has_coordinator,
        has_coordinator ==> r.1 == BrokerResponse::<P>::Acknowledged,
        !has_coordinator ==> (r.1 matches BrokerResponse::Error(m) && m@
            == "shutdown not supported by an ephemeral broker"@),
{
    if !has_coordinator {
        return (false, BrokerResponse::Error("shutdown not supported by an ephemeral broker".to_owned()));
    }
    (true, BrokerResponse::Acknowledged)
}

/// What waiting for readiness observed.
#[derive(Debug, Clone, PartialEq, Eq)]
pub enum ReadyWait {
    /// The state became `Active` or `Failed` (this one) within the deadline.
    Reached(ConnState),
    /// The state channel closed: the actor is gone.
    Closed,
    /// The deadline elapsed first.
    TimedOut,
}

/// Resolution of the readiness gate for an operational request.
#[derive(Debug, Clone, PartialEq, Eq)]
pub enum Ready {
    /// Session is `Active`: proceed.
    Active,
    /// Session went terminal: fail with this reason.
    Failed(Reason),
    /// Deadline elapsed before the session became `Active`.
    Timeout,
}

/// Resolves the readiness gate: a terminal state fails with its reason, a closed channel fails
/// with "broker stopped", an elapsed deadline times out, and anything else proceeds.
pub fn await_ready(w: ReadyWait) -> (r: Ready)
    ensures
        match w {
            ReadyWait::Reached(ConnState::Failed(reason)) => r == Ready::Failed(reason),
            ReadyWait::Reached(_) => r == Ready::Active,
            ReadyWait::Closed => r matches Ready::Failed(Reason::Internal(m)) && m@ == "broker stopped"@,
            ReadyWait::TimedOut => r == Ready::Timeout,
        },
{
    match w {
        ReadyWait::Reached(ConnState::Failed(reason)) => Ready::Failed(reason),
        ReadyWait::Reached(_) => Ready::Active,
        ReadyWait::Closed => Ready::Failed(Reason::Internal("broker stopped".to_owned())),
        ReadyWait::TimedOut => Ready::Timeout,
    }
}

/// The device operation for a one-shot request (`None` for `Status`, `Watch` and `Shutdown`,
/// which are served before this point): same fields, under the operation's names.
pub open spec fn op_for(req: BrokerRequest) -> Option<DeviceOp> {
    match req {
        BrokerRequest::Sync { folder } => Some(DeviceOp::Sync { folder }),
        BrokerRequest::Send { number, message } => Some(DeviceOp::Send { number, message }),
        BrokerRequest::Delete { handle, folder } => Some(
            DeviceOp::Delete { msg_handle: handle, folder },
        ),
        BrokerRequest::Backfill => Some(DeviceOp::Backfill),
        BrokerRequest::ListMessages { folder, unread, from, since, limit, offset } => Some(
            DeviceOp::LiveList { folder, unread, from, since, limit, offset },
        ),
        BrokerRequest::GetMessage { handle } => Some(DeviceOp::LiveGet { handle }),
        BrokerRequest::Threads => Some(DeviceOp::LiveThreads),
        BrokerRequest::Folders => Some(DeviceOp::LiveFolders),
        BrokerRequest::MarkReadDevice { handle } => Some(DeviceOp::LiveMarkRead { handle }),
        BrokerRequest::SendLive { number, message } => Some(DeviceOp::LiveSend { number, message }),
        BrokerRequest::SyncContacts => Some(DeviceOp::SyncContacts),
        BrokerRequest::ListContacts { path, limit, offset } => Some(
            DeviceOp::ListContacts { path, limit, offset },
        ),
        BrokerRequest::GetContact { path, handle } => Some(DeviceOp::GetContact { path, handle }),
        BrokerRequest::LookupContact { path, number } => Some(
            DeviceOp::LookupContact { path, number },
        ),
        BrokerRequest::PullAllContacts { path, limit, offset } => Some(
            DeviceOp::PullAllContacts { path, limit, offset },
        ),
        BrokerRequest::Status | BrokerRequest::Watch | BrokerRequest::Shutdown => None,
    }
}

/// Converts a one-shot request into its device operation; `Status`, `Watch` and `Shutdown` are
/// refused as an internal routing error.
pub fn req_to_op<P>(req: BrokerRequest) -> (r: Result<DeviceOp, BrokerResponse<P>>)
    ensures
        match op_for(req) {
            Some(op) => r == Ok::<DeviceOp, BrokerResponse<P>>(op),
            None => r matches Err(BrokerResponse::Error(m)) && m@
                == "internal: routed to one-shot path"@,
        },
{
    let op = match req {
        BrokerRequest::Sync { folder } => DeviceOp::Sync { folder },
        BrokerRequest::Send { number, message } => DeviceOp::Send { number, message },
        BrokerRequest::Delete { handle, folder } => DeviceOp::Delete { msg_handle: handle, folder },
        BrokerRequest::Backfill => DeviceOp::Backfill,
        BrokerRequest::ListMessages { folder, unread, from, since, limit, offset } => {
            DeviceOp::LiveList { folder, unread, from, since, limit, offset }
        },
        BrokerRequest::GetMessage { handle } => DeviceOp::LiveGet { handle },
        BrokerRequest::Threads => DeviceOp::LiveThreads,
        BrokerRequest::Folders => DeviceOp::LiveFolders,
        BrokerRequest::MarkReadDevice { handle } => DeviceOp::LiveMarkRead { handle },
        BrokerRequest::SendLive { number, message } => DeviceOp::LiveSend { number, message },
        BrokerRequest::SyncContacts => DeviceOp::SyncContacts,
        BrokerRequest::ListContacts { path, limit, offset } => {
            DeviceOp::ListContacts { path, limit, offset }
        },
        BrokerRequest::GetContact { path, handle } => DeviceOp::GetContact { path, handle },
        BrokerRequest::LookupContact { path, number } => DeviceOp::LookupContact { path, number },
        BrokerRequest::PullAllContacts { path, limit, offset } => {
            DeviceOp::PullAllContacts { path, limit, offset }
        },
        BrokerRequest::Status | BrokerRequest::Watch | BrokerRequest::Shutdown => {
            return Err(BrokerResponse::Error("internal: routed to one-shot path".to_owned()));
        },
    };
    Ok(op)
}

/// Gates a one-shot request on readiness, then converts it: a terminal session answers
/// `Failed(reason)`, an elapsed deadline answers `Failed(NotReady)`, and an `Active` session
/// gets the request's device operation.
pub fn handle_one_shot<P>(ready: Ready, req: BrokerRequest) -> (r: Result<DeviceOp, BrokerResponse<P>>)
    ensures
        match ready {
            Ready::Failed(reason) => r == Err::<DeviceOp, BrokerResponse<P>>(
                BrokerResponse::Failed(reason),
            ),
            Ready::Timeout => r == Err::<DeviceOp, BrokerResponse<P>>(
                BrokerResponse::Failed(Reason::NotReady),
            ),
            Ready::Active => match op_for(req) {
                Some(op) => r == Ok::<DeviceOp, BrokerResponse<P>>(op),
                None => r matches Err(BrokerResponse::Error(m)) && m@
                    == "internal: routed to one-shot path"@,
            },
        },
{
    match ready {
        Ready::Active => {},
        Ready::Failed(reason) => {
            return Err(BrokerResponse::Failed(reason));
        },
        Ready::Timeout => {
            return Err(BrokerResponse::Failed(Reason::NotReady));
        },
    }
    req_to_op(req)
}

/// How a dispatched operation's reply came back.
#[derive(Debug, Clone, PartialEq, Eq)]
pub enum Delivery<P> {
    /// The actor's channel was closed: the broker is shutting down.
    NotSent,
    /// The actor dropped the reply channel.
    Dropped,
    /// The actor answered.
    Replied(BrokerResponse<P>),
}

/// The answer written back for a dispatched operation: the actor's reply, or an error saying
/// why there is none.
pub fn delivered_response<P>(d: Delivery<P>) -> (r: BrokerResponse<P>)
    ensures
        match d {
            Delivery::NotSent => r matches BrokerResponse::Error(m) && m@ == "broker shutting down"@,
            Delivery::Dropped => r matches BrokerResponse::Error(m) && m@ == "actor dropped reply"@,
            Delivery::Replied(resp) => r == resp,
        },
{
    match d {
        Delivery::NotSent => BrokerResponse::Error("broker shutting down".to_owned()),
        Delivery::Dropped => BrokerResponse::Error("actor dropped reply".to_owned()),
        Delivery::Replied(resp) => resp,
    }
}

/// What a `Watch` connection saw next.
#[derive(Debug, Clone, PartialEq, Eq)]
pub enum WatchRecv {
    /// The coordinator cancelled.
    Cancelled,
    /// An event arrived.
    Event(WatchEvent),
    /// The subscriber fell behind by this many events.
    Lagged(u64),
    /// The event channel closed.
    Closed,
}

/// Where a `Watch` connection is.
#[derive(Debug, Clone, Copy, PartialEq, Eq, Structural)]
pub enum WatchPhase {
    /// The pre-flight backfill was sent; waiting for it to finish.
    Preflight,
    /// The subscription was sent; waiting for the receiver.
    Subscribing,
    /// Waiting for the next event.
    Streaming,
    /// Writing an event to the client.
    Writing,
    /// A lagged subscriber's catch-up backfill was sent; waiting for it to finish.
    CatchingUp,
    /// The connection ends once the last action is done.
    Done,
}

/// What a `Watch` connection observed.
#[derive(Debug, Clone, PartialEq, Eq)]
pub enum WatchInput {
    /// A backfill finished (or could not be sent): either way the connection moves on.
    Backfilled,
    /// The subscription could not be sent: the actor is gone.
    SubscribeNotSent,
    /// The actor dropped the subscription's reply.
    SubscribeDropped,
    /// The subscription's receiver arrived.
    Subscribed,
    /// The event stream gave this.
    Received(WatchRecv),
    /// Writing to the client succeeded (`true`) or failed.
    Written(bool),
}

/// What a `Watch` connection does.
#[derive(Debug, Clone, PartialEq, Eq)]
pub enum WatchConnAction<P> {
    /// Send a backfill operation to the actor.
    SendBackfill,
    /// Send a subscription to the actor.
    SendSubscribe,
    /// Send the unsubscription to the actor.
    SendUnsubscribe,
    /// Write this answer to the client.
    Write(BrokerResponse<P>),
    /// Nothing; wait for the next input.
    Nothing,
}

/// A `Watch` connection starts with a pre-flight backfill, before it subscribes (it is not
/// readiness-gated: subscribing counts as demand that keeps the broker alive).
pub fn watch_begin<P>() -> (r: (WatchPhase, WatchConnAction<P>))
    ensures
        r == (WatchPhase::Preflight, WatchConnAction::<P>::SendBackfill),
{
    (WatchPhase::Preflight, WatchConnAction::SendBackfill)
}

/// One step of a `Watch` connection: after the pre-flight backfill it subscribes; if the
/// subscription cannot be sent it answers "broker shutting down" and ends, and if its reply is
/// dropped it just ends. While streaming, each event is written as a watch event; a lagged
/// subscriber gets a catch-up backfill instead of a disconnect; cancellation, a closed channel or
/// a failed write ends the stream with an unsubscription, the last operation the connection
/// sends. Inputs that do not belong to the phase change nothing.
pub fn watch_conn_step<P>(phase: WatchPhase, input: WatchInput) -> (r: (WatchPhase, WatchConnAction<P>))
    ensures
        match (phase, input) {
            (WatchPhase::Preflight, WatchInput::Backfilled) => r == (
                WatchPhase::Subscribing,
                WatchConnAction::<P>::SendSubscribe,
            ),
            (WatchPhase::Subscribing, WatchInput::SubscribeNotSent) => r.0 == WatchPhase::Done && (
            r.1 matches WatchConnAction::Write(BrokerResponse::Error(m)) && m@
                == "broker shutting down"@),
            (WatchPhase::Subscribing, WatchInput::SubscribeDropped) => r == (
                WatchPhase::Done,
                WatchConnAction::<P>::Nothing,
            ),
            (WatchPhase::Subscribing, WatchInput::Subscribed) => r == (
                WatchPhase::Streaming,
                WatchConnAction::<P>::Nothing,
            ),
            (WatchPhase::Streaming, WatchInput::Received(WatchRecv::Event(ev))) => r == (
                WatchPhase::Writing,
                WatchConnAction::<P>::Write(BrokerResponse::WatchEvent(ev)),
            ),
            (WatchPhase::Streaming, WatchInput::Received(WatchRecv::Lagged(_))) => r == (
                WatchPhase::CatchingUp,
                WatchConnAction::<P>::SendBackfill,
            ),
            (WatchPhase::Streaming, WatchInput::Received(WatchRecv::Cancelled))
            | (WatchPhase::Streaming, WatchInput::Received(WatchRecv::Closed))
            | (WatchPhase::Writing, WatchInput::Written(false)) => r == (
                WatchPhase::Done,
                WatchConnAction::<P>::SendUnsubscribe,
            ),
            (WatchPhase::Writing, WatchInput::Written(true)) | (
                WatchPhase::CatchingUp,
                WatchInput::Backfilled,
            ) => r == (WatchPhase::Streaming, WatchConnAction::<P>::Nothing),
            _ => r == (phase, WatchConnAction::<P>::Nothing),
        },
        r.1 is SendSubscribe ==> phase == WatchPhase::Preflight,
        r.1 is SendUnsubscribe ==> r.0 == WatchPhase::Done,
        phase == WatchPhase::Done ==> r == (WatchPhase::Done, WatchConnAction::<P>::Nothing),
{
    match (phase, input) {
        (WatchPhase::Preflight, WatchInput::Backfilled) => (
            WatchPhase::Subscribing,
            WatchConnAction::SendSubscribe,
        ),
        (WatchPhase::Subscribing, WatchInput::SubscribeNotSent) => (
            WatchPhase::Done,
            WatchConnAction::Write(BrokerResponse::Error("broker shutting down".to_owned())),
        ),
        (WatchPhase::Subscribing, WatchInput::SubscribeDropped) => (
            WatchPhase::Done,
            WatchConnAction::Nothing,
        ),
        (WatchPhase::Subscribing, WatchInput::Subscribed) => (
            WatchPhase::Streaming,
            WatchConnAction::Nothing,
        ),
        (WatchPhase::Streaming, WatchInput::Received(WatchRecv::Event(ev))) => (
            WatchPhase::Writing,
            WatchConnAction::Write(BrokerResponse::WatchEvent(ev)),
        ),
        (WatchPhase::Streaming, WatchInput::Received(WatchRecv::Lagged(_))) => (
            WatchPhase::CatchingUp,
            WatchConnAction::SendBackfill,
        ),
        (WatchPhase::Streaming, WatchInput::Received(WatchRecv::Cancelled))
        | (WatchPhase::Streaming, WatchInput::Received(WatchRecv::Closed))
        | (WatchPhase::Writing, WatchInput::Written(false)) => (
            WatchPhase::Done,
            WatchConnAction::SendUnsubscribe,
        ),
        (WatchPhase::Writing, WatchInput::Written(true)) | (
            WatchPhase::CatchingUp,
            WatchInput::Backfilled,
        ) => (WatchPhase::Streaming, WatchConnAction::Nothing),
        _ => (phase, WatchConnAction::Nothing),
    }
}

/// Every one-shot request becomes an operation that carries an answer (never a watch
/// operation), so a request still queued when the actor exits is answered with the failure
/// reason rather than dropped; and no one-shot request is routed as a subscription change.
pub proof fn lemma_one_shot_ops_are_answered(req: BrokerRequest)
    ensures
        op_for(req) matches Some(op) ==> is_operational(op) && op_route(op) != OpRoute::Subscribe
            && op_route(op) != OpRoute::Unsubscribe,
        op_for(req) is None <==> route_of(req) != Route::OneShot,
{
}


/// A one-shot request becomes its device operation with every field carried unchanged into the
/// field of the same meaning: a send's number stays the number and its text the text, a
/// delete's handle becomes the message handle and its folder the folder, and so on.
pub proof fn lemma_one_shot_keeps_fields(req: BrokerRequest)
    ensures
        req matches BrokerRequest::Send { number, message } ==> op_for(req) matches Some(
            DeviceOp::Send { number: n, message: m },
        ) && n == number && m == message,
        req matches BrokerRequest::SendLive { number, message } ==> op_for(req) matches Some(
            DeviceOp::LiveSend { number: n, message: m },
        ) && n == number && m == message,
        req matches BrokerRequest::Sync { folder } ==> op_for(req) matches Some(
            DeviceOp::Sync { folder: f },
        ) && f == folder,
        req matches BrokerRequest::Delete { handle, folder } ==> op_for(req) matches Some(
            DeviceOp::Delete { msg_handle: h, folder: f },
        ) && h == handle && f == folder,
        req matches BrokerRequest::ListMessages { folder, unread, from, since, limit, offset }
            ==> op_for(req) matches Some(
            DeviceOp::LiveList { folder: f, unread: u, from: fr, since: s, limit: l, offset: o },
        ) && f == folder && u == unread && fr == from && s == since && l == limit && o == offset,
        req matches BrokerRequest::GetMessage { handle } ==> op_for(req) matches Some(
            DeviceOp::LiveGet { handle: h },
        ) && h == handle,
        req matches BrokerRequest::MarkReadDevice { handle } ==> op_for(req) matches Some(
            DeviceOp::LiveMarkRead { handle: h },
        ) && h == handle,
        req matches BrokerRequest::ListContacts { path, limit, offset } ==> op_for(req) matches Some(
            DeviceOp::ListContacts { path: p, limit: l, offset: o },
        ) && p == path && l == limit && o == offset,
        req matches BrokerRequest::GetContact { path, handle } ==> op_for(req) matches Some(
            DeviceOp::GetContact { path: p, handle: h },
        ) && p == path && h == handle,
        req matches BrokerRequest::LookupContact { path, number } ==> op_for(req) matches Some(
            DeviceOp::LookupContact { path: p, number: n },
        ) && p == path && n == number,
        req matches BrokerRequest::PullAllContacts { path, limit, offset } ==> op_for(req)
            matches Some(DeviceOp::PullAllContacts { path: p, limit: l, offset: o }) && p == path
            && l == limit && o == offset,
        req is Backfill ==> op_for(req) == Some(DeviceOp::Backfill),
        req is Threads ==> op_for(req) == Some(DeviceOp::LiveThreads),
        req is Folders ==> op_for(req) == Some(DeviceOp::LiveFolders),
        req is SyncContacts ==> op_for(req) == Some(DeviceOp::SyncContacts),
        (req is Status || req is Watch || req is Shutdown) <==> op_for(req) is None,
{
}


/// `Status`, `Watch` and `Shutdown` each take their own path, and exactly the requests that
/// have a device operation go through the one-shot path.
pub proof fn lemma_routes(req: BrokerRequest)
    ensures
        (route_of(req) == Route::Status) <==> (req is Status),
        (route_of(req) == Route::Watch) <==> (req is Watch),
        (route_of(req) == Route::Shutdown) <==> (req is Shutdown),
        (route_of(req) == Route::OneShot) <==> (op_for(req) is Some),
{
}

} // verus!
