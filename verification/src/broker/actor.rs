//! Device actor decisions: whether MNS should run, the subscriber count, how an operation's
//! outcome is answered and whether the session survived it, and what ends a session.
//!
//! PBAP operations are their own fault domain: a PBAP failure is answered and drops the PBAP
//! session, but never marks the MAP session lost.
use std::time::Duration;

use vstd::prelude::*;

use super::wire::{DeviceOp, Reason};

verus! {

/// True when MNS should be running: a live `Watch` subscriber, or persistent (daemon) mode,
/// signalled by `idle == None`.
pub open spec fn wants_mns_spec(watch_count: u32, persistent: bool) -> bool {
    watch_count > 0 || persistent
}

/// True when MNS should be running: a live `Watch` subscriber, or persistent (daemon) mode,
/// signalled by `idle == None` (the mode switch introduced for the idle timeout).
pub fn wants_mns(watch_count: u32, idle: Option<Duration>) -> (b: bool)
    ensures
        b == wants_mns_spec(watch_count, idle is None),
{
    watch_count > 0 || idle.is_none()
}

/// The actor's watch-side state: subscriber count, mode, and whether the MNS listener runs.
#[derive(Debug, Clone, Copy, PartialEq, Eq, Structural)]
pub struct ActorState {
    /// Live `Watch` subscribers.
    pub watch_count: u32,
    /// Persistent (daemon) mode: no idle timeout.
    pub persistent: bool,
    /// The MNS listener is running.
    pub mns_running: bool,
}

/// The state after a subscriber registers: one more subscriber (saturating).
pub open spec fn subscribed(s: ActorState) -> ActorState {
    ActorState {
        watch_count: if s.watch_count == u32::MAX {
            u32::MAX
        } else {
            (s.watch_count + 1) as u32
        },
        ..s
    }
}

/// The state after a subscriber leaves: one fewer subscriber (never below zero), and the MNS
/// listener stopped once nothing wants it.
pub open spec fn unsubscribed(s: ActorState) -> ActorState {
    let c: u32 = if s.watch_count == 0 {
        0
    } else {
        (s.watch_count - 1) as u32
    };
    ActorState { watch_count: c, mns_running: s.mns_running && wants_mns_spec(c, s.persistent), ..s }
}

impl ActorState {
    /// A fresh actor: no subscribers, MNS not running; persistent when there is no idle timeout.
    pub fn new(idle: Option<Duration>) -> (s: ActorState)
        ensures
            s == (ActorState { watch_count: 0, persistent: idle is None, mns_running: false }),
    {
        ActorState { watch_count: 0, persistent: idle.is_none(), mns_running: false }
    }

    /// Whether MNS should run now.
    pub fn wants_mns(&self) -> (b: bool)
        ensures
            b == wants_mns_spec(self.watch_count, self.persistent),
    {
        self.watch_count > 0 || self.persistent
    }

    /// Registers a `Watch` subscriber. Returns whether the MNS listener must be started (it is
    /// started only when not already running, e.g. persistent mode already started it); the
    /// count saturates rather than overflowing.
    pub fn subscribe(&mut self) -> (start: bool)
        ensures
            start == !old(self).mns_running,
            *final(self) == subscribed(*old(self)),
    {
        let start = !self.mns_running;
        self.watch_count = self.watch_count.saturating_add(1);
        start
    }

    /// Records the outcome of starting the MNS listener; a failure leaves watch unavailable but
    /// does not affect the MAP session.
    pub fn mns_started(&mut self, ok: bool)
        ensures
            final(self).mns_running == (old(self).mns_running || ok),
            final(self).watch_count == old(self).watch_count,
            final(self).persistent == old(self).persistent,
    {
        if ok {
            self.mns_running = true;
        }
    }

    /// Drops one `Watch` subscriber (never below zero). Returns whether the MNS listener must be
    /// stopped: once nothing wants it (no subscriber left and not persistent).
    pub fn unsubscribe(&mut self) -> (stop: bool)
        ensures
            *final(self) == unsubscribed(*old(self)),
            stop == !wants_mns_spec(final(self).watch_count, final(self).persistent),
    {
        self.watch_count = self.watch_count.saturating_sub(1);
        let stop = !self.wants_mns();
        if stop {
            self.mns_running = false;
        }
        stop
    }

    /// Handles a watch operation (`Subscribe` or `Unsubscribe`): adjusts the subscriber count,
    /// says what to do with the MNS listener, and keeps serving: a watch operation never ends
    /// the session. Any other operation is not a watch operation: `None`, state unchanged.
    pub fn handle_watch_op(&mut self, op: &DeviceOp) -> (r: Option<(MnsAction, OpOutcome)>)
        ensures
            match *op {
                DeviceOp::Subscribe => *final(self) == subscribed(*old(self)) && r == Some(
                    (
                        if old(self).mns_running {
                            MnsAction::Keep
                        } else {
                            MnsAction::Start
                        },
                        OpOutcome::Continue,
                    ),
                ),
                DeviceOp::Unsubscribe => *final(self) == unsubscribed(*old(self)) && r == Some(
                    (
                        if wants_mns_spec(final(self).watch_count, final(self).persistent) {
                            MnsAction::Keep
                        } else {
                            MnsAction::Stop
                        },
                        OpOutcome::Continue,
                    ),
                ),
                _ => *final(self) == *old(self) && r is None,
            },
    {
        match op {
            DeviceOp::Subscribe => {
                let start = self.subscribe();
                let action = if start {
                    MnsAction::Start
                } else {
                    MnsAction::Keep
                };
                Some((action, OpOutcome::Continue))
            },
            DeviceOp::Unsubscribe => {
                let stop = self.unsubscribe();
                let action = if stop {
                    MnsAction::Stop
                } else {
                    MnsAction::Keep
                };
                Some((action, OpOutcome::Continue))
            },
            _ => None,
        }
    }

    /// The MNS listener ended on its own (its event channel closed).
    pub fn mns_closed(&mut self)
        ensures
            *final(self) == (ActorState { mns_running: false, ..*old(self) }),
    {
        self.mns_running = false;
    }

    /// At the start of a session: whether to start the MNS listener (something wants it and it
    /// is not running).
    pub fn session_start(&self) -> (start: bool)
        ensures
            start == (wants_mns_spec(self.watch_count, self.persistent) && !self.mns_running),
    {
        self.wants_mns() && !self.mns_running
    }

    /// At the end of a session: the MNS listener is stopped, then an exit ends the lifecycle, a
    /// drop that nothing needs the link for fails the queued operations with
    /// `DeviceUnreachable` and ends it, and any other drop reconnects.
    pub fn session_end(&mut self, outcome: ServeOutcome) -> (end: SessionEnd)
        ensures
            final(self).mns_running == false,
            final(self).watch_count == old(self).watch_count,
            final(self).persistent == old(self).persistent,
            end == session_end_spec(outcome, wants_mns_spec(old(self).watch_count, old(self).persistent)),
    {
        self.mns_running = false;
        match outcome {
            ServeOutcome::Exit => SessionEnd::Disconnect,
            ServeOutcome::Dropped => {
                if !self.wants_mns() {
                    SessionEnd::FailPending(Reason::DeviceUnreachable)
                } else {
                    SessionEnd::Reconnect
                }
            },
        }
    }
}

/// What a watch operation asks of the MNS listener.
#[derive(Debug, Clone, Copy, PartialEq, Eq, Structural)]
pub enum MnsAction {
    /// Start it (it is not running).
    Start,
    /// Stop it (nothing wants it any more).
    Stop,
    /// Leave it as it is.
    Keep,
}

/// Why serving the current session stopped.
#[derive(Debug, Clone, Copy, PartialEq, Eq, Structural)]
pub enum ServeOutcome {
    /// Idle timeout fired or all handles were dropped: the broker should exit.
    Exit,
    /// The MAP session died: reconnect if anything needs the link, else exit.
    Dropped,
}

/// What follows the end of a session.
#[derive(Debug, Clone, PartialEq, Eq)]
pub enum SessionEnd {
    /// Disconnect the MAP session and end the lifecycle.
    Disconnect,
    /// Fail every queued operation with this reason and end the lifecycle.
    FailPending(Reason),
    /// Publish `Reconnecting` and connect again.
    Reconnect,
}

/// The end of a session: exit disconnects; a drop reconnects exactly when MNS is wanted.
pub open spec fn session_end_spec(outcome: ServeOutcome, wanted: bool) -> SessionEnd {
    match outcome {
        ServeOutcome::Exit => SessionEnd::Disconnect,
        ServeOutcome::Dropped => if wanted {
            SessionEnd::Reconnect
        } else {
            SessionEnd::FailPending(Reason::DeviceUnreachable)
        },
    }
}

/// Whether to keep serving after an operation.
#[derive(Debug, Clone, Copy, PartialEq, Eq, Structural)]
pub enum OpOutcome {
    /// Keep serving.
    Continue,
    /// The session died mid-operation; leave the serve loop.
    SessionLost,
}

/// How a MAP operation failed: a fatal transport error (the session is dead) or any other error,
/// with its text.
#[derive(Debug, Clone, PartialEq, Eq)]
pub enum OpError {
    /// The session is dead.
    Fatal(String),
    /// The operation failed; the session lives on.
    Failed(String),
}

/// Answers a MAP operation and reports whether the session survived: success passes the
/// operation's answer on; a fatal error answers `DeviceUnreachable` and marks the session lost
/// (the operation is never replayed); any other error answers `OperationFailed` with its text and
/// keeps serving.
pub fn finish_map<R>(result: Result<R, OpError>) -> (r: (Result<R, Reason>, OpOutcome))
    ensures
        match result {
            Ok(resp) => r == (Ok::<R, Reason>(resp), OpOutcome::Continue),
            Err(OpError::Fatal(_)) => r == (
                Err::<R, Reason>(Reason::DeviceUnreachable),
                OpOutcome::SessionLost,
            ),
            Err(OpError::Failed(msg)) => r == (
                Err::<R, Reason>(Reason::OperationFailed(msg)),
                OpOutcome::Continue,
            ),
        },
{
    match result {
        Ok(resp) => (Ok(resp), OpOutcome::Continue),
        Err(OpError::Fatal(_)) => (Err(Reason::DeviceUnreachable), OpOutcome::SessionLost),
        Err(OpError::Failed(msg)) => (Err(Reason::OperationFailed(msg)), OpOutcome::Continue),
    }
}

/// What the serve loop saw next (events take priority over operations, operations over the
/// idle timeout).
#[derive(Debug, Clone, Copy, PartialEq, Eq, Structural)]
pub enum ServeEvent {
    /// An MNS event was handled with this outcome.
    MnsHandled(OpOutcome),
    /// The MNS event channel closed.
    MnsClosed,
    /// An operation was handled with this outcome.
    OpHandled(OpOutcome),
    /// Every operation sender is gone.
    OpsClosed,
    /// The idle timeout fired (never in persistent mode).
    IdleTimeout,
}

/// What the serve loop does next.
#[derive(Debug, Clone, Copy, PartialEq, Eq, Structural)]
pub enum ServeStep {
    /// Keep serving.
    Continue,
    /// Forget the MNS listener and keep serving.
    ForgetMns,
    /// Stop serving for this reason.
    Stop(ServeOutcome),
}

/// One step of the serve loop: a lost session ends it as dropped; an idle timeout or the last
/// operation sender going away ends it as an exit; a closed MNS channel only forgets the
/// listener.
pub fn serve_step(ev: ServeEvent) -> (s: ServeStep)
    ensures
        s == match ev {
            ServeEvent::MnsHandled(OpOutcome::SessionLost) | ServeEvent::OpHandled(
                OpOutcome::SessionLost,
            ) => ServeStep::Stop(ServeOutcome::Dropped),
            ServeEvent::MnsHandled(OpOutcome::Continue) | ServeEvent::OpHandled(
                OpOutcome::Continue,
            ) => ServeStep::Continue,
            ServeEvent::MnsClosed => ServeStep::ForgetMns,
            ServeEvent::OpsClosed | ServeEvent::IdleTimeout => ServeStep::Stop(ServeOutcome::Exit),
        },
{
    match ev {
        ServeEvent::MnsHandled(OpOutcome::SessionLost) | ServeEvent::OpHandled(
            OpOutcome::SessionLost,
        ) => ServeStep::Stop(ServeOutcome::Dropped),
        ServeEvent::MnsHandled(OpOutcome::Continue) | ServeEvent::OpHandled(
            OpOutcome::Continue,
        ) => ServeStep::Continue,
        ServeEvent::MnsClosed => ServeStep::ForgetMns,
        ServeEvent::OpsClosed | ServeEvent::IdleTimeout => ServeStep::Stop(ServeOutcome::Exit),
    }
}

/// Handling an MNS event: the event is fanned out to subscribers whatever the store write gave;
/// only a fatal error marks the session lost.
pub fn on_mns_event_outcome(handled: Result<(), OpError>) -> (o: OpOutcome)
    ensures
        o == if handled matches Err(OpError::Fatal(_)) {
            OpOutcome::SessionLost
        } else {
            OpOutcome::Continue
        },
{
    match handled {
        Err(OpError::Fatal(_)) => OpOutcome::SessionLost,
        _ => OpOutcome::Continue,
    }
}

/// Where the actor sends an operation.
#[derive(Debug, Clone, Copy, PartialEq, Eq, Structural)]
pub enum OpRoute {
    /// Register a subscriber.
    Subscribe,
    /// Drop a subscriber.
    Unsubscribe,
    /// A store-backed MAP operation (sync, send, delete).
    MapStore,
    /// A live MAP operation or backfill.
    Live,
    /// A PBAP operation, against the held PBAP session.
    Pbap,
}

/// The route of an operation.
pub open spec fn op_route(op: DeviceOp) -> OpRoute {
    match op {
        DeviceOp::Subscribe => OpRoute::Subscribe,
        DeviceOp::Unsubscribe => OpRoute::Unsubscribe,
        DeviceOp::Sync { .. } | DeviceOp::Send { .. } | DeviceOp::Delete { .. } => OpRoute::MapStore,
        DeviceOp::Backfill | DeviceOp::LiveList { .. } | DeviceOp::LiveGet { .. }
        | DeviceOp::LiveThreads | DeviceOp::LiveFolders | DeviceOp::LiveMarkRead { .. }
        | DeviceOp::LiveSend { .. } => OpRoute::Live,
        DeviceOp::SyncContacts | DeviceOp::ListContacts { .. } | DeviceOp::GetContact { .. }
        | DeviceOp::LookupContact { .. } | DeviceOp::PullAllContacts { .. } => OpRoute::Pbap,
    }
}

/// Dispatches an operation: watch operations adjust the subscriber count, MAP operations run
/// against the MAP session, PBAP operations against the PBAP session.
pub fn route_op(op: &DeviceOp) -> (r: OpRoute)
    ensures
        r == op_route(*op),
{
    match op {
        DeviceOp::Subscribe => OpRoute::Subscribe,
        DeviceOp::Unsubscribe => OpRoute::Unsubscribe,
        DeviceOp::Sync { .. } | DeviceOp::Send { .. } | DeviceOp::Delete { .. } => OpRoute::MapStore,
        DeviceOp::Backfill | DeviceOp::LiveList { .. } | DeviceOp::LiveGet { .. }
        | DeviceOp::LiveThreads | DeviceOp::LiveFolders | DeviceOp::LiveMarkRead { .. }
        | DeviceOp::LiveSend { .. } => OpRoute::Live,
        DeviceOp::SyncContacts | DeviceOp::ListContacts { .. } | DeviceOp::GetContact { .. }
        | DeviceOp::LookupContact { .. } | DeviceOp::PullAllContacts { .. } => OpRoute::Pbap,
    }
}

/// The PBAP operations.
#[derive(Debug, Clone, PartialEq, Eq)]
pub enum PbapOp {
    SyncContacts,
    ListContacts { path: Option<String>, limit: Option<u16>, offset: u16 },
    GetContact { path: Option<String>, handle: String },
    LookupContact { path: Option<String>, number: String },
    PullAllContacts { path: Option<String>, limit: Option<u16>, offset: u16 },
}

/// The PBAP operation an operation is, if it is one (same fields).
pub open spec fn as_pbap(op: DeviceOp) -> Option<PbapOp> {
    match op {
        DeviceOp::SyncContacts => Some(PbapOp::SyncContacts),
        DeviceOp::ListContacts { path, limit, offset } => Some(
            PbapOp::ListContacts { path, limit, offset },
        ),
        DeviceOp::GetContact { path, handle } => Some(PbapOp::GetContact { path, handle }),
        DeviceOp::LookupContact { path, number } => Some(PbapOp::LookupContact { path, number }),
        DeviceOp::PullAllContacts { path, limit, offset } => Some(
            PbapOp::PullAllContacts { path, limit, offset },
        ),
        _ => None,
    }
}

impl PbapOp {
    /// Narrows an operation to a PBAP one, handing any other back unchanged.
    pub fn try_from(op: DeviceOp) -> (r: Result<PbapOp, DeviceOp>)
        ensures
            match as_pbap(op) {
                Some(p) => r == Ok::<PbapOp, DeviceOp>(p),
                None => r == Err::<PbapOp, DeviceOp>(op),
            },
    {
        let p = match op {
            DeviceOp::SyncContacts => PbapOp::SyncContacts,
            DeviceOp::ListContacts { path, limit, offset } => PbapOp::ListContacts { path, limit, offset },
            DeviceOp::GetContact { path, handle } => PbapOp::GetContact { path, handle },
            DeviceOp::LookupContact { path, number } => PbapOp::LookupContact { path, number },
            DeviceOp::PullAllContacts { path, limit, offset } => PbapOp::PullAllContacts {
                path,
                limit,
                offset,
            },
            other => {
                return Err(other);
            },
        };
        Ok(p)
    }
}

/// The live MAP operations and backfill.
#[derive(Debug, Clone, PartialEq, Eq)]
pub enum LiveOp {
    MarkRead { handle: String },
    Send { number: String, message: String },
    Backfill,
    List {
        folder: Option<String>,
        unread: bool,
        from: Option<String>,
        since: Option<String>,
        limit: Option<u16>,
        offset: u16,
    },
    Get { handle: String },
    Threads,
    Folders,
}

/// The live operation an operation is, if it is one (same fields).
pub open spec fn as_live(op: DeviceOp) -> Option<LiveOp> {
    match op {
        DeviceOp::LiveMarkRead { handle } => Some(LiveOp::MarkRead { handle }),
        DeviceOp::LiveSend { number, message } => Some(LiveOp::Send { number, message }),
        DeviceOp::Backfill => Some(LiveOp::Backfill),
        DeviceOp::LiveList { folder, unread, from, since, limit, offset } => Some(
            LiveOp::List { folder, unread, from, since, limit, offset },
        ),
        DeviceOp::LiveGet { handle } => Some(LiveOp::Get { handle }),
        DeviceOp::LiveThreads => Some(LiveOp::Threads),
        DeviceOp::LiveFolders => Some(LiveOp::Folders),
        _ => None,
    }
}

impl LiveOp {
    /// Narrows an operation to a live one, handing any other back unchanged.
    pub fn try_from(op: DeviceOp) -> (r: Result<LiveOp, DeviceOp>)
        ensures
            match as_live(op) {
                Some(l) => r == Ok::<LiveOp, DeviceOp>(l),
                None => r == Err::<LiveOp, DeviceOp>(op),
            },
    {
        let l = match op {
            DeviceOp::LiveMarkRead { handle } => LiveOp::MarkRead { handle },
            DeviceOp::LiveSend { number, message } => LiveOp::Send { number, message },
            DeviceOp::Backfill => LiveOp::Backfill,
            DeviceOp::LiveList { folder, unread, from, since, limit, offset } => LiveOp::List {
                folder,
                unread,
                from,
                since,
                limit,
                offset,
            },
            DeviceOp::LiveGet { handle } => LiveOp::Get { handle },
            DeviceOp::LiveThreads => LiveOp::Threads,
            DeviceOp::LiveFolders => LiveOp::Folders,
            other => {
                return Err(other);
            },
        };
        Ok(l)
    }
}

/// How running a PBAP operation went.
#[derive(Debug, PartialEq, Eq)]
pub enum PbapRun<R> {
    /// Establishing the PBAP session failed with this reason.
    ConnectFailed(Reason),
    /// The session was reported connected but is missing.
    Missing,
    /// The operation ran: its answer, or its error text.
    Ran(Result<R, String>),
}

/// How the actor answers a PBAP operation.
#[derive(Debug, PartialEq, Eq)]
pub struct PbapAnswer<R> {
    /// The operation's answer, or the reason it failed.
    pub answer: Result<R, Reason>,
    /// Whether to keep the held PBAP session for the next PBAP operation.
    pub keep_session: bool,
    /// Whether the actor keeps serving.
    pub outcome: OpOutcome,
}

/// Answers a PBAP operation. Failures of any kind become a failure answer; only a failed
/// operation drops the PBAP session, so the next PBAP operation reconnects. The actor always
/// keeps serving: PBAP failures are unrelated to the MAP session's health, so they never mark it
/// lost.
pub fn run_pbap_op<R>(run: PbapRun<R>) -> (r: PbapAnswer<R>)
    ensures
        r.outcome == OpOutcome::Continue,
        match run {
            PbapRun::ConnectFailed(reason) => r.answer == Err::<R, Reason>(reason) && r.keep_session,
            PbapRun::Missing => r.keep_session && (r.answer matches Err(Reason::OperationFailed(m))
                && m@ == "pbap session missing after connect"@),
            PbapRun::Ran(Ok(resp)) => r.answer == Ok::<R, Reason>(resp) && r.keep_session,
            PbapRun::Ran(Err(msg)) => r.answer == Err::<R, Reason>(Reason::OperationFailed(msg))
                && !r.keep_session,
        },
{
    let (answer, keep_session) = match run {
        PbapRun::ConnectFailed(reason) => (Err(reason), true),
        PbapRun::Missing => (
            Err(Reason::OperationFailed("pbap session missing after connect".to_owned())),
            true,
        ),
        PbapRun::Ran(Ok(resp)) => (Ok(resp), true),
        PbapRun::Ran(Err(msg)) => (Err(Reason::OperationFailed(msg)), false),
    };
    PbapAnswer { answer, keep_session, outcome: OpOutcome::Continue }
}

/// An operation that carries a reply channel (every operation but the watch ones).
pub open spec fn is_operational(op: DeviceOp) -> bool {
    !(op is Subscribe || op is Unsubscribe)
}

/// The positions, in order, of the operations in `ops[..n]` that carry a reply.
pub open spec fn replied_positions(ops: Seq<DeviceOp>, n: int) -> Seq<usize>
    decreases n,
{
    if n <= 0 {
        seq![]
    } else if is_operational(ops[n - 1]) {
        replied_positions(ops, n - 1).push((n - 1) as usize)
    } else {
        replied_positions(ops, n - 1)
    }
}

/// On exit, which queued operations get a `Failed` answer: every operational one, in queue
/// order; watch operations carry no answer and are discarded.
pub fn fail_pending(queued: &Vec<DeviceOp>) -> (r: Vec<usize>)
    ensures
        r@ == replied_positions(queued@, queued@.len() as int),
{
    let mut r: Vec<usize> = Vec::new();
    let mut i: usize = 0;
    while i < queued.len()
        invariant
            i <= queued.len(),
            r@ == replied_positions(queued@, i as int),
        decreases queued.len() - i,
    {
        match &queued[i] {
            DeviceOp::Subscribe | DeviceOp::Unsubscribe => {},
            _ => {
                r.push(i);
            },
        }
        i = i + 1;
    }
    r
}

/// Why the actor's lifecycle ended.
#[derive(Debug, Clone, PartialEq, Eq)]
pub enum TerminalReason {
    /// Idle timeout, an external shutdown, or a demand-gated exit with no subscribers.
    Requested,
    /// The connect phase gave up for good before reaching `Active`.
    PermanentFailure(Reason),
}

/// A subscriber that registers and then leaves restores the subscriber count (short of
/// saturation), and leaves the listener running if it was running and something still wants it.
pub proof fn lemma_subscribe_then_unsubscribe(s: ActorState)
    requires
        s.watch_count < u32::MAX,
    ensures
        unsubscribed(subscribed(s)).watch_count == s.watch_count,
        unsubscribed(subscribed(s)).persistent == s.persistent,
        unsubscribed(subscribed(s)).mns_running == (s.mns_running && wants_mns_spec(
            s.watch_count,
            s.persistent,
        )),
{
}

/// Persistent (daemon) mode always wants MNS: no number of subscribers leaving stops the
/// listener, and a dropped session always reconnects.
pub proof fn lemma_persistent_mode_keeps_mns(s: ActorState)
    requires
        s.persistent,
    ensures
        unsubscribed(s).mns_running == s.mns_running,
        forall|c: u32| wants_mns_spec(c, true),
        session_end_spec(ServeOutcome::Dropped, wants_mns_spec(s.watch_count, s.persistent))
            == SessionEnd::Reconnect,
{
}

/// In ephemeral mode MNS is wanted exactly while a subscriber is attached, so the last
/// subscriber leaving stops the listener and a drop with none attached ends the broker.
pub proof fn lemma_ephemeral_mns_follows_subscribers(s: ActorState)
    requires
        !s.persistent,
    ensures
        wants_mns_spec(s.watch_count, s.persistent) == (s.watch_count > 0),
        s.watch_count <= 1 ==> !unsubscribed(s).mns_running,
        s.watch_count == 0 ==> session_end_spec(
            ServeOutcome::Dropped,
            wants_mns_spec(s.watch_count, s.persistent),
        ) == SessionEnd::FailPending(Reason::DeviceUnreachable),
{
}


/// An operation goes to the PBAP session exactly when it is a PBAP operation, and to the live
/// MAP path exactly when it is a live one; narrowing keeps every field in the field of the same
/// meaning (a live send's number stays the number and its text the text).
pub proof fn lemma_narrowing_keeps_fields(op: DeviceOp)
    ensures
        (op_route(op) == OpRoute::Pbap) <==> (as_pbap(op) is Some),
        (op_route(op) == OpRoute::Live) <==> (as_live(op) is Some),
        (op_route(op) == OpRoute::Subscribe) <==> (op is Subscribe),
        (op_route(op) == OpRoute::Unsubscribe) <==> (op is Unsubscribe),
        (op_route(op) == OpRoute::MapStore) <==> (op is Sync || op is Send || op is Delete),
        op is SyncContacts ==> as_pbap(op) == Some(PbapOp::SyncContacts),
        op matches DeviceOp::ListContacts { path, limit, offset } ==> as_pbap(op) matches Some(
            PbapOp::ListContacts { path: p, limit: l, offset: o },
        ) && p == path && l == limit && o == offset,
        op matches DeviceOp::GetContact { path, handle } ==> as_pbap(op) matches Some(
            PbapOp::GetContact { path: p, handle: h },
        ) && p == path && h == handle,
        op matches DeviceOp::LookupContact { path, number } ==> as_pbap(op) matches Some(
            PbapOp::LookupContact { path: p, number: n },
        ) && p == path && n == number,
        op matches DeviceOp::PullAllContacts { path, limit, offset } ==> as_pbap(op) matches Some(
            PbapOp::PullAllContacts { path: p, limit: l, offset: o },
        ) && p == path && l == limit && o == offset,
        op matches DeviceOp::LiveMarkRead { handle } ==> as_live(op) matches Some(
            LiveOp::MarkRead { handle: h },
        ) && h == handle,
        op matches DeviceOp::LiveSend { number, message } ==> as_live(op) matches Some(
            LiveOp::Send { number: n, message: m },
        ) && n == number && m == message,
        op is Backfill ==> as_live(op) == Some(LiveOp::Backfill),
        op matches DeviceOp::LiveList { folder, unread, from, since, limit, offset } ==> as_live(op)
            matches Some(LiveOp::List { folder: f, unread: u, from: fr, since: s, limit: l, offset: o })
            && f == folder && u == unread && fr == from && s == since && l == limit && o == offset,
        op matches DeviceOp::LiveGet { handle } ==> as_live(op) matches Some(LiveOp::Get { handle: h })
            && h == handle,
        op is LiveThreads ==> as_live(op) == Some(LiveOp::Threads),
        op is LiveFolders ==> as_live(op) == Some(LiveOp::Folders),
{
}

} // verus!
