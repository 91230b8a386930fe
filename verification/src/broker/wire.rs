//! The broker's request/response vocabulary as the decisions below read and build it: failure
//! reasons, session states, MNS event kinds, client requests and device operations.
use vstd::prelude::*;

verus! {

/// Why an operation or the session failed, as reported to the client.
#[derive(Debug, Clone, PartialEq, Eq)]
pub enum Reason {
    /// The device could not be reached (transient link failure, or the session died).
    DeviceUnreachable,
    /// The device refused the connection (auth/pairing/wrong channel).
    ConnectionRefused,
    /// The session did not become ready within the readiness deadline.
    NotReady,
    /// The operation itself failed; the text says how.
    OperationFailed(String),
    /// The broker failed internally.
    Internal(String),
}

/// The session state reported by a `Status` request.
#[derive(Debug, Clone, Copy, PartialEq, Eq, Structural)]
pub enum SessionState {
    /// Establishing the session.
    Connecting,
    /// Session live.
    Active,
    /// Re-establishing after a drop.
    Reconnecting,
    /// Gave up.
    Failed,
}

/// The lifecycle state of the MAP session inside the broker; the terminal state keeps the reason.
#[derive(Debug, Clone, PartialEq, Eq)]
pub enum ConnState {
    /// Establishing the session (first attempt or a reconnect attempt).
    Connecting,
    /// Session live; operations may run.
    Active,
    /// A live session dropped; backoff is running before the next attempt.
    Reconnecting,
    /// Terminal: budget exhausted or a permanent error. The broker is exiting.
    Failed(Reason),
}

/// The wire state of a connection state: the same variant, without the reason.
pub open spec fn wire_state(s: ConnState) -> SessionState {
    match s {
        ConnState::Connecting => SessionState::Connecting,
        ConnState::Active => SessionState::Active,
        ConnState::Reconnecting => SessionState::Reconnecting,
        ConnState::Failed(_) => SessionState::Failed,
    }
}

impl ConnState {
    /// Projects the internal state onto the wire state (drops the [`Reason`] payload).
    pub fn to_wire(&self) -> (w: SessionState)
        ensures
            w == wire_state(*self),
    {
        match self {
            ConnState::Connecting => SessionState::Connecting,
            ConnState::Active => SessionState::Active,
            ConnState::Reconnecting => SessionState::Reconnecting,
            ConnState::Failed(_) => SessionState::Failed,
        }
    }
}

/// A `Status` answer reports the connection's own state: `Active` exactly when the session is
/// live, `Connecting` exactly while it is being established, `Reconnecting` exactly during a
/// backoff, and `Failed` exactly once it is terminal, whatever the reason.
pub proof fn lemma_wire_state_same_variant(s: ConnState)
    ensures
        (wire_state(s) == SessionState::Active) <==> (s is Active),
        (wire_state(s) == SessionState::Connecting) <==> (s is Connecting),
        (wire_state(s) == SessionState::Reconnecting) <==> (s is Reconnecting),
        (wire_state(s) == SessionState::Failed) <==> (s is Failed),
{
}

/// Kinds of MAP event report (as the MNS session decodes them).
#[derive(Debug, Clone, Copy, PartialEq, Eq, Structural)]
pub enum MnsEventType {
    NewMessage,
    DeliverySuccess,
    SendingSuccess,
    DeliveryFailure,
    SendingFailure,
    MessageDeleted,
    MessageShift,
    MemoryFull,
    MemoryAvailable,
    ReadStatusChanged,
}

/// Kinds of event streamed to `Watch` subscribers.
#[derive(Debug, Clone, Copy, PartialEq, Eq, Structural)]
pub enum EventType {
    NewMessage,
    DeliverySuccess,
    SendingSuccess,
    DeliveryFailure,
    SendingFailure,
    MessageDeleted,
    MessageShift,
    MemoryFull,
    MemoryAvailable,
    ReadStatusChanged,
}

/// The wire kind of an MNS event kind: the variant of the same name.
pub open spec fn wire_event_type(e: MnsEventType) -> EventType {
    match e {
        MnsEventType::NewMessage => EventType::NewMessage,
        MnsEventType::DeliverySuccess => EventType::DeliverySuccess,
        MnsEventType::SendingSuccess => EventType::SendingSuccess,
        MnsEventType::DeliveryFailure => EventType::DeliveryFailure,
        MnsEventType::SendingFailure => EventType::SendingFailure,
        MnsEventType::MessageDeleted => EventType::MessageDeleted,
        MnsEventType::MessageShift => EventType::MessageShift,
        MnsEventType::MemoryFull => EventType::MemoryFull,
        MnsEventType::MemoryAvailable => EventType::MemoryAvailable,
        MnsEventType::ReadStatusChanged => EventType::ReadStatusChanged,
    }
}

/// Maps an MNS event kind to the wire kind; exhaustive, so a new kind must be mapped here.
pub fn to_wire_event_type(ev: MnsEventType) -> (w: EventType)
    ensures
        w == wire_event_type(ev),
{
    match ev {
        MnsEventType::NewMessage => EventType::NewMessage,
        MnsEventType::DeliverySuccess => EventType::DeliverySuccess,
        MnsEventType::SendingSuccess => EventType::SendingSuccess,
        MnsEventType::DeliveryFailure => EventType::DeliveryFailure,
        MnsEventType::SendingFailure => EventType::SendingFailure,
        MnsEventType::MessageDeleted => EventType::MessageDeleted,
        MnsEventType::MessageShift => EventType::MessageShift,
        MnsEventType::MemoryFull => EventType::MemoryFull,
        MnsEventType::MemoryAvailable => EventType::MemoryAvailable,
        MnsEventType::ReadStatusChanged => EventType::ReadStatusChanged,
    }
}

/// Each MNS event kind is streamed as the wire kind of the same name, so distinct kinds stay
/// distinct on the wire.
pub proof fn lemma_wire_event_type_same_name()
    ensures
        wire_event_type(MnsEventType::NewMessage) == EventType::NewMessage,
        wire_event_type(MnsEventType::DeliverySuccess) == EventType::DeliverySuccess,
        wire_event_type(MnsEventType::SendingSuccess) == EventType::SendingSuccess,
        wire_event_type(MnsEventType::DeliveryFailure) == EventType::DeliveryFailure,
        wire_event_type(MnsEventType::SendingFailure) == EventType::SendingFailure,
        wire_event_type(MnsEventType::MessageDeleted) == EventType::MessageDeleted,
        wire_event_type(MnsEventType::MessageShift) == EventType::MessageShift,
        wire_event_type(MnsEventType::MemoryFull) == EventType::MemoryFull,
        wire_event_type(MnsEventType::MemoryAvailable) == EventType::MemoryAvailable,
        wire_event_type(MnsEventType::ReadStatusChanged) == EventType::ReadStatusChanged,
        forall|a: MnsEventType, b: MnsEventType| #[trigger] wire_event_type(a) == #[trigger] wire_event_type(b)
            ==> a == b,
{
}

/// One event streamed to `Watch` subscribers.
#[derive(Debug, Clone, PartialEq, Eq)]
pub struct WatchEvent {
    pub event_type: EventType,
    pub handle: Option<String>,
    pub folder: Option<String>,
    pub old_folder: Option<String>,
    pub msg_type: Option<String>,
    pub datetime: Option<String>,
}

/// An MNS event report as the MNS session decodes it.
#[derive(Debug, Clone, PartialEq, Eq)]
pub struct MnsEvent {
    pub event_type: MnsEventType,
    pub handle: Option<String>,
    pub folder: Option<String>,
    pub old_folder: Option<String>,
    pub msg_type: Option<String>,
    pub datetime: Option<String>,
}

/// A copy of an optional text.
fn copy_opt(o: &Option<String>) -> (r: Option<String>)
    ensures
        r == *o,
{
    match o {
        Some(s) => Some(s.clone()),
        None => None,
    }
}

/// Flattens an MNS event into the wire event: the wire kind of its kind, and the same texts.
pub fn mns_to_watch(ev: &MnsEvent) -> (w: WatchEvent)
    ensures
        w == (WatchEvent {
            event_type: wire_event_type(ev.event_type),
            handle: ev.handle,
            folder: ev.folder,
            old_folder: ev.old_folder,
            msg_type: ev.msg_type,
            datetime: ev.datetime,
        }),
{
    WatchEvent {
        event_type: to_wire_event_type(ev.event_type),
        handle: copy_opt(&ev.handle),
        folder: copy_opt(&ev.folder),
        old_folder: copy_opt(&ev.old_folder),
        msg_type: copy_opt(&ev.msg_type),
        datetime: copy_opt(&ev.datetime),
    }
}

/// A client request to the broker.
#[derive(Debug, Clone, PartialEq, Eq)]
pub enum BrokerRequest {
    /// The session state.
    Status,
    /// Stream MAP events.
    Watch,
    /// Stop a persistent broker.
    Shutdown,
    /// Drain the outbox and sync one folder (or all).
    Sync { folder: Option<String> },
    /// Send an SMS through the outbox.
    Send { number: String, message: String },
    /// Delete a message.
    Delete { handle: String, folder: String },
    /// Catch-up backfill.
    Backfill,
    /// List messages live.
    ListMessages {
        folder: Option<String>,
        unread: bool,
        from: Option<String>,
        since: Option<String>,
        limit: Option<u16>,
        offset: u16,
    },
    /// Fetch one message live.
    GetMessage { handle: String },
    /// Per-contact threads, live.
    Threads,
    /// The device's message folders.
    Folders,
    /// Mark a message read on the device.
    MarkReadDevice { handle: String },
    /// Send an SMS on the device only.
    SendLive { number: String, message: String },
    /// Sync the contacts cache.
    SyncContacts,
    /// List a phonebook live.
    ListContacts { path: Option<String>, limit: Option<u16>, offset: u16 },
    /// Fetch one contact live.
    GetContact { path: Option<String>, handle: String },
    /// Reverse-look up a contact by number.
    LookupContact { path: Option<String>, number: String },
    /// Pull every contact of a phonebook live.
    PullAllContacts { path: Option<String>, limit: Option<u16>, offset: u16 },
}

/// A message from a connection task to the device actor (its reply channel travels beside it).
#[derive(Debug, Clone, PartialEq, Eq)]
pub enum DeviceOp {
    Sync { folder: Option<String> },
    Send { number: String, message: String },
    Delete { msg_handle: String, folder: String },
    Backfill,
    LiveList {
        folder: Option<String>,
        unread: bool,
        from: Option<String>,
        since: Option<String>,
        limit: Option<u16>,
        offset: u16,
    },
    LiveGet { handle: String },
    LiveThreads,
    LiveFolders,
    LiveMarkRead { handle: String },
    LiveSend { number: String, message: String },
    SyncContacts,
    ListContacts { path: Option<String>, limit: Option<u16>, offset: u16 },
    GetContact { path: Option<String>, handle: String },
    LookupContact { path: Option<String>, number: String },
    PullAllContacts { path: Option<String>, limit: Option<u16>, offset: u16 },
    /// Subscribe to MAP event notifications.
    Subscribe,
    /// Drop one subscriber.
    Unsubscribe,
}

/// The broker's answer to a request, as far as the broker itself builds it (operation payloads
/// travel in `Done`).
#[derive(Debug, Clone, PartialEq, Eq)]
pub enum BrokerResponse<P> {
    /// Success with nothing to report (the wire's `Ok`).
    Acknowledged,
    /// The request could not be handled.
    Error(String),
    /// The operation failed for this reason.
    Failed(Reason),
    /// A confirmation text.
    Text(String),
    /// The answer to `Status`.
    StatusInfo { state: SessionState, device: String, persistent: bool },
    /// One event streamed to a `Watch` subscriber.
    WatchEvent(WatchEvent),
    /// An operation's own answer.
    Done(P),
}

} // verus!
