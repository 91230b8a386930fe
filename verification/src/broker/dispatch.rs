//! Operation argument decisions: MAP folder and PBAP phonebook names, the answers built around a
//! delete, and how a failed connect attempt is classified and retried.
use std::time::Duration;

use vstd::prelude::*;

use super::actor::OpError;
use super::wire::{BrokerResponse, EventType, Reason, WatchEvent};
use crate::text::{ascii_lowercase, str_eq, to_ascii_lowercase};

verus! {

/// The standard MAP message folders.
#[derive(Debug, Clone, Copy, PartialEq, Eq, Structural)]
pub enum Folder {
    Inbox,
    Sent,
    Outbox,
    Deleted,
}

/// The folder a lowercase IPC folder name stands for.
pub open spec fn folder_named(s: Seq<char>) -> Option<Folder> {
    if s == "inbox"@ {
        Some(Folder::Inbox)
    } else if s == "sent"@ {
        Some(Folder::Sent)
    } else if s == "outbox"@ {
        Some(Folder::Outbox)
    } else if s == "deleted"@ {
        Some(Folder::Deleted)
    } else {
        None
    }
}

/// Each folder is named by its own lowercase spelling (`outbox` names the outbox, not the sent
/// folder), and no two names resolve to the same folder.
pub proof fn lemma_folder_names()
    ensures
        folder_named("inbox"@) == Some(Folder::Inbox),
        folder_named("sent"@) == Some(Folder::Sent),
        folder_named("outbox"@) == Some(Folder::Outbox),
        folder_named("deleted"@) == Some(Folder::Deleted),
        forall|a: Seq<char>, b: Seq<char>|
            #[trigger] folder_named(a) is Some && #[trigger] folder_named(b) == folder_named(a)
                ==> a == b,
{
    reveal_strlit("inbox");
    reveal_strlit("sent");
    reveal_strlit("outbox");
    reveal_strlit("deleted");
    assert("inbox"@.len() == 5 && "sent"@.len() == 4 && "outbox"@.len() == 6
        && "deleted"@.len() == 7);
}

/// Maps a lowercase IPC folder name to the MAP folder.
pub fn parse_folder(s: &str) -> (r: Option<Folder>)
    ensures
        r == folder_named(s@),
{
    if str_eq(s, "inbox") {
        Some(Folder::Inbox)
    } else if str_eq(s, "sent") {
        Some(Folder::Sent)
    } else if str_eq(s, "outbox") {
        Some(Folder::Outbox)
    } else if str_eq(s, "deleted") {
        Some(Folder::Deleted)
    } else {
        None
    }
}

/// The failure for an unrecognised folder name: `unknown folder: {name}`.
pub open spec fn unknown_folder_message(name: Seq<char>) -> Seq<char> {
    "unknown folder: "@ + name
}

/// A folder name, or the failure for an unknown one.
fn known_folder(name: &str) -> (r: Result<Folder, Reason>)
    ensures
        match folder_named(name@) {
            Some(f) => r == Ok::<Folder, Reason>(f),
            None => r matches Err(Reason::OperationFailed(m)) && m@ == unknown_folder_message(name@),
        },
{
    match parse_folder(name) {
        Some(f) => Ok(f),
        None => {
            let mut m = String::new();
            m.append("unknown folder: ");
            m.append(name);
            Err(Reason::OperationFailed(m))
        },
    }
}

/// The scope of a sync: every standard folder when none is named, the named one when it is
/// known, else an `OperationFailed` naming it (before anything touches the device).
pub fn sync_scope(folder: Option<&str>) -> (r: Result<Option<Folder>, Reason>)
    ensures
        match folder {
            None => r == Ok::<Option<Folder>, Reason>(None),
            Some(name) => match folder_named(name@) {
                Some(f) => r == Ok::<Option<Folder>, Reason>(Some(f)),
                None => r matches Err(Reason::OperationFailed(m)) && m@ == unknown_folder_message(
                    name@,
                ),
            },
        },
{
    match folder {
        None => Ok(None),
        Some(name) => match known_folder(name) {
            Ok(f) => Ok(Some(f)),
            Err(e) => Err(e),
        },
    }
}

/// The folder a delete acts in, or the failure for an unknown name (before anything touches
/// the device).
pub fn delete_folder(folder: &str) -> (r: Result<Folder, Reason>)
    ensures
        match folder_named(folder@) {
            Some(f) => r == Ok::<Folder, Reason>(f),
            None => r matches Err(Reason::OperationFailed(m)) && m@ == unknown_folder_message(
                folder@,
            ),
        },
{
    known_folder(folder)
}

/// The confirmation of a delete: `deleted {handle}`.
pub fn deleted_text(handle: &str) -> (t: String)
    ensures
        t@ == "deleted "@ + handle@,
{
    let mut t = String::new();
    t.append("deleted ");
    t.append(handle);
    t
}

/// The event a successful delete fans out to `Watch` subscribers (a delete has no MNS-driven
/// confirmation, so this is the only signal other clients get).
pub fn deleted_event(handle: String, folder: String) -> (e: WatchEvent)
    ensures
        e == (WatchEvent {
            event_type: EventType::MessageDeleted,
            handle: Some(handle),
            folder: Some(folder),
            old_folder: None,
            msg_type: None,
            datetime: None,
        }),
{
    WatchEvent {
        event_type: EventType::MessageDeleted,
        handle: Some(handle),
        folder: Some(folder),
        old_folder: None,
        msg_type: None,
        datetime: None,
    }
}

/// The answer to a delete and the event to fan out to `Watch` subscribers, if any.
///
/// An unknown folder is refused before the device is asked (`ran` is then not read) and fans
/// nothing out. Otherwise `ran` is how the MAP delete went: success answers `deleted {handle}`
/// and fans out a `MessageDeleted` event for the handle and folder (a delete has no MNS-driven
/// confirmation, so this is the only signal other clients get); a fatal error is passed on for
/// the actor to mark the session lost; any other error answers `OperationFailed` with its text.
pub fn do_delete<P>(handle: String, folder: String, ran: Result<(), OpError>) -> (r: (
    Result<BrokerResponse<P>, OpError>,
    Option<WatchEvent>,
))
    ensures
        match folder_named(folder@) {
            None => r.1 is None && (r.0 matches Ok(BrokerResponse::Failed(Reason::OperationFailed(m)))
                && m@ == unknown_folder_message(folder@)),
            Some(_) => match ran {
                Ok(()) => (r.0 matches Ok(BrokerResponse::Text(t)) && t@ == "deleted "@ + handle@)
                    && r.1 == Some(
                    WatchEvent {
                        event_type: EventType::MessageDeleted,
                        handle: Some(handle),
                        folder: Some(folder),
                        old_folder: None,
                        msg_type: None,
                        datetime: None,
                    },
                ),
                Err(OpError::Fatal(m)) => r.0 == Err::<BrokerResponse<P>, OpError>(OpError::Fatal(m))
                    && r.1 is None,
                Err(OpError::Failed(m)) => r.0 == Ok::<BrokerResponse<P>, OpError>(
                    BrokerResponse::Failed(Reason::OperationFailed(m)),
                ) && r.1 is None,
            },
        },
        r.1 is Some <==> (r.0 matches Ok(BrokerResponse::Text(t)) && t@ == "deleted "@ + handle@),
{
    match delete_folder(folder.as_str()) {
        Err(reason) => (Ok(BrokerResponse::Failed(reason)), None),
        Ok(_) => match ran {
            Ok(()) => {
                let text = deleted_text(handle.as_str());
                (Ok(BrokerResponse::Text(text)), Some(deleted_event(handle, folder)))
            },
            Err(OpError::Fatal(m)) => (Err(OpError::Fatal(m)), None),
            Err(OpError::Failed(m)) => (Ok(BrokerResponse::Failed(Reason::OperationFailed(m))), None),
        },
    }
}

/// The PBAP phonebooks.
#[derive(Debug, Clone, Copy, PartialEq, Eq, Structural)]
pub enum PhonebookPath {
    Pb,
    Ich,
    Och,
    Mch,
    Cch,
    Spd,
    Fav,
}

/// The phonebook a (lowercased) wire path name stands for.
pub open spec fn path_named(s: Seq<char>) -> Option<PhonebookPath> {
    if s == "pb"@ {
        Some(PhonebookPath::Pb)
    } else if s == "ich"@ {
        Some(PhonebookPath::Ich)
    } else if s == "och"@ {
        Some(PhonebookPath::Och)
    } else if s == "mch"@ {
        Some(PhonebookPath::Mch)
    } else if s == "cch"@ {
        Some(PhonebookPath::Cch)
    } else if s == "spd"@ {
        Some(PhonebookPath::Spd)
    } else if s == "fav"@ {
        Some(PhonebookPath::Fav)
    } else {
        None
    }
}

/// Each phonebook is named by its own lowercase spelling, and no two names resolve to the same
/// phonebook.
pub proof fn lemma_path_names()
    ensures
        path_named("pb"@) == Some(PhonebookPath::Pb),
        path_named("ich"@) == Some(PhonebookPath::Ich),
        path_named("och"@) == Some(PhonebookPath::Och),
        path_named("mch"@) == Some(PhonebookPath::Mch),
        path_named("cch"@) == Some(PhonebookPath::Cch),
        path_named("spd"@) == Some(PhonebookPath::Spd),
        path_named("fav"@) == Some(PhonebookPath::Fav),
        forall|a: Seq<char>, b: Seq<char>|
            #[trigger] path_named(a) is Some && #[trigger] path_named(b) == path_named(a) ==> a
                == b,
{
    reveal_strlit("pb");
    reveal_strlit("ich");
    reveal_strlit("och");
    reveal_strlit("mch");
    reveal_strlit("cch");
    reveal_strlit("spd");
    reveal_strlit("fav");
    assert("pb"@.len() == 2 && "ich"@.len() == 3);
    assert("ich"@[0] != "och"@[0] && "ich"@[0] != "mch"@[0] && "ich"@[0] != "cch"@[0]);
    assert("och"@[0] != "mch"@[0] && "och"@[0] != "cch"@[0] && "mch"@[0] != "cch"@[0]);
    assert("spd"@[0] != "ich"@[0] && "spd"@[0] != "och"@[0] && "spd"@[0] != "mch"@[0]
        && "spd"@[0] != "cch"@[0]);
    assert("fav"@[0] != "ich"@[0] && "fav"@[0] != "och"@[0] && "fav"@[0] != "mch"@[0]
        && "fav"@[0] != "cch"@[0] && "fav"@[0] != "spd"@[0]);
}

/// Lowercases `name` and maps it to the matching phonebook; `None` if unrecognized.
///
/// Only ASCII capitals are lowered; for these names that decides exactly as `str::to_lowercase`
/// would, since no other character lowercases into one of their letters.
pub fn parse_path(name: &str) -> (r: Option<PhonebookPath>)
    ensures
        r == path_named(ascii_lowercase(name@)),
{
    let lower = to_ascii_lowercase(name);
    let name = lower.as_str();
    if str_eq(name, "pb") {
        Some(PhonebookPath::Pb)
    } else if str_eq(name, "ich") {
        Some(PhonebookPath::Ich)
    } else if str_eq(name, "och") {
        Some(PhonebookPath::Och)
    } else if str_eq(name, "mch") {
        Some(PhonebookPath::Mch)
    } else if str_eq(name, "cch") {
        Some(PhonebookPath::Cch)
    } else if str_eq(name, "spd") {
        Some(PhonebookPath::Spd)
    } else if str_eq(name, "fav") {
        Some(PhonebookPath::Fav)
    } else {
        None
    }
}

/// Resolves the wire `path` name (matched case-insensitively) to a phonebook (the main phonebook
/// when absent), or the
/// `OperationFailed` answer for an unrecognized name, given before anything touches the device.
pub fn resolve_path(path: Option<&str>) -> (r: Result<PhonebookPath, Reason>)
    ensures
        match path {
            None => r == Ok::<PhonebookPath, Reason>(PhonebookPath::Pb),
            Some(name) => match path_named(ascii_lowercase(name@)) {
                Some(p) => r == Ok::<PhonebookPath, Reason>(p),
                None => r matches Err(Reason::OperationFailed(m)) && m@ == "unknown phonebook path: "@
                    + name@,
            },
        },
{
    match path {
        None => Ok(PhonebookPath::Pb),
        Some(name) => match parse_path(name) {
            Some(p) => Ok(p),
            None => {
                let mut m = String::new();
                m.append("unknown phonebook path: ");
                m.append(name);
                Err(Reason::OperationFailed(m))
            },
        },
    }
}

/// How a session-establishment failure is classified.
#[derive(Debug, Clone, Copy, PartialEq, Eq, Structural)]
pub enum Disposition {
    /// Auth, pairing or wrong channel: retrying cannot help.
    Permanent,
    /// Link timeout or reset: worth retrying.
    Transient,
}

/// The wire reason for a connect failure.
pub open spec fn connect_reason_spec(d: Disposition) -> Reason {
    match d {
        Disposition::Permanent => Reason::ConnectionRefused,
        Disposition::Transient => Reason::DeviceUnreachable,
    }
}

/// A permanent connect failure is reported as a refused connection and a transient one as an
/// unreachable device; the two never share a reason.
pub proof fn lemma_connect_reason_kinds(d: Disposition)
    ensures
        (connect_reason_spec(d) == Reason::ConnectionRefused) <==> (d is Permanent),
        (connect_reason_spec(d) == Reason::DeviceUnreachable) <==> (d is Transient),
{
}

/// Maps a session-establishment failure to the action-oriented wire reason: permanent failures
/// become `ConnectionRefused`, transient ones `DeviceUnreachable`.
pub fn connect_reason(d: Disposition) -> (r: Reason)
    ensures
        r == connect_reason_spec(d),
{
    match d {
        Disposition::Permanent => Reason::ConnectionRefused,
        Disposition::Transient => Reason::DeviceUnreachable,
    }
}

/// What to do after a failed connect attempt.
#[derive(Debug, PartialEq, Eq)]
pub enum RetryStep {
    /// Stop connecting and fail with this reason.
    GiveUp(Reason),
    /// Sleep this long, then try again.
    Wait(Duration),
}

/// After a failed connect attempt: a permanent failure gives up at once; a transient one waits
/// for the next delay of the backoff schedule, or gives up when the schedule is exhausted. Either
/// way the reason is the failure's wire reason.
pub fn after_connect_failure(d: Disposition, next_delay: Option<Duration>) -> (s: RetryStep)
    ensures
        s == match (d, next_delay) {
            (Disposition::Transient, Some(delay)) => RetryStep::Wait(delay),
            _ => RetryStep::GiveUp(connect_reason_spec(d)),
        },
{
    let reason = connect_reason(d);
    if d == Disposition::Permanent {
        return RetryStep::GiveUp(reason);
    }
    match next_delay {
        None => RetryStep::GiveUp(reason),
        Some(delay) => RetryStep::Wait(delay),
    }
}

/// The outcome of a connection phase bounded by a wall-clock budget: the phase's own result,
/// or `DeviceUnreachable` when the budget elapsed first.
pub fn within_budget<C>(phase: Option<Result<C, Reason>>) -> (r: Result<C, Reason>)
    ensures
        match phase {
            Some(result) => r == result,
            None => r == Err::<C, Reason>(Reason::DeviceUnreachable),
        },
{
    match phase {
        Some(result) => result,
        None => Err(Reason::DeviceUnreachable),
    }
}

} // verus!
