//! Session-broker decisions.

use std::time::Duration;

use imsg::broker::actor::{
    fail_pending, finish_map, on_mns_event_outcome, route_op, run_pbap_op, PbapAnswer,
    serve_step, wants_mns, ActorState, LiveOp, OpError, OpOutcome, OpRoute, PbapOp, PbapRun,
    ServeEvent, ServeOutcome, ServeStep, SessionEnd, TerminalReason, MnsAction,
};
use imsg::broker::server::{
    accept_step, bind_action, daemon_outcome, AcceptAction, AcceptEvent, BindAction, BindResult,
};
use imsg::broker::dispatch::{
    after_connect_failure, connect_reason, deleted_event, deleted_text, do_delete, parse_folder,
    parse_path,
    resolve_path, sync_scope, Disposition, Folder, PhonebookPath, RetryStep,
};
use imsg::broker::handler::{
    await_ready, delivered_response, handle_one_shot, handle_shutdown, req_to_op, route,
    status_info, watch_begin, watch_conn_step, Delivery, Ready, ReadyWait, Route, WatchConnAction,
    WatchInput, WatchPhase, WatchRecv,
};
use imsg::broker::policy::{build_daemon_policy, build_policy, security_from_config};
use imsg::broker::wire::{
    mns_to_watch, to_wire_event_type, MnsEvent, BrokerRequest, BrokerResponse, ConnState, DeviceOp, EventType,
    MnsEventType, Reason, SessionState,
};
use imsg::config::{BrokerConfig, Config, DeviceConfig, HubConfig, SecurityLevel, StoreConfig};

#[test]
fn no_subscribers_ephemeral_does_not_want_mns() {
    assert!(!wants_mns(0, Some(Duration::from_secs(15))));
}

#[test]
fn no_subscribers_persistent_wants_mns() {
    assert!(wants_mns(0, None));
}

#[test]
fn subscribers_ephemeral_wants_mns() {
    assert!(wants_mns(1, Some(Duration::from_secs(15))));
}

#[test]
fn subscribers_persistent_wants_mns() {
    assert!(wants_mns(1, None));
}

#[test]
fn first_subscriber_starts_mns_and_last_stops_it() {
    let mut s = ActorState::new(Some(Duration::from_secs(15)));
    assert!(s.subscribe());
    s.mns_started(true);
    assert!(!s.subscribe());
    assert_eq!(s.watch_count, 2);
    assert!(!s.unsubscribe());
    assert!(s.unsubscribe());
    assert_eq!(s.watch_count, 0);
    assert!(!s.mns_running);
}

#[test]
fn unsubscribe_never_underflows() {
    let mut s = ActorState::new(Some(Duration::from_secs(15)));
    assert!(s.unsubscribe());
    assert_eq!(s.watch_count, 0);
}

#[test]
fn persistent_mode_keeps_mns_without_subscribers() {
    let mut s = ActorState::new(None);
    assert!(s.session_start());
    s.mns_started(true);
    assert!(!s.session_start());
    s.subscribe();
    assert!(!s.unsubscribe());
    assert!(s.mns_running);
}

#[test]
fn failed_mns_start_is_retried_by_next_subscriber() {
    let mut s = ActorState::new(Some(Duration::from_secs(15)));
    assert!(s.subscribe());
    s.mns_started(false);
    assert!(s.subscribe());
}

#[test]
fn drop_reconnects_only_when_mns_wanted() {
    let mut ephemeral = ActorState::new(Some(Duration::from_secs(15)));
    assert_eq!(ephemeral.session_end(ServeOutcome::Dropped), SessionEnd::FailPending(Reason::DeviceUnreachable));
    ephemeral.subscribe();
    assert_eq!(ephemeral.session_end(ServeOutcome::Dropped), SessionEnd::Reconnect);
    let mut persistent = ActorState::new(None);
    assert_eq!(persistent.session_end(ServeOutcome::Dropped), SessionEnd::Reconnect);
    assert_eq!(persistent.session_end(ServeOutcome::Exit), SessionEnd::Disconnect);
    assert!(!persistent.mns_running);
}

#[test]
fn finish_map_classifies_errors() {
    assert_eq!(finish_map::<u8>(Ok(7)), (Ok(7), OpOutcome::Continue));
    assert_eq!(
        finish_map::<u8>(Err(OpError::Fatal("link reset".to_owned()))),
        (Err(Reason::DeviceUnreachable), OpOutcome::SessionLost)
    );
    assert_eq!(
        finish_map::<u8>(Err(OpError::Failed("rejected".to_owned()))),
        (Err(Reason::OperationFailed("rejected".to_owned())), OpOutcome::Continue)
    );
}

#[test]
fn mns_event_only_fatal_loses_session() {
    assert_eq!(on_mns_event_outcome(Ok(())), OpOutcome::Continue);
    assert_eq!(on_mns_event_outcome(Err(OpError::Failed("db".to_owned()))), OpOutcome::Continue);
    assert_eq!(on_mns_event_outcome(Err(OpError::Fatal("gone".to_owned()))), OpOutcome::SessionLost);
}

#[test]
fn pbap_failure_drops_only_the_pbap_session() {
    let a = run_pbap_op::<u8>(PbapRun::Ran(Ok(3)));
    assert_eq!(a, PbapAnswer { answer: Ok(3), keep_session: true, outcome: OpOutcome::Continue });
    let a = run_pbap_op::<u8>(PbapRun::Ran(Err("timeout".to_owned())));
    assert_eq!(a.answer, Err(Reason::OperationFailed("timeout".to_owned())));
    assert!(!a.keep_session);
    assert_eq!(a.outcome, OpOutcome::Continue);
    let a = run_pbap_op::<u8>(PbapRun::ConnectFailed(Reason::ConnectionRefused));
    assert_eq!((a.answer, a.keep_session), (Err(Reason::ConnectionRefused), true));
    let a = run_pbap_op::<u8>(PbapRun::Missing);
    assert_eq!(a.answer, Err(Reason::OperationFailed("pbap session missing after connect".to_owned())));
    assert!(a.keep_session);
}

#[test]
fn pbap_and_live_narrowing() {
    assert_eq!(PbapOp::try_from(DeviceOp::SyncContacts), Ok(PbapOp::SyncContacts));
    assert_eq!(PbapOp::try_from(DeviceOp::Backfill), Err(DeviceOp::Backfill));
    assert_eq!(LiveOp::try_from(DeviceOp::Backfill), Ok(LiveOp::Backfill));
    assert_eq!(
        LiveOp::try_from(DeviceOp::LiveGet { handle: "h".to_owned() }),
        Ok(LiveOp::Get { handle: "h".to_owned() })
    );
    assert_eq!(LiveOp::try_from(DeviceOp::Subscribe), Err(DeviceOp::Subscribe));
}

#[test]
fn fail_pending_answers_operational_ops_only() {
    let queued = vec![
        DeviceOp::Subscribe,
        DeviceOp::Backfill,
        DeviceOp::Unsubscribe,
        DeviceOp::SyncContacts,
        DeviceOp::LiveThreads,
    ];
    assert_eq!(fail_pending(&queued), vec![1, 3, 4]);
}

#[test]
fn folder_and_path_names() {
    assert_eq!(parse_folder("inbox"), Some(Folder::Inbox));
    assert_eq!(parse_folder("deleted"), Some(Folder::Deleted));
    assert_eq!(parse_folder("Inbox"), None);
    assert_eq!(parse_path("fav"), Some(PhonebookPath::Fav));
    assert_eq!(parse_path("PB"), Some(PhonebookPath::Pb));
    assert_eq!(parse_path("Fav"), Some(PhonebookPath::Fav));
    assert_eq!(parse_path("pbx"), None);
    assert_eq!(resolve_path(Some("ICH")), Ok(PhonebookPath::Ich));
    assert_eq!(resolve_path(None), Ok(PhonebookPath::Pb));
    assert_eq!(resolve_path(Some("mch")), Ok(PhonebookPath::Mch));
    assert_eq!(
        resolve_path(Some("bogus")),
        Err(Reason::OperationFailed("unknown phonebook path: bogus".to_owned()))
    );
}

#[test]
fn sync_scope_rejects_unknown_folder() {
    assert_eq!(sync_scope(None), Ok(None));
    assert_eq!(sync_scope(Some("sent")), Ok(Some(Folder::Sent)));
    assert_eq!(sync_scope(Some("spam")), Err(Reason::OperationFailed("unknown folder: spam".to_owned())));
}

#[test]
fn delete_confirmation_and_event() {
    assert_eq!(deleted_text("H1"), "deleted H1");
    let ev = deleted_event("H1".to_owned(), "inbox".to_owned());
    assert_eq!(ev.event_type, EventType::MessageDeleted);
    assert_eq!(ev.handle.as_deref(), Some("H1"));
    assert_eq!(ev.folder.as_deref(), Some("inbox"));
    assert_eq!(ev.old_folder, None);
}

#[test]
fn connect_failures() {
    assert_eq!(connect_reason(Disposition::Permanent), Reason::ConnectionRefused);
    assert_eq!(connect_reason(Disposition::Transient), Reason::DeviceUnreachable);
    assert_eq!(
        after_connect_failure(Disposition::Permanent, Some(Duration::from_millis(500))),
        RetryStep::GiveUp(Reason::ConnectionRefused)
    );
    assert_eq!(
        after_connect_failure(Disposition::Transient, Some(Duration::from_millis(500))),
        RetryStep::Wait(Duration::from_millis(500))
    );
    assert_eq!(
        after_connect_failure(Disposition::Transient, None),
        RetryStep::GiveUp(Reason::DeviceUnreachable)
    );
}

#[test]
fn routing_and_status() {
    assert_eq!(route(&BrokerRequest::Status), Route::Status);
    assert_eq!(route(&BrokerRequest::Watch), Route::Watch);
    assert_eq!(route(&BrokerRequest::Shutdown), Route::Shutdown);
    assert_eq!(route(&BrokerRequest::Threads), Route::OneShot);
    let info: BrokerResponse<()> =
        status_info(&ConnState::Failed(Reason::NotReady), "phone".to_owned(), true);
    assert_eq!(
        info,
        BrokerResponse::StatusInfo { state: SessionState::Failed, device: "phone".to_owned(), persistent: true }
    );
}

#[test]
fn shutdown_without_coordinator_errors() {
    let (cancel, resp) = handle_shutdown::<()>(false);
    assert!(!cancel);
    assert_eq!(resp, BrokerResponse::Error("shutdown not supported by an ephemeral broker".to_owned()));
    let (cancel, resp) = handle_shutdown::<()>(true);
    assert!(cancel);
    assert_eq!(resp, BrokerResponse::Acknowledged);
}

#[test]
fn readiness_gate() {
    assert_eq!(await_ready(ReadyWait::Reached(ConnState::Active)), Ready::Active);
    assert_eq!(
        await_ready(ReadyWait::Reached(ConnState::Failed(Reason::ConnectionRefused))),
        Ready::Failed(Reason::ConnectionRefused)
    );
    assert_eq!(await_ready(ReadyWait::Closed), Ready::Failed(Reason::Internal("broker stopped".to_owned())));
    assert_eq!(await_ready(ReadyWait::TimedOut), Ready::Timeout);
}

#[test]
fn one_shot_requests() {
    let r = handle_one_shot::<()>(Ready::Timeout, BrokerRequest::Threads);
    assert_eq!(r, Err(BrokerResponse::Failed(Reason::NotReady)));
    let r = handle_one_shot::<()>(
        Ready::Active,
        BrokerRequest::Delete { handle: "h".to_owned(), folder: "inbox".to_owned() },
    );
    assert_eq!(r, Ok(DeviceOp::Delete { msg_handle: "h".to_owned(), folder: "inbox".to_owned() }));
    let r = req_to_op::<()>(BrokerRequest::Watch);
    assert_eq!(r, Err(BrokerResponse::Error("internal: routed to one-shot path".to_owned())));
    let r = req_to_op::<()>(BrokerRequest::ListContacts { path: None, limit: Some(5), offset: 2 });
    assert_eq!(r, Ok(DeviceOp::ListContacts { path: None, limit: Some(5), offset: 2 }));
}

#[test]
fn delivery_answers() {
    assert_eq!(delivered_response::<u8>(Delivery::NotSent), BrokerResponse::Error("broker shutting down".to_owned()));
    assert_eq!(delivered_response::<u8>(Delivery::Dropped), BrokerResponse::Error("actor dropped reply".to_owned()));
    assert_eq!(delivered_response(Delivery::Replied(BrokerResponse::Done(4u8))), BrokerResponse::Done(4u8));
}

#[test]
fn watch_connection_backfills_then_subscribes() {
    let (phase, action) = watch_begin::<()>();
    assert_eq!((phase, action), (WatchPhase::Preflight, WatchConnAction::SendBackfill));
    let (phase, action) = watch_conn_step::<()>(phase, WatchInput::Backfilled);
    assert_eq!((phase, action), (WatchPhase::Subscribing, WatchConnAction::SendSubscribe));
    let (phase, action) = watch_conn_step::<()>(phase, WatchInput::Subscribed);
    assert_eq!((phase, action), (WatchPhase::Streaming, WatchConnAction::Nothing));
    let ev = deleted_event("H1".to_owned(), "inbox".to_owned());
    let (phase, action) = watch_conn_step::<()>(phase, WatchInput::Received(WatchRecv::Event(ev.clone())));
    assert_eq!((phase, action), (WatchPhase::Writing, WatchConnAction::Write(BrokerResponse::WatchEvent(ev))));
    let (phase, action) = watch_conn_step::<()>(phase, WatchInput::Written(true));
    assert_eq!((phase, action), (WatchPhase::Streaming, WatchConnAction::Nothing));
    let (phase, action) = watch_conn_step::<()>(phase, WatchInput::Received(WatchRecv::Lagged(7)));
    assert_eq!((phase, action), (WatchPhase::CatchingUp, WatchConnAction::SendBackfill));
    let (phase, action) = watch_conn_step::<()>(phase, WatchInput::Backfilled);
    assert_eq!((phase, action), (WatchPhase::Streaming, WatchConnAction::Nothing));
    let (phase, action) = watch_conn_step::<()>(phase, WatchInput::Received(WatchRecv::Cancelled));
    assert_eq!((phase, action), (WatchPhase::Done, WatchConnAction::SendUnsubscribe));
    let (phase, action) = watch_conn_step::<()>(phase, WatchInput::Received(WatchRecv::Closed));
    assert_eq!((phase, action), (WatchPhase::Done, WatchConnAction::Nothing));
}

#[test]
fn watch_connection_ends_on_failed_write_or_subscribe() {
    let (phase, action) = watch_conn_step::<()>(WatchPhase::Writing, WatchInput::Written(false));
    assert_eq!((phase, action), (WatchPhase::Done, WatchConnAction::SendUnsubscribe));
    let (phase, action) = watch_conn_step::<()>(WatchPhase::Streaming, WatchInput::Received(WatchRecv::Closed));
    assert_eq!((phase, action), (WatchPhase::Done, WatchConnAction::SendUnsubscribe));
    let (phase, action) = watch_conn_step::<()>(WatchPhase::Subscribing, WatchInput::SubscribeNotSent);
    assert_eq!(
        (phase, action),
        (WatchPhase::Done, WatchConnAction::Write(BrokerResponse::Error("broker shutting down".to_owned())))
    );
    let (phase, action) = watch_conn_step::<()>(WatchPhase::Subscribing, WatchInput::SubscribeDropped);
    assert_eq!((phase, action), (WatchPhase::Done, WatchConnAction::Nothing));
    let (phase, action) = watch_conn_step::<()>(WatchPhase::Preflight, WatchInput::Subscribed);
    assert_eq!((phase, action), (WatchPhase::Preflight, WatchConnAction::Nothing));
}

#[test]
fn wire_mappings() {
    assert_eq!(ConnState::Reconnecting.to_wire(), SessionState::Reconnecting);
    assert_eq!(to_wire_event_type(MnsEventType::MessageShift), EventType::MessageShift);
    assert_eq!(to_wire_event_type(MnsEventType::ReadStatusChanged), EventType::ReadStatusChanged);
}

#[test]
fn policies_follow_config() {
    let cfg = Config {
        device: DeviceConfig { address: "AA:BB:CC:DD:EE:FF".to_owned(), map_channel: 2, pbap_channel: 13 },
        hub: HubConfig::default(),
        store: StoreConfig::default(),
        broker: BrokerConfig::default(),
    };
    let p = build_policy(&cfg);
    assert_eq!(p.initial_backoff, Duration::from_millis(500));
    assert_eq!(p.max_backoff, Duration::from_secs(30));
    assert_eq!(p.max_attempts, cfg.broker.connect_max_attempts);
    assert_eq!(p.startup_budget, Some(Duration::from_secs(30)));
    let d = build_daemon_policy(&cfg);
    assert_eq!(d.max_attempts, u32::MAX);
    assert_eq!(d.startup_budget, None);
    assert_eq!(d.max_backoff, p.max_backoff);
}

#[test]
fn security_from_config_none_stays_none() {
    assert_eq!(security_from_config(None), None);
}

#[test]
fn security_from_config_maps_each_level() {
    for (cfg_level, bluer_level) in [
        (SecurityLevel::Sdp, bluer::rfcomm::SecurityLevel::Sdp),
        (SecurityLevel::Low, bluer::rfcomm::SecurityLevel::Low),
        (SecurityLevel::Medium, bluer::rfcomm::SecurityLevel::Medium),
        (SecurityLevel::High, bluer::rfcomm::SecurityLevel::High),
    ] {
        let expected = bluer::rfcomm::Security { level: bluer_level, key_size: 0 };
        assert_eq!(security_from_config(Some(cfg_level)), Some(expected));
    }
}

#[test]
fn serve_loop_steps() {
    assert_eq!(serve_step(ServeEvent::OpHandled(OpOutcome::SessionLost)), ServeStep::Stop(ServeOutcome::Dropped));
    assert_eq!(serve_step(ServeEvent::MnsHandled(OpOutcome::SessionLost)), ServeStep::Stop(ServeOutcome::Dropped));
    assert_eq!(serve_step(ServeEvent::MnsHandled(OpOutcome::Continue)), ServeStep::Continue);
    assert_eq!(serve_step(ServeEvent::MnsClosed), ServeStep::ForgetMns);
    assert_eq!(serve_step(ServeEvent::OpsClosed), ServeStep::Stop(ServeOutcome::Exit));
    assert_eq!(serve_step(ServeEvent::IdleTimeout), ServeStep::Stop(ServeOutcome::Exit));
}

#[test]
fn ops_route_to_their_session() {
    assert_eq!(route_op(&DeviceOp::Subscribe), OpRoute::Subscribe);
    assert_eq!(route_op(&DeviceOp::Sync { folder: None }), OpRoute::MapStore);
    assert_eq!(route_op(&DeviceOp::LiveFolders), OpRoute::Live);
    assert_eq!(route_op(&DeviceOp::GetContact { path: None, handle: "1.vcf".to_owned() }), OpRoute::Pbap);
}

#[test]
fn election_and_accept_loop() {
    assert_eq!(bind_action(BindResult::AddrInUse, true), BindAction::ExitQuietly);
    assert_eq!(bind_action(BindResult::AddrInUse, false), BindAction::RefuseHeld);
    assert_eq!(bind_action(BindResult::Bound, false), BindAction::Serve);
    assert_eq!(bind_action(BindResult::Failed, true), BindAction::Fail);
    assert_eq!(accept_step(AcceptEvent::ShutdownChanged { closed: false, terminal: false }), AcceptAction::Continue);
    assert_eq!(accept_step(AcceptEvent::ShutdownChanged { closed: true, terminal: false }), AcceptAction::Stop);
    assert_eq!(accept_step(AcceptEvent::ShutdownChanged { closed: false, terminal: true }), AcceptAction::Stop);
    assert_eq!(accept_step(AcceptEvent::Cancelled), AcceptAction::Stop);
    assert_eq!(accept_step(AcceptEvent::Accepted), AcceptAction::Serve);
}

#[test]
fn daemon_exit_reports_permanent_failure() {
    assert_eq!(daemon_outcome(None), Ok(()));
    assert_eq!(daemon_outcome(Some(TerminalReason::Requested)), Ok(()));
    assert_eq!(
        daemon_outcome(Some(TerminalReason::PermanentFailure(Reason::ConnectionRefused))),
        Err(Reason::ConnectionRefused)
    );
}

#[test]
fn mns_events_flatten_to_watch_events() {
    let ev = MnsEvent {
        event_type: MnsEventType::MessageShift,
        handle: Some("H2".to_owned()),
        folder: Some("telecom/msg/sent".to_owned()),
        old_folder: Some("telecom/msg/outbox".to_owned()),
        msg_type: Some("SMS_GSM".to_owned()),
        datetime: None,
    };
    let w = mns_to_watch(&ev);
    assert_eq!(w.event_type, EventType::MessageShift);
    assert_eq!(w.handle, ev.handle);
    assert_eq!(w.folder, ev.folder);
    assert_eq!(w.old_folder, ev.old_folder);
    assert_eq!(w.msg_type, ev.msg_type);
    assert_eq!(w.datetime, None);
}

#[test]
fn do_delete_broadcasts_message_deleted_on_success() {
    let (resp, event) = do_delete::<()>("H1".to_owned(), "inbox".to_owned(), Ok(()));
    assert!(matches!(resp, Ok(BrokerResponse::Text(ref t)) if t == "deleted H1"));
    let got = event.unwrap_or_else(|| panic!("expected a MessageDeleted event"));
    assert_eq!(got.event_type, EventType::MessageDeleted);
    assert_eq!(got.handle.as_deref(), Some("H1"));
    assert_eq!(got.folder.as_deref(), Some("inbox"));
    assert_eq!(got.old_folder, None);
    assert_eq!(got.msg_type, None);
    assert_eq!(got.datetime, None);
}

#[test]
fn do_delete_unknown_folder_does_not_broadcast() {
    let (resp, event) = do_delete::<()>("H1".to_owned(), "bogus".to_owned(), Ok(()));
    assert!(matches!(resp, Ok(BrokerResponse::Failed(Reason::OperationFailed(_)))));
    assert!(event.is_none(), "unknown-folder failure must not broadcast");
    assert_eq!(resp, Ok(BrokerResponse::Failed(Reason::OperationFailed("unknown folder: bogus".to_owned()))));
}

#[test]
fn do_delete_failures_do_not_broadcast() {
    let (resp, event) = do_delete::<()>("H1".to_owned(), "sent".to_owned(), Err(OpError::Fatal("reset".to_owned())));
    assert_eq!(resp, Err(OpError::Fatal("reset".to_owned())));
    assert!(event.is_none());
    let (resp, event) = do_delete::<()>("H1".to_owned(), "sent".to_owned(), Err(OpError::Failed("no such handle".to_owned())));
    assert_eq!(resp, Ok(BrokerResponse::Failed(Reason::OperationFailed("no such handle".to_owned()))));
    assert!(event.is_none());
}

#[test]
fn watch_operations_keep_serving() {
    let mut s = ActorState::new(Some(Duration::from_secs(15)));
    assert_eq!(s.handle_watch_op(&DeviceOp::Subscribe), Some((MnsAction::Start, OpOutcome::Continue)));
    s.mns_started(true);
    assert_eq!(s.handle_watch_op(&DeviceOp::Subscribe), Some((MnsAction::Keep, OpOutcome::Continue)));
    assert_eq!(s.handle_watch_op(&DeviceOp::Unsubscribe), Some((MnsAction::Keep, OpOutcome::Continue)));
    assert_eq!(s.handle_watch_op(&DeviceOp::Unsubscribe), Some((MnsAction::Stop, OpOutcome::Continue)));
    assert_eq!(s.watch_count, 0);
    assert_eq!(s.handle_watch_op(&DeviceOp::Backfill), None);
    let mut p = ActorState::new(None);
    assert_eq!(p.handle_watch_op(&DeviceOp::Unsubscribe), Some((MnsAction::Keep, OpOutcome::Continue)));
}

#[test]
fn unknown_path_fails_without_touching_device() {
    assert!(matches!(resolve_path(Some("bogus")), Err(Reason::OperationFailed(_))));
}
