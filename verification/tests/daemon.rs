use bytes::Bytes;
use hsm::daemon::agent::{failed_from_error, ActionStatus, DispatchedAction};
use hsm::daemon::cli;
use hsm::daemon::cli::CliError;
use hsm::daemon::config::{
    DaemonConfig, HsmdConfig, LogCfg, LogFormat, Mode, SchedulerCfg, Transport, XattrNs,
};
use hsm::daemon::control::{list_actions, list_agents, status, ControlError};
use hsm::daemon::disconnect::{agent_lost, reassign, running_on, Reassignment};
use hsm::daemon::dispatch::{
    claim, claimed_by, finish_dispatch, now_ms, plan_dispatch, undo_dispatch, Claim,
};
use hsm::daemon::error::DaemonError;
use hsm::daemon::grpc::{
    agent_of_hello, cancel_item, dispatched_to_proto, expect_hello, proto_to_status, report_of,
    welcome, HelloError,
};
use hsm::daemon::ingest::{ingest, ingest_batch};
use hsm::daemon::inproc::{build_ctx, progress_report, terminal_report};
use hsm::daemon::mock_actions::{mock_action, new_lines, MockAction};
use hsm::daemon::paths::{join_path, path_of_fid, restore_temp_path};
use hsm::daemon::pending::PendingPaths;
use hsm::daemon::recovery::{grace_expired, recover, remaining_grace, Expiry};
use hsm::daemon::status::{apply_status, object_target};
use hsm::daemon::xattr_store::{
    clear_obj, read_obj, write_obj, FileAttrs, XattrError, XattrNamespace,
};
use hsm::llapi::{EndStatus, HsmError, MockCopytool, ReceivedAction};
use hsm::model::{
    Action, ActionKind, ActionRecord, AgentId, ArState, ArchiveId, BackendObject, Cookie, Extent,
    Fid, Span, Timestamp,
};
use hsm::proto::{
    proto_to_backend_obj, FromPlugin, Hello, ObjectMsg, StatusMsg, ToPlugin, KIND_ARCHIVE,
    KIND_CANCEL,
};
use hsm::scheduler::{AgentRegistry, Assignment, FifoPerKind, Scheduler};
use hsm::sdk::run::build_ctx_from_proto;
use hsm::sdk::{MoverError, ProgressEvent};
use hsm::store::action_store::Records;
use hsm::store::{ActionStore, MemStore, StoreError, StoreResult};
use tokio_util::sync::CancellationToken;

fn action_of_kind(cookie: u64, kind: ActionKind) -> Action {
    Action {
        cookie: Cookie::new(cookie),
        fid: Fid::new(0x200000401, cookie as u32, 0),
        dfid: Fid::new(0x200000401, cookie as u32, 0),
        archive_id: ArchiveId::new(1),
        kind,
        extent: Extent::whole(),
        gid: 0,
        data: Bytes::new(),
    }
}

fn waiting_record(cookie: u64) -> ActionRecord {
    ActionRecord::new(action_of_kind(cookie, ActionKind::Archive), Timestamp::now())
}

fn started_record(cookie: u64) -> ActionRecord {
    let mut r = waiting_record(cookie);
    r.state = ArState::Started { agent: AgentId::new("old-mover"), since_unix_ms: 0 };
    r
}

fn terminal_record(cookie: u64) -> ActionRecord {
    let mut r = waiting_record(cookie);
    r.state = ArState::Succeed { rc: 0 };
    r
}

fn object() -> BackendObject {
    BackendObject { uuid: "u".into(), hash: [0xab; 32], url: "noop://u".into() }
}

fn assigned(cookie: u64, kind: ActionKind) -> Assignment {
    Assignment { action: action_of_kind(cookie, kind), agent: AgentId::new("m0") }
}

// ---------------------------------------------------------------------------
// Agents and messages
// ---------------------------------------------------------------------------

#[test]
fn status_classification() {
    let p = ActionStatus::Progress { cookie: Cookie::new(1), bytes_advanced: 1024 };
    let c = ActionStatus::Completed { cookie: Cookie::new(1), total_bytes: 4096, result: None };
    let f = ActionStatus::Failed { cookie: Cookie::new(1), errno: 5, reason: "io".into() };
    assert!(!p.is_terminal());
    assert!(c.is_terminal());
    assert!(f.is_terminal());
    assert_eq!(p.cookie(), Cookie::new(1));
}

#[test]
fn failed_from_mover_error_maps_errno() {
    let s = failed_from_error(Cookie::new(7), &MoverError::Cancelled);
    match s {
        ActionStatus::Failed { errno, cookie, .. } => {
            assert_eq!(errno, 125);
            assert_eq!(cookie, Cookie::new(7));
        }
        other => panic!("expected Failed, got {other:?}"),
    }
}

fn dispatched(cookie: u64, kind: ActionKind) -> DispatchedAction {
    DispatchedAction {
        action: Action {
            cookie: Cookie::new(cookie),
            fid: Fid::new(1, cookie as u32, 0),
            dfid: Fid::new(1, cookie as u32, 0),
            archive_id: ArchiveId::new(7),
            kind,
            extent: Extent::new(0, 4096),
            gid: 0,
            data: Bytes::from_static(b"hint"),
        },
        primary_path: "/mnt/lustre/x".into(),
        write_path: Some("/mnt/lustre/y".into()),
        existing: None,
        lustre_path: None,
    }
}

#[test]
fn dispatched_round_trips_through_proto() {
    let d = dispatched(0xabc, ActionKind::Archive);
    let pb = dispatched_to_proto(d.clone());
    assert_eq!(pb.cookie, 0xabc);
    assert_eq!(pb.archive_id, 7);
    assert_eq!(pb.kind, KIND_ARCHIVE);
    assert_eq!(pb.primary_path, "/mnt/lustre/x");
    assert_eq!(pb.write_path, "/mnt/lustre/y");
    assert_eq!(pb.data, b"hint");
}

#[test]
fn file_and_paths_reach_the_plugin() {
    let mut d = dispatched(9, ActionKind::Archive);
    d.action.fid = Fid::new(0x200000401, 5, 6);
    d.lustre_path = Some("dir/file".into());
    let item = dispatched_to_proto(d);
    let ctx = build_ctx_from_proto(
        &item,
        ActionKind::Archive,
        Extent::whole(),
        (),
        CancellationToken::new(),
    );
    assert_eq!(ctx.fid, Fid::new(0x200000401, 5, 6));
    assert_eq!(ctx.lustre_path.as_deref(), Some("dir/file"));
    assert_eq!(ctx.write_path.as_deref(), Some("/mnt/lustre/y"));
    let mut d = dispatched(9, ActionKind::Archive);
    d.write_path = None;
    let item = dispatched_to_proto(d);
    assert!(item.write_path.is_empty() && item.lustre_path.is_empty());
    assert!(cancel_item(Cookie::new(9)).lustre_path.is_empty());
}

#[test]
fn proto_status_progress_and_terminal_classify() {
    let progress = StatusMsg {
        cookie: 1,
        bytes_advanced: 100,
        completed: false,
        errno: 0,
        result: None,
    };
    match proto_to_status(progress) {
        ActionStatus::Progress { cookie, bytes_advanced } => {
            assert_eq!(cookie, Cookie::new(1));
            assert_eq!(bytes_advanced, 100);
        }
        other => panic!("expected Progress, got {other:?}"),
    }

    let succeeded = StatusMsg {
        cookie: 2,
        bytes_advanced: 4096,
        completed: true,
        errno: 0,
        result: Some(ObjectMsg { uuid: "u".into(), hash: vec![0xab; 32], url: "noop://u".into() }),
    };
    match proto_to_status(succeeded) {
        ActionStatus::Completed { cookie, total_bytes, result } => {
            assert_eq!(cookie, Cookie::new(2));
            assert_eq!(total_bytes, 4096);
            let obj = result.unwrap();
            assert_eq!(obj.uuid, "u");
            assert_eq!(obj.hash, [0xab; 32]);
        }
        other => panic!("expected Completed, got {other:?}"),
    }

    let failed = StatusMsg {
        cookie: 3,
        bytes_advanced: 1024,
        completed: true,
        errno: 28,
        result: None,
    };
    match proto_to_status(failed) {
        ActionStatus::Failed { cookie, errno, reason } => {
            assert_eq!(cookie, Cookie::new(3));
            assert_eq!(errno, 28);
            assert_eq!(reason, "plugin reported errno 28");
        }
        other => panic!("expected Failed, got {other:?}"),
    }
}

#[test]
fn backend_obj_round_trip_truncates_long_hash() {
    let pb_obj = ObjectMsg { uuid: "k".into(), hash: vec![1; 64], url: "u".into() };
    let internal = proto_to_backend_obj(pb_obj);
    assert_eq!(internal.hash, [1u8; 32]);
}

#[test]
fn agent_id_construction_from_hello() {
    let h = Hello { agent_id: "noop-0".into(), archive_ids: vec![2, 1], version: "".into() };
    let (id, archives) = agent_of_hello(&h);
    assert_eq!(id.as_str(), "noop-0");
    assert_eq!(archives, vec![ArchiveId::new(2), ArchiveId::new(1)]);
    let id = AgentId::new("noop-0");
    assert_eq!(id.as_str(), "noop-0");
}

#[test]
fn handshake_wants_hello_first() {
    let h = Hello { agent_id: "a".into(), archive_ids: vec![], version: "".into() };
    assert!(expect_hello(Some(FromPlugin::Hello(h))).is_ok());
    let e = expect_hello(None).unwrap_err();
    assert_eq!(e, HelloError::Closed);
    assert_eq!(e.message("-"), "stream closed before Hello");
    let e = expect_hello(Some(FromPlugin::Empty)).unwrap_err();
    assert_eq!(e.message("X"), "first message must be Hello; got X");
    match welcome(3) {
        ToPlugin::Welcome(w) => assert_eq!(w.session_id, "session-3"),
        other => panic!("expected Welcome, got {other:?}"),
    }
}

#[test]
fn cancel_messages_and_reports() {
    let item = cancel_item(Cookie::new(0xc));
    assert_eq!(item.cookie, 0xc);
    assert_eq!(item.kind, KIND_CANCEL);
    assert_eq!(item.archive_id, 0);
    assert!(item.data.is_empty() && item.existing.is_none());
    assert!(report_of(FromPlugin::Empty).is_none());
    let s = StatusMsg { cookie: 4, bytes_advanced: 1, completed: false, errno: 0, result: None };
    assert_eq!(
        report_of(FromPlugin::Status(s)),
        Some(ActionStatus::Progress { cookie: Cookie::new(4), bytes_advanced: 1 })
    );
}

#[test]
fn in_process_context_and_reports() {
    let mut d = dispatched(1, ActionKind::Remove);
    d.existing = Some(object());
    d.lustre_path = Some("dir/file".into());
    let ctx = build_ctx(&d, "progress", CancellationToken::new());
    assert_eq!(ctx.cookie, Cookie::new(1));
    assert_eq!(ctx.fid, Fid::new(1, 1, 0));
    assert_eq!(ctx.write_path.as_deref(), Some("/mnt/lustre/y"));
    assert_eq!(ctx.existing, Some(object()));
    assert_eq!(ctx.lustre_path.as_deref(), Some("dir/file"));
    assert_eq!(&ctx.hint[..], b"hint");
    assert_eq!(ctx.progress, "progress");
    let ev = ProgressEvent { cookie: Cookie::new(1), bytes_advanced: 2, extent: Extent::whole() };
    assert_eq!(
        progress_report(ev),
        ActionStatus::Progress { cookie: Cookie::new(1), bytes_advanced: 2 }
    );
    assert_eq!(
        terminal_report(Cookie::new(1), 9, Ok(Some(object()))),
        ActionStatus::Completed {
            cookie: Cookie::new(1),
            total_bytes: 9,
            result: Some(object()),
        }
    );
    assert_eq!(
        terminal_report(Cookie::new(1), 9, Err(MoverError::Cancelled)),
        ActionStatus::Failed {
            cookie: Cookie::new(1),
            errno: 125,
            reason: "transfer cancelled by caller".into(),
        }
    );
}

// ---------------------------------------------------------------------------
// Paths
// ---------------------------------------------------------------------------

#[test]
fn paths_of_files() {
    let f = Fid::new(0x200000401, 0x12, 0);
    assert_eq!(
        path_of_fid("/mnt/lustre", true, f),
        "/mnt/lustre/.lustre/fid/0x200000401:0x12:0x0"
    );
    assert_eq!(
        path_of_fid("/mnt/lustre", false, f),
        "/mnt/lustre/__fid__[0x200000401:0x12:0x0]"
    );
    assert_eq!(join_path("/a/", "b"), "/a/b");
    assert_eq!(join_path("", "b"), "b");
    assert_eq!(join_path("/a", "/b"), "/b");
    for (base, name) in [("/a", "b"), ("/a/", "b"), ("", "b"), ("/a", "/b"), ("x", "")] {
        assert_eq!(
            join_path(base, name),
            std::path::Path::new(base).join(name).to_str().unwrap()
        );
    }
    assert_ne!(restore_temp_path(Cookie::new(1)), restore_temp_path(Cookie::new(0x11)));
}

// ---------------------------------------------------------------------------
// Dispatch
// ---------------------------------------------------------------------------

#[test]
fn assignment_to_a_gone_agent_is_dropped() {
    assert!(plan_dispatch("/m", false, None, false, assigned(1, ActionKind::Archive)).is_none());
}

#[test]
fn archive_is_claimed_and_sent() {
    let mut store = MemStore::new();
    let mut pending = PendingPaths::new();
    store.insert(waiting_record(1)).unwrap();
    let ns = Some(XattrNamespace::User);
    let plan = plan_dispatch("/m", true, ns, true, assigned(1, ActionKind::Archive)).unwrap();
    assert_eq!(plan.read, None);
    let now = Timestamp::from_nanos(5_000_000);
    let ready = match claim(&mut store, &mut pending, plan, Ok(None), false, now) {
        Claim::Ready(r) => r,
        other => panic!("expected Ready, got {other:?}"),
    };
    assert_eq!(
        store.get(Cookie::new(1)).unwrap().unwrap().state,
        ArState::Started { agent: AgentId::new("m0"), since_unix_ms: 5 }
    );
    assert_eq!(ready.resolve.as_deref(), Some("0x200000401:0x1:0x0"));
    assert_eq!(
        pending.get(Cookie::new(1)),
        Some(("/m/.lustre/fid/0x200000401:0x1:0x0".to_string(), ActionKind::Archive))
    );
    let sent = finish_dispatch(ready, Some("dir/file".into()));
    assert_eq!(sent.lustre_path.as_deref(), Some("dir/file"));
    assert!(sent.write_path.is_none());
    assert!(sent.existing.is_none());
}

#[test]
fn restore_writes_to_a_place_of_its_own_when_live() {
    let mut store = MemStore::new();
    let mut pending = PendingPaths::new();
    for (cookie, live) in [(1, true), (2, false)] {
        store.insert(waiting_record(cookie)).unwrap();
        let ns = Some(XattrNamespace::User);
        let plan =
            plan_dispatch("/m", live, ns, true, assigned(cookie, ActionKind::Restore)).unwrap();
        assert_eq!(plan.read, ns);
        let primary = plan.primary_path.clone();
        let found = Ok(Some(object()));
        match claim(&mut store, &mut pending, plan, found, false, Timestamp::now()) {
            Claim::Ready(r) => {
                assert_eq!(r.existing, Some(object()));
                assert!(r.resolve.is_none());
                let want = if live { restore_temp_path(Cookie::new(cookie)) } else { primary };
                assert_eq!(r.write_path, Some(want));
                assert!(finish_dispatch(r, Some("x".into())).lustre_path.is_none());
            }
            other => panic!("expected Ready, got {other:?}"),
        }
    }
}

#[test]
fn only_an_archive_wants_the_real_path() {
    let mut store = MemStore::new();
    let mut pending = PendingPaths::new();
    store.insert(waiting_record(1)).unwrap();
    store.insert(waiting_record(2)).unwrap();
    let ns = Some(XattrNamespace::User);
    let plan = plan_dispatch("/m", true, ns, true, assigned(1, ActionKind::Remove)).unwrap();
    match claim(&mut store, &mut pending, plan, Ok(Some(object())), false, Timestamp::now()) {
        Claim::Ready(r) => {
            assert!(r.resolve.is_none());
            assert!(finish_dispatch(r, Some("x".into())).lustre_path.is_none());
        }
        other => panic!("expected Ready, got {other:?}"),
    }
    let plan = plan_dispatch("/m", false, ns, true, assigned(2, ActionKind::Archive)).unwrap();
    match claim(&mut store, &mut pending, plan, Ok(None), false, Timestamp::now()) {
        Claim::Ready(r) => assert!(r.resolve.is_none()),
        other => panic!("expected Ready, got {other:?}"),
    }
}

#[test]
fn restore_without_an_object_fails_at_once() {
    let mut store = MemStore::new();
    let mut pending = PendingPaths::new();
    store.insert(waiting_record(1)).unwrap();
    store.insert(waiting_record(2)).unwrap();
    let ns = Some(XattrNamespace::Trusted);
    let plan = plan_dispatch("/m", false, ns, true, assigned(1, ActionKind::Restore)).unwrap();
    let got = claim(&mut store, &mut pending, plan, Ok(None), false, Timestamp::now());
    assert_eq!(got, Claim::Refused { rc: 61, stored: Ok(()), completion: None });
    assert_eq!(store.get(Cookie::new(1)).unwrap().unwrap().state, ArState::Failed { rc: 61 });
    let plan = plan_dispatch("/m", false, ns, true, assigned(2, ActionKind::Remove)).unwrap();
    let bad = Err(XattrError::BadHash { path: "p".into(), reason: "r".into() });
    let got = claim(&mut store, &mut pending, plan, bad, false, Timestamp::now());
    assert_eq!(got, Claim::Refused { rc: 5, stored: Ok(()), completion: None });
    assert_eq!(store.get(Cookie::new(2)).unwrap().unwrap().state, ArState::Failed { rc: 5 });
    assert!(pending.get(Cookie::new(1)).is_none());
}

#[test]
fn without_a_namespace_no_object_is_found() {
    let mut store = MemStore::new();
    let mut pending = PendingPaths::new();
    for (cookie, kind) in [(1, ActionKind::Restore), (2, ActionKind::Remove)] {
        store.insert(waiting_record(cookie)).unwrap();
        let plan = plan_dispatch("/m", true, None, true, assigned(cookie, kind)).unwrap();
        assert_eq!(plan.read, None);
        match claim(&mut store, &mut pending, plan, Ok(None), true, Timestamp::now()) {
            Claim::Refused { rc, stored, completion } => {
                assert_eq!(rc, 61);
                assert_eq!(stored, Ok(()));
                let done = completion.unwrap();
                assert_eq!(done.cookie, Cookie::new(cookie));
                assert_eq!(done.status, EndStatus::Failed(61));
                assert_eq!((done.total_bytes, done.kind), (0, kind));
                assert!(done.restore_temp_path.is_none());
            }
            other => panic!("expected Refused, got {other:?}"),
        }
        let state = store.get(Cookie::new(cookie)).unwrap().unwrap().state;
        assert_eq!(state, ArState::Failed { rc: 61 });
        assert!(pending.get(Cookie::new(cookie)).is_none());
    }
    store.insert(waiting_record(3)).unwrap();
    let plan = plan_dispatch("/m", true, None, true, assigned(3, ActionKind::Archive)).unwrap();
    let got = claim(&mut store, &mut pending, plan, Ok(None), true, Timestamp::now());
    assert!(matches!(got, Claim::Ready(_)));
    assert_eq!(claimed_by(&store, &AgentId::new("m0"), Cookie::new(3)), Ok(true));
    assert_eq!(claimed_by(&store, &AgentId::new("m1"), Cookie::new(3)), Ok(false));
    assert_eq!(claimed_by(&store, &AgentId::new("m0"), Cookie::new(2)), Ok(false));
    assert_eq!(claimed_by(&store, &AgentId::new("m0"), Cookie::new(9)), Ok(false));
}

#[test]
fn what_was_archived_can_be_restored_until_it_is_cleared() {
    let mut store = MemStore::new();
    let mut pending = PendingPaths::new();
    for cookie in 1..4 {
        store.insert(waiting_record(cookie)).unwrap();
    }
    let ns = XattrNamespace::User;
    let restore = |cookie: u64| {
        plan_dispatch("/m", false, Some(ns), true, assigned(cookie, ActionKind::Restore)).unwrap()
    };
    let mut attrs = FileAttrs::new();
    write_obj(&mut attrs, ns, &object());
    let found = read_obj("/m/f", &attrs, ns);
    match claim(&mut store, &mut pending, restore(1), found, false, Timestamp::now()) {
        Claim::Ready(r) => assert_eq!(r.existing, Some(object())),
        other => panic!("expected Ready, got {other:?}"),
    }
    attrs.remove(&ns.url_name());
    let found = read_obj("/m/f", &attrs, ns);
    let got = claim(&mut store, &mut pending, restore(2), found, false, Timestamp::now());
    assert_eq!(got, Claim::Refused { rc: 5, stored: Ok(()), completion: None });
    clear_obj(&mut attrs, ns);
    let found = read_obj("/m/f", &attrs, ns);
    let got = claim(&mut store, &mut pending, restore(3), found, false, Timestamp::now());
    assert_eq!(got, Claim::Refused { rc: 61, stored: Ok(()), completion: None });
}

#[test]
fn finished_or_unknown_actions_are_not_claimed() {
    let mut store = MemStore::new();
    let mut pending = PendingPaths::new();
    store.insert(terminal_record(1)).unwrap();
    let plan = plan_dispatch("/m", false, None, true, assigned(1, ActionKind::Archive)).unwrap();
    let got = claim(&mut store, &mut pending, plan, Ok(None), false, Timestamp::now());
    assert!(matches!(got, Claim::NotClaimed(StoreError::TerminalTransition { .. })));
    let plan = plan_dispatch("/m", false, None, true, assigned(9, ActionKind::Archive)).unwrap();
    let got = claim(&mut store, &mut pending, plan, Ok(None), false, Timestamp::now());
    assert_eq!(got, Claim::NotClaimed(StoreError::UnknownCookie(Cookie::new(9))));
}

#[test]
fn undone_dispatch_waits_again() {
    let mut store = MemStore::new();
    let mut pending = PendingPaths::new();
    store.insert(waiting_record(1)).unwrap();
    let plan = plan_dispatch("/m", false, None, true, assigned(1, ActionKind::Archive)).unwrap();
    claim(&mut store, &mut pending, plan, Ok(None), false, Timestamp::now());
    assert!(pending.get(Cookie::new(1)).is_some());
    undo_dispatch(&mut store, &mut pending, Cookie::new(1)).unwrap();
    assert!(pending.get(Cookie::new(1)).is_none());
    assert_eq!(store.get(Cookie::new(1)).unwrap().unwrap().state, ArState::Waiting);
}

#[test]
fn milliseconds_are_bounded() {
    assert_eq!(now_ms(Timestamp::from_nanos(-1)), 0);
    assert_eq!(now_ms(Timestamp::from_nanos(1_999_999)), 1);
    assert_eq!(now_ms(Timestamp::from_nanos(i128::MAX)), u64::MAX);
}

// ---------------------------------------------------------------------------
// Reports
// ---------------------------------------------------------------------------

#[test]
fn progress_moves_the_store_only() {
    let mut store = MemStore::new();
    let mut pending = PendingPaths::new();
    store.insert(waiting_record(1)).unwrap();
    pending.insert(Cookie::new(1), "/p".into(), ActionKind::Archive);
    let s = ActionStatus::Progress { cookie: Cookie::new(1), bytes_advanced: 10 };
    let e = apply_status(&mut store, &mut pending, s, true, false, true);
    assert_eq!(e.stored, Ok(()));
    assert!(e.completion.is_none() && e.discard.is_none());
    assert_eq!(store.get(Cookie::new(1)).unwrap().unwrap().progress, Extent::new(10, 0));
    assert!(pending.get(Cookie::new(1)).is_some());
    let s = ActionStatus::Progress { cookie: Cookie::new(1), bytes_advanced: 9 };
    let e = apply_status(&mut store, &mut pending, s, true, false, true);
    assert!(matches!(e.stored, Err(StoreError::ProgressRegression { .. })));
}

#[test]
fn success_is_announced_with_the_kind() {
    let mut store = MemStore::new();
    let mut pending = PendingPaths::new();
    store.insert(started_record(1)).unwrap();
    pending.insert(Cookie::new(1), "/p".into(), ActionKind::Restore);
    let s = ActionStatus::Completed { cookie: Cookie::new(1), total_bytes: 7, result: None };
    assert!(object_target(&pending, Some(XattrNamespace::User), &s).is_none());
    let e = apply_status(&mut store, &mut pending, s, true, false, true);
    let c = e.completion.unwrap();
    assert_eq!(c.status, EndStatus::Success);
    assert_eq!(c.kind, ActionKind::Restore);
    assert_eq!(c.extent(), Extent::new(7, 0));
    assert_eq!(c.restore_temp_path, Some(restore_temp_path(Cookie::new(1))));
    assert!(e.discard.is_none());
    assert_eq!(store.get(Cookie::new(1)).unwrap().unwrap().state, ArState::Succeed { rc: 0 });
    assert!(pending.get(Cookie::new(1)).is_none());
}

#[test]
fn unrecorded_object_is_a_failure() {
    let mut store = MemStore::new();
    let mut pending = PendingPaths::new();
    store.insert(started_record(1)).unwrap();
    pending.insert(Cookie::new(1), "/p".into(), ActionKind::Archive);
    let s = ActionStatus::Completed {
        cookie: Cookie::new(1),
        total_bytes: 7,
        result: Some(object()),
    };
    assert_eq!(object_target(&pending, Some(XattrNamespace::User), &s).as_deref(), Some("/p"));
    assert!(object_target(&pending, None, &s).is_none());
    let e = apply_status(&mut store, &mut pending, s, true, true, false);
    let done = e.completion.unwrap();
    assert_eq!(done.status, EndStatus::Failed(5));
    assert_eq!((done.cookie, done.total_bytes, done.kind), (Cookie::new(1), 0, ActionKind::Archive));
    assert_eq!(store.get(Cookie::new(1)).unwrap().unwrap().state, ArState::Failed { rc: 5 });
    assert!(pending.get(Cookie::new(1)).is_none());
    store.insert(started_record(2)).unwrap();
    let s = ActionStatus::Completed {
        cookie: Cookie::new(2),
        total_bytes: 7,
        result: Some(object()),
    };
    let e = apply_status(&mut store, &mut pending, s, false, true, false);
    assert!(e.completion.is_none());
}

#[test]
fn failure_is_announced_and_cleaned_up() {
    let mut store = MemStore::new();
    let mut pending = PendingPaths::new();
    store.insert(started_record(1)).unwrap();
    let s = ActionStatus::Failed { cookie: Cookie::new(1), errno: 28, reason: "full".into() };
    let e = apply_status(&mut store, &mut pending, s, true, false, true);
    let c = e.completion.unwrap();
    assert_eq!(c.status, EndStatus::Failed(28));
    assert_eq!(c.kind, ActionKind::Archive);
    assert_eq!(c.total_bytes, 0);
    assert!(c.restore_temp_path.is_none());
    assert_eq!(e.discard, Some(restore_temp_path(Cookie::new(1))));
    assert_eq!(store.get(Cookie::new(1)).unwrap().unwrap().state, ArState::Failed { rc: 28 });
    let s = ActionStatus::Failed { cookie: Cookie::new(1), errno: 28, reason: "again".into() };
    let e = apply_status(&mut store, &mut pending, s, false, false, false);
    assert!(matches!(e.stored, Err(StoreError::TerminalTransition { .. })));
    assert!(e.completion.is_none() && e.discard.is_none());
}

// ---------------------------------------------------------------------------
// Recovery and intake
// ---------------------------------------------------------------------------

#[test]
fn waiting_records_are_requeued() {
    let mut store = MemStore::new();
    let mut queue = FifoPerKind::new();
    store.insert(waiting_record(1)).unwrap();
    store.insert(waiting_record(2)).unwrap();
    let r = recover(&mut store, &mut queue).unwrap();
    assert_eq!(r.requeued, 2);
    assert_eq!(queue.queue_depth(), 2);
    assert!(store.get(Cookie::new(1)).unwrap().is_some());
    assert!(store.get(Cookie::new(2)).unwrap().is_some());
    let r = store.get(Cookie::new(1)).unwrap().unwrap();
    assert!(matches!(r.state, ArState::Waiting));
}

#[test]
fn terminal_records_are_deleted() {
    let mut store = MemStore::new();
    let mut queue = FifoPerKind::new();
    store.insert(terminal_record(10)).unwrap();
    store.insert(terminal_record(11)).unwrap();
    let r = recover(&mut store, &mut queue).unwrap();
    assert_eq!(r.cleaned, 2);
    assert!(r.failures.is_empty());
    assert!(store.get(Cookie::new(10)).unwrap().is_none());
    assert!(store.get(Cookie::new(11)).unwrap().is_none());
    assert_eq!(store.len().unwrap(), 0);
}

#[test]
fn started_record_rolls_back_after_grace_expires() {
    let mut store = MemStore::new();
    let mut queue = FifoPerKind::new();
    store.insert(started_record(20)).unwrap();
    let mut r = recover(&mut store, &mut queue).unwrap();
    let w = r.watches.remove(0);
    let wait = remaining_grace(Timestamp::now(), w.since_unix_ms, Span::from_millis(10));
    assert_eq!(wait, Span::from_nanos(0));
    assert_eq!(grace_expired(&mut store, &mut queue, w.action), Expiry::Requeued(Ok(())));
    let r = store.get(Cookie::new(20)).unwrap().unwrap();
    assert!(
        matches!(r.state, ArState::Waiting),
        "expected Waiting after grace expiry, got {:?}",
        r.state
    );
    assert_eq!(queue.queue_depth(), 1);
}

#[test]
fn started_record_not_rolled_back_if_agent_claims_it() {
    let mut store = MemStore::new();
    let mut queue = FifoPerKind::new();
    store.insert(started_record(30)).unwrap();
    let mut r = recover(&mut store, &mut queue).unwrap();
    store.transition(Cookie::new(30), ArState::Succeed { rc: 0 }).unwrap();
    let w = r.watches.remove(0);
    assert_eq!(grace_expired(&mut store, &mut queue, w.action), Expiry::Settled);
    let r = store.get(Cookie::new(30)).unwrap().unwrap();
    assert!(matches!(r.state, ArState::Succeed { rc: 0 }));
    assert_eq!(queue.queue_depth(), 0);
}

#[test]
fn empty_store_recover_is_noop() {
    let mut store = MemStore::new();
    let mut queue = FifoPerKind::new();
    let r = recover(&mut store, &mut queue).unwrap();
    assert_eq!((r.requeued, r.watches.len(), r.cleaned), (0, 0, 0));
    assert_eq!(store.len().unwrap(), 0);
}

#[test]
fn recovery_sorts_every_record() {
    let mut store = MemStore::new();
    let mut queue = FifoPerKind::new();
    store.insert(waiting_record(1)).unwrap();
    store.insert(started_record(2)).unwrap();
    store.insert(terminal_record(3)).unwrap();
    let r = recover(&mut store, &mut queue).unwrap();
    assert_eq!((r.requeued, r.watches.len(), r.cleaned), (1, 1, 1));
    assert_eq!(store.len().unwrap(), 2);
    let again = recover(&mut store, &mut FifoPerKind::new()).unwrap();
    assert_eq!((again.requeued, again.watches.len(), again.cleaned), (1, 1, 0));
}

#[test]
fn grace_is_counted_from_the_start() {
    let grace = Span::from_secs(60);
    let started = 1_000_000;
    let at = |ms: i128| Timestamp::from_nanos(ms * 1_000_000);
    assert_eq!(remaining_grace(at(1_000_000), started, grace), grace);
    assert_eq!(remaining_grace(at(0), started, grace), grace);
    assert_eq!(remaining_grace(at(1_020_000), started, grace), Span::from_secs(40));
    assert_eq!(remaining_grace(at(1_060_000), started, grace), Span::from_secs(0));
    assert_eq!(remaining_grace(at(9_000_000), started, grace), Span::from_secs(0));
}

fn received(cookie: u64) -> ReceivedAction {
    ReceivedAction {
        cookie: Cookie::new(cookie),
        fid: Fid::new(1, cookie as u32, 0),
        dfid: Fid::new(1, cookie as u32, 0),
        archive_id: ArchiveId::new(1),
        kind: ActionKind::Archive,
        extent: Extent::whole(),
        gid: 0,
        data: Bytes::new(),
        fsname: "mock".into(),
    }
}

#[test]
fn known_cookies_are_not_queued_twice() {
    let mut store = MemStore::new();
    let mut queue = FifoPerKind::new();
    let now = Timestamp::from_nanos(4);
    ingest(&mut store, &mut queue, received(1), now).unwrap();
    assert_eq!(store.get(Cookie::new(1)).unwrap().unwrap().created_at, now);
    assert_eq!(
        ingest(&mut store, &mut queue, received(1), now).unwrap_err(),
        StoreError::DuplicateCookie(Cookie::new(1))
    );
    assert_eq!(queue.queue_depth(), 1);
    let out = ingest_batch(&mut store, &mut queue, vec![received(1), received(2), received(2)]);
    assert_eq!(out.refused.len(), 2);
    assert!(!out.backend_failed);
    assert_eq!(queue.queue_depth(), 2);
    assert_eq!(store.len().unwrap(), 2);
}

/// A store that cannot write the record of one cookie.
struct Flaky {
    inner: MemStore,
    bad: u64,
}

impl Flaky {
    fn check(&self, cookie: Cookie) -> StoreResult<()> {
        if cookie.get() == self.bad {
            Err(StoreError::Backend("disk".into()))
        } else {
            Ok(())
        }
    }
}

impl ActionStore for Flaky {
    fn records(&self) -> Records {
        unreachable!("a model is not computed")
    }

    fn reliable(&self) -> bool {
        unreachable!("a model is not computed")
    }

    fn insert(&mut self, rec: ActionRecord) -> StoreResult<()> {
        self.check(rec.action.cookie)?;
        self.inner.insert(rec)
    }

    fn transition(&mut self, cookie: Cookie, new: ArState) -> StoreResult<()> {
        self.check(cookie)?;
        self.inner.transition(cookie, new)
    }

    fn update_progress(&mut self, cookie: Cookie, e: Extent) -> StoreResult<()> {
        self.check(cookie)?;
        self.inner.update_progress(cookie, e)
    }

    fn delete(&mut self, cookie: Cookie) -> StoreResult<()> {
        self.check(cookie)?;
        self.inner.delete(cookie)
    }

    fn get(&self, cookie: Cookie) -> StoreResult<Option<ActionRecord>> {
        self.inner.get(cookie)
    }

    fn load_all(&self) -> StoreResult<Vec<ActionRecord>> {
        self.inner.load_all()
    }

    fn list_by_agent(&self, agent: &AgentId) -> StoreResult<Vec<ActionRecord>> {
        self.inner.list_by_agent(agent)
    }

    fn len(&self) -> StoreResult<usize> {
        self.inner.len()
    }
}

#[test]
fn a_failed_insert_does_not_stop_the_batch() {
    let mut store = Flaky { inner: MemStore::new(), bad: 2 };
    let mut queue = FifoPerKind::new();
    let batch = vec![received(1), received(2), received(1), received(3), received(4)];
    let out = ingest_batch(&mut store, &mut queue, batch);
    assert!(out.backend_failed);
    assert_eq!(
        out.refused,
        vec![
            (Cookie::new(2), StoreError::Backend("disk".into())),
            (Cookie::new(1), StoreError::DuplicateCookie(Cookie::new(1))),
        ]
    );
    assert_eq!(store.len().unwrap(), 3);
    let mut registry = AgentRegistry::new();
    registry.register(AgentId::new("m0"), &[ArchiveId::new(1)]);
    let order: Vec<u64> =
        queue.pick_ready(&registry, 9).iter().map(|a| a.action.cookie.get()).collect();
    assert_eq!(order, vec![1, 3, 4]);
}

#[test]
fn a_failed_delete_does_not_stop_recovery() {
    let mut store = Flaky { inner: MemStore::new(), bad: 2 };
    let mut queue = FifoPerKind::new();
    for cookie in 1..4 {
        store.inner.insert(terminal_record(cookie)).unwrap();
    }
    store.inner.insert(waiting_record(4)).unwrap();
    store.inner.insert(started_record(5)).unwrap();
    let rec = recover(&mut store, &mut queue).unwrap();
    assert_eq!((rec.requeued, rec.watches.len(), rec.cleaned), (1, 1, 3));
    assert_eq!(rec.failures, vec![(Cookie::new(2), StoreError::Backend("disk".into()))]);
    let mut left: Vec<u64> =
        store.load_all().unwrap().iter().map(|r| r.action.cookie.get()).collect();
    left.sort_unstable();
    assert_eq!(left, vec![2, 4, 5]);
    assert_eq!(queue.queue_depth(), 1);
}

// ---------------------------------------------------------------------------
// Lost agents
// ---------------------------------------------------------------------------

fn claimed_record(cookie: u64, agent: &str, since_unix_ms: u64) -> ActionRecord {
    let mut r = waiting_record(cookie);
    r.state = ArState::Started { agent: AgentId::new(agent), since_unix_ms };
    r
}

#[test]
fn work_of_a_lost_agent_is_dispatched_anew() {
    let mut store = MemStore::new();
    let mut queue = FifoPerKind::new();
    let mut registry = AgentRegistry::new();
    let (m0, m1) = (AgentId::new("m0"), AgentId::new("m1"));
    registry.register(m0.clone(), &[ArchiveId::new(1)]);
    registry.register(m1.clone(), &[ArchiveId::new(1)]);
    store.insert(claimed_record(1, "m0", 10)).unwrap();
    store.insert(claimed_record(2, "m1", 10)).unwrap();
    store.insert(claimed_record(3, "m0", 11)).unwrap();
    store.insert(terminal_record(4)).unwrap();
    let watches = agent_lost(&store, &mut queue, &mut registry, &m0).unwrap();
    let left: Vec<String> = list_agents(&registry).into_iter().map(|a| a.agent_id).collect();
    assert_eq!(left, vec!["m1".to_string()]);
    let mut seen: Vec<(u64, u64)> =
        watches.iter().map(|w| (w.action.cookie.get(), w.since_unix_ms)).collect();
    seen.sort_unstable();
    assert_eq!(seen, vec![(1, 10), (3, 11)]);
    // Nothing changes hands before the grace period is over.
    assert_eq!(queue.queue_depth(), 0);
    assert_eq!(
        store.get(Cookie::new(1)).unwrap().unwrap().state,
        ArState::Started { agent: m0.clone(), since_unix_ms: 10 }
    );
    let done = reassign(&mut store, &mut queue, &m0, watches);
    assert_eq!(done, Reassignment { requeued: 2, failures: vec![] });
    for (cookie, waits) in [(1, true), (2, false), (3, true), (4, false)] {
        let r = store.get(Cookie::new(cookie)).unwrap().unwrap();
        assert_eq!(r.state == ArState::Waiting, waits);
    }
    let picked = queue.pick_ready(&registry, 9);
    let mut again: Vec<(u64, String)> =
        picked.iter().map(|a| (a.action.cookie.get(), a.agent.to_string())).collect();
    again.sort_unstable();
    assert_eq!(again, vec![(1, "m1".to_string()), (3, "m1".to_string())]);
}

#[test]
fn an_agent_that_comes_back_keeps_its_work() {
    let mut store = MemStore::new();
    let mut queue = FifoPerKind::new();
    let m0 = AgentId::new("m0");
    for cookie in 1..4 {
        store.insert(claimed_record(cookie, "m0", 10)).unwrap();
    }
    let watches = running_on(&store, &m0).unwrap();
    assert_eq!(watches.len(), 3);
    // One action has finished, one is gone, and one was claimed anew.
    store.transition(Cookie::new(1), ArState::Succeed { rc: 0 }).unwrap();
    store.delete(Cookie::new(2)).unwrap();
    let anew = ArState::Started { agent: m0.clone(), since_unix_ms: 50 };
    store.transition(Cookie::new(3), anew.clone()).unwrap();
    let done = reassign(&mut store, &mut queue, &m0, watches);
    assert_eq!(done, Reassignment { requeued: 0, failures: vec![] });
    assert_eq!(queue.queue_depth(), 0);
    assert_eq!(store.get(Cookie::new(3)).unwrap().unwrap().state, anew);
    assert_eq!(store.get(Cookie::new(1)).unwrap().unwrap().state, ArState::Succeed { rc: 0 });
}

#[test]
fn a_failed_rollback_does_not_stop_reassignment() {
    let mut store = Flaky { inner: MemStore::new(), bad: 2 };
    let mut queue = FifoPerKind::new();
    let mut registry = AgentRegistry::new();
    let m0 = AgentId::new("m0");
    for cookie in 1..4 {
        store.inner.insert(claimed_record(cookie, "m0", 10)).unwrap();
    }
    let mut watches = agent_lost(&store, &mut queue, &mut registry, &m0).unwrap();
    watches.sort_by_key(|w| w.action.cookie.get());
    let done = reassign(&mut store, &mut queue, &m0, watches);
    assert_eq!(done.requeued, 2);
    assert_eq!(done.failures, vec![(Cookie::new(2), StoreError::Backend("disk".into()))]);
    registry.register(AgentId::new("m1"), &[ArchiveId::new(1)]);
    let order: Vec<u64> =
        queue.pick_ready(&registry, 9).iter().map(|a| a.action.cookie.get()).collect();
    assert_eq!(order, vec![1, 3]);
    let kept = store.get(Cookie::new(2)).unwrap().unwrap();
    assert!(matches!(kept.state, ArState::Started { .. }));
}

#[test]
fn an_action_is_given_back_once() {
    let mut store = MemStore::new();
    let mut queue = FifoPerKind::new();
    let m0 = AgentId::new("m0");
    store.insert(claimed_record(1, "m0", 10)).unwrap();
    let mut watches = running_on(&store, &m0).unwrap();
    watches.append(&mut running_on(&store, &m0).unwrap());
    let done = reassign(&mut store, &mut queue, &m0, watches);
    assert_eq!(done, Reassignment { requeued: 1, failures: vec![] });
    assert_eq!(queue.queue_depth(), 1);
}

#[test]
fn an_action_runs_from_request_to_success() {
    let mut ct = MockCopytool::new();
    let mut store = MemStore::new();
    let mut queue = FifoPerKind::new();
    let mut registry = AgentRegistry::new();
    let mut pending = PendingPaths::new();
    registry.register(AgentId::new("m0"), &[ArchiveId::new(1)]);
    ct.enqueue(received(0xa1));
    let batch = ct.recv().unwrap();
    assert!(ingest_batch(&mut store, &mut queue, batch).refused.is_empty());
    for a in queue.pick_ready(&registry, 32) {
        let plan = plan_dispatch("/m", false, Some(XattrNamespace::User), true, a).unwrap();
        let got = claim(&mut store, &mut pending, plan, Ok(None), false, Timestamp::now());
        let sent = match got {
            Claim::Ready(r) => finish_dispatch(r, None),
            other => panic!("expected Ready, got {other:?}"),
        };
        let report = terminal_report(sent.action.cookie, 3, Ok(Some(object())));
        let target = object_target(&pending, Some(XattrNamespace::User), &report);
        assert_eq!(target, Some(sent.primary_path));
        apply_status(&mut store, &mut pending, report, false, false, false);
    }
    assert_eq!(store.get(Cookie::new(0xa1)).unwrap().unwrap().state, ArState::Succeed { rc: 0 });
}

// ---------------------------------------------------------------------------
// Control
// ---------------------------------------------------------------------------

#[test]
fn control_lists_and_counts() {
    let mut store = MemStore::new();
    let mut registry = AgentRegistry::new();
    registry.register_at(
        AgentId::new("m0"),
        &[ArchiveId::new(2), ArchiveId::new(1)],
        Timestamp::from_nanos(3_500_000_000),
    );
    store.insert(waiting_record(1)).unwrap();
    store.insert(started_record(2)).unwrap();
    store.insert(terminal_record(3)).unwrap();
    let s = status(&store, &registry).unwrap();
    assert_eq!((s.actions_waiting, s.actions_started, s.actions_total), (1, 1, 3));
    let agents = list_agents(&registry);
    assert_eq!(agents[0].agent_id, "m0");
    assert_eq!(agents[0].registered_at_secs, 3);
    let mut ids = agents[0].archive_ids.clone();
    ids.sort();
    assert_eq!(ids, vec![1, 2]);
    assert_eq!(list_actions(&store, "", 0).unwrap().len(), 3);
    assert_eq!(list_actions(&store, "", 9).unwrap().len(), 0);
    let started = list_actions(&store, "Started", 1).unwrap();
    assert_eq!(started.len(), 1);
    assert_eq!(started[0].cookie, 2);
    assert_eq!(started[0].agent_id, "old-mover");
    assert_eq!(started[0].state, "started");
    assert_eq!(started[0].kind, "archive");
    assert_eq!(started[0].fid, "[0x200000401:0x2:0x0]");
    assert_eq!(started[0].since_ms, 0);
    assert_eq!(
        list_actions(&store, "Done", 0).unwrap_err(),
        ControlError::InvalidArgument(
            "unknown state_filter \"done\"; valid: waiting, started, succeed, failed, canceled"
                .into()
        )
    );
}

// ---------------------------------------------------------------------------
// Settings, command line, mock actions
// ---------------------------------------------------------------------------

#[test]
fn settings_and_their_defaults() {
    let mut cfg = HsmdConfig::defaults();
    assert_eq!(cfg.mode, Mode::Mock);
    assert_eq!(cfg.mountpoint, "/mnt/lustre");
    assert_eq!(cfg.transport, Transport { socket_path: "/var/run/hsmd/agent.sock".into() });
    assert_eq!(
        cfg.scheduler,
        SchedulerCfg { tick_interval_ms: 50, max_per_tick: 32, grace_ms: 600_000 }
    );
    assert_eq!(cfg.log, LogCfg { filter: None, format: LogFormat::Pretty });
    let d = cfg.to_daemon_config();
    assert_eq!(d.xattr_namespace, Some(XattrNamespace::Trusted));
    assert_eq!(d.recovery_grace_period, Span::from_secs(600));
    assert_eq!(DaemonConfig { xattr_namespace: None, ..d }, DaemonConfig::default());
    cfg.mode = Mode::Live;
    cfg.xattr.namespace = XattrNs::User;
    cfg.scheduler.tick_interval_ms = 100;
    let d = cfg.to_daemon_config();
    assert!(d.use_lustre_fid_path);
    assert_eq!(d.tick_interval, Span::from_millis(100));
    assert_eq!(d.xattr_namespace, Some(XattrNamespace::User));
    assert_eq!(cfg.log.effective_filter(None), "info");
    assert_eq!(cfg.log.effective_filter(Some("debug".into())), "debug");
    cfg.log.filter = Some("warn".into());
    assert_eq!(cfg.log.effective_filter(Some("debug".into())), "warn");
}

fn words(w: &[&str]) -> Vec<String> {
    w.iter().map(|s| s.to_string()).collect()
}

#[test]
fn daemon_command_line() {
    assert_eq!(cli::parse_args(&words(&["--config", "a", "-c", "b"])), Ok("b".to_string()));
    assert_eq!(cli::parse_args(&words(&["-h", "x"])), Err(CliError::Help));
    let bad = |w: &[&str]| match cli::parse_args(&words(w)) {
        Err(CliError::Invalid(m)) => m,
        other => panic!("unexpected {other:?}"),
    };
    assert_eq!(bad(&[]), "missing --config");
    assert_eq!(bad(&["-c"]), "--config requires a path argument");
    assert_eq!(bad(&["-c", "a", "b"]), "unknown argument: b");
}

fn entry(kind: &str, length: Option<u64>) -> MockAction {
    MockAction {
        cookie: 171,
        fid_seq: 0x2_0000_0001,
        fid_oid: 18,
        fid_ver: 0,
        archive_id: 1,
        kind: kind.into(),
        length,
    }
}

#[test]
fn mock_entries_become_requests() {
    let r = mock_action(&entry("restore", None)).unwrap();
    assert_eq!(r.cookie, Cookie::new(171));
    assert_eq!(r.kind, ActionKind::Restore);
    assert_eq!(r.fid, Fid::new(0x2_0000_0001, 18, 0));
    assert_eq!(r.dfid, r.fid);
    assert!(r.extent.is_whole_file());
    assert_eq!(r.fsname, "mock");
    assert!(mock_action(&entry("archive", Some(0))).unwrap().extent.is_whole_file());
    assert_eq!(mock_action(&entry("remove", Some(9))).unwrap().extent, Extent::new(0, 9));
    assert_eq!(mock_action(&entry("cancel", None)).unwrap().kind, ActionKind::Cancel);
    assert_eq!(mock_action(&entry("Archive", None)).unwrap_err(), "unknown kind \"Archive\"");
}

#[test]
fn mock_file_lines() {
    let text = "a\n\n  \t\nb\r\n\u{2003}\nc";
    let n = new_lines(text, 0);
    assert_eq!(n.total, 3);
    assert_eq!(n.lines, vec!["a", "b", "c"]);
    let n = new_lines(text, 2);
    assert_eq!(n.lines, vec!["c"]);
    let n = new_lines("a\n", 2);
    assert_eq!((n.total, n.lines.len()), (1, 0));
    assert_eq!(new_lines("", 0).total, 0);
    for s in ["x\r\ny\r", "\r\n\r\n", " z \nw", "q\n\n"] {
        let want: Vec<&str> = s.lines().filter(|l| !l.trim().is_empty()).collect();
        assert_eq!(new_lines(s, 0).lines, want);
    }
}

#[test]
fn daemon_error_messages() {
    let e = DaemonError::from(StoreError::UnknownCookie(Cookie::new(1)));
    assert_eq!(e.to_string(), "store error: cookie 0x1 not found in store");
    let e = DaemonError::from(HsmError::EmptyArchiveList);
    assert!(e.to_string().starts_with("hsm error: "));
    assert_eq!(DaemonError::ChannelClosed("x").to_string(), "channel closed: x");
    assert_eq!(
        DaemonError::NoCapableAgent(3).to_string(),
        "no agent registered for archive_id 3"
    );
}
