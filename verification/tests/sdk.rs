use hsm::model::{ActionKind, ArchiveId, BackendObject, Cookie, Extent, Fid, Span};
use hsm::proto::{
    hash_from_proto, kind_from_number, kind_to_number, ActionItem, ObjectMsg, ToPlugin, Welcome,
    KIND_ARCHIVE, KIND_CANCEL, KIND_REMOVE, KIND_RESTORE, KIND_UNSPECIFIED,
};
use hsm::sdk::ctx::cancel_outcome;
use hsm::sdk::inflight::InFlight;
use hsm::sdk::run::{
    action_of, build_ctx_from_proto, expect_welcome, handle_action_item, mover_call,
    progress_status, terminal_status, HandshakeError, ItemPlan, MoverCall, RunConfig, VERSION,
};
use hsm::sdk::{ActionCtx, MoverError, ProgressConfig, ProgressEvent, ProgressReporter};
use tokio_util::sync::CancellationToken;

fn reporter() -> ProgressReporter {
    ProgressReporter::with_defaults(Cookie::new(1), Extent::whole(), Span::from_secs(0))
}

fn transfer() -> (Cookie, Extent) {
    (Cookie::new(0xabc), Extent::new(0, 1024 * 1024 * 1024))
}

#[test]
fn check_cancel_signals_when_token_tripped() {
    let token = CancellationToken::new();
    let ctx = ActionCtx::builder()
        .cookie(Cookie::new(1))
        .fid(Fid::zero())
        .archive_id(ArchiveId::new(1))
        .kind(ActionKind::Archive)
        .progress(reporter())
        .cancel(token.clone())
        .build();
    assert!(ctx.check_cancel().is_ok());
    token.cancel();
    assert!(ctx.check_cancel().is_err());
}

#[test]
fn builder_defaults_are_safe() {
    let ctx = ActionCtx::builder()
        .cookie(Cookie::new(7))
        .fid(Fid::new(1, 2, 0))
        .archive_id(ArchiveId::new(3))
        .kind(ActionKind::Restore)
        .progress(reporter())
        .build();
    assert_eq!(ctx.extent, Extent::whole());
    assert!(ctx.primary_path.is_empty());
    assert!(ctx.write_path.is_none());
    assert!(ctx.existing.is_none());
    assert!(ctx.hint.is_empty());
    assert!(!ctx.cancel.is_cancelled());
}

#[test]
#[should_panic(expected = "cookie required")]
fn builder_panics_on_missing_required_field() {
    let _ = ActionCtx::builder().progress(reporter()).build();
}

#[test]
fn errnos_are_stable_and_distinct_per_class() {
    assert_eq!(MoverError::Cancelled.errno(), 125);
    assert_eq!(MoverError::Transient("x".into()).errno(), 11);
    assert_eq!(MoverError::Integrity("x".into()).errno(), 5);
    assert_eq!(MoverError::Other("x".into()).errno(), 5);
    assert_eq!(MoverError::Backend { errno: 28, reason: "ENOSPC".into() }.errno(), 28);
}

#[test]
fn emits_when_bytes_threshold_hit() {
    let (c, e) = transfer();
    let cfg = ProgressConfig { bytes_threshold: 1024, time_threshold: Span::from_secs(10) };
    let t0 = Span::from_secs(100);
    let mut r = ProgressReporter::new(c, e, cfg, t0);
    assert!(r.advance(512, t0).is_none());
    let ev = r.advance(512, t0).unwrap();
    assert_eq!(ev.cookie, c);
    assert_eq!(ev.bytes_advanced, 1024);
}

#[test]
fn emits_when_time_threshold_hit_even_with_few_bytes() {
    let (c, e) = transfer();
    let cfg = ProgressConfig { bytes_threshold: u64::MAX, time_threshold: Span::from_millis(20) };
    let mut r = ProgressReporter::new(c, e, cfg, Span::from_millis(0));
    assert!(r.advance(8, Span::from_millis(0)).is_none());
    let ev = r.advance(8, Span::from_millis(40)).unwrap();
    assert_eq!(ev.bytes_advanced, 16);
}

#[test]
fn cumulative_total_keeps_growing_across_events() {
    let (c, e) = transfer();
    let cfg = ProgressConfig { bytes_threshold: 100, time_threshold: Span::from_secs(10) };
    let t0 = Span::from_secs(0);
    let mut r = ProgressReporter::new(c, e, cfg, t0);
    let ev1 = r.advance(150, t0).unwrap();
    let ev2 = r.advance(150, t0).unwrap();
    assert_eq!(ev1.bytes_advanced, 150);
    assert_eq!(ev2.bytes_advanced, 300);
    assert_eq!(r.total_advanced(), 300);
}

#[test]
fn flush_emits_final_event_unconditionally() {
    let (c, e) = transfer();
    let cfg = ProgressConfig { bytes_threshold: u64::MAX, time_threshold: Span::from_secs(10) };
    let t0 = Span::from_secs(0);
    let mut r = ProgressReporter::new(c, e, cfg, t0);
    assert!(r.advance(7, t0).is_none());
    let ev = r.flush(t0);
    assert_eq!(ev.bytes_advanced, 7);
}

#[test]
fn throttle_counts_from_the_last_event() {
    let (c, e) = transfer();
    let cfg = ProgressConfig { bytes_threshold: 100, time_threshold: Span::from_secs(10) };
    let mut r = ProgressReporter::new(c, e, cfg, Span::from_secs(50));
    assert!(r.advance(99, Span::from_secs(51)).is_none());
    assert!(r.advance(1, Span::from_secs(51)).is_some());
    assert!(r.advance(99, Span::from_secs(60)).is_none());
    assert!(r.advance(0, Span::from_secs(61)).is_some());
    assert!(r.advance(1, Span::from_secs(0)).is_none());
    assert_eq!(r.cookie(), c);
}

#[test]
fn mover_error_messages() {
    assert_eq!(MoverError::Cancelled.to_string(), "transfer cancelled by caller");
    assert_eq!(
        MoverError::Backend { errno: 28, reason: "full".into() }.to_string(),
        "backend errno 28: full"
    );
    assert_eq!(MoverError::Transient("x".into()).to_string(), "transient backend failure: x");
    assert_eq!(MoverError::Integrity("x".into()).to_string(), "integrity check failed: x");
    assert_eq!(MoverError::Other("x".into()).to_string(), "x");
    assert_eq!(cancel_outcome(true), Err(MoverError::Cancelled));
    assert_eq!(cancel_outcome(false), Ok(()));
}

fn work(kind: i32) -> ActionItem {
    ActionItem {
        cookie: 9,
        archive_id: 4,
        kind,
        primary_path: "/p".into(),
        write_path: "".into(),
        offset: 1,
        length: 2,
        data: vec![7, 8],
        existing: Some(ObjectMsg { uuid: "u".into(), hash: vec![1], url: "x://".into() }),
        fid_seq: 1,
        fid_oid: 2,
        fid_ver: 3,
        lustre_path: "".into(),
    }
}

#[test]
fn items_are_run_cancelled_or_refused() {
    assert_eq!(handle_action_item(&work(KIND_CANCEL)), ItemPlan::Cancel(Cookie::new(9)));
    assert_eq!(
        handle_action_item(&work(KIND_RESTORE)),
        ItemPlan::Run {
            cookie: Cookie::new(9),
            kind: ActionKind::Restore,
            extent: Extent::new(1, 2),
        }
    );
    for unknown in [KIND_UNSPECIFIED, 17, -1] {
        match handle_action_item(&work(unknown)) {
            ItemPlan::Refuse(s) => {
                assert_eq!(s.cookie, 9);
                assert_eq!(s.errno, 22);
                assert!(s.completed);
                assert_eq!(s.bytes_advanced, 0);
            }
            other => panic!("expected Refuse, got {other:?}"),
        }
    }
}

#[test]
fn kind_numbers_round_trip() {
    for (k, n) in [
        (ActionKind::Archive, KIND_ARCHIVE),
        (ActionKind::Restore, KIND_RESTORE),
        (ActionKind::Remove, KIND_REMOVE),
        (ActionKind::Cancel, KIND_CANCEL),
    ] {
        assert_eq!(kind_to_number(k), n);
        assert_eq!(kind_from_number(n), Some(k));
    }
    assert_eq!(kind_from_number(99), None);
}

fn some_object() -> BackendObject {
    BackendObject { uuid: "k".into(), hash: [3; 32], url: "s3://k".into() }
}

#[test]
fn mover_calls_need_an_object() {
    let c = Cookie::new(0x2a);
    assert_eq!(mover_call(ActionKind::Archive, c, None), Ok(MoverCall::Archive));
    assert_eq!(
        mover_call(ActionKind::Restore, c, Some(some_object())),
        Ok(MoverCall::Restore(some_object()))
    );
    assert_eq!(
        mover_call(ActionKind::Remove, c, Some(some_object())),
        Ok(MoverCall::Remove(some_object()))
    );
    assert_eq!(
        mover_call(ActionKind::Restore, c, None),
        Err(MoverError::Other("restore for 0x2a missing existing BackendObject".into()))
    );
    assert_eq!(
        mover_call(ActionKind::Remove, c, None),
        Err(MoverError::Other("remove for 0x2a missing existing BackendObject".into()))
    );
    assert_eq!(
        mover_call(ActionKind::Cancel, c, None),
        Err(MoverError::Other("Cancel routed to mover (daemon bug)".into()))
    );
}

#[test]
fn mover_context_from_an_item() {
    let ctx = build_ctx_from_proto(
        &work(KIND_RESTORE),
        ActionKind::Restore,
        Extent::new(1, 2),
        (),
        CancellationToken::new(),
    );
    assert_eq!(ctx.cookie, Cookie::new(9));
    assert_eq!(ctx.fid, Fid::new(1, 2, 3));
    assert_eq!(ctx.archive_id, ArchiveId::new(4));
    assert_eq!(ctx.primary_path, "/p");
    assert!(ctx.write_path.is_none());
    assert_eq!(&ctx.hint[..], &[7, 8]);
    let o = ctx.existing.unwrap();
    assert_eq!(o.hash[0], 1);
    assert_eq!(o.hash[1..], [0; 31]);
    assert!(ctx.lustre_path.is_none());
}

#[test]
fn reports_of_a_plugin() {
    let ev = ProgressEvent { cookie: Cookie::new(5), bytes_advanced: 6, extent: Extent::whole() };
    let p = progress_status(ev);
    assert!(!p.completed && p.cookie == 5 && p.bytes_advanced == 6 && p.errno == 0);
    let done = terminal_status(Cookie::new(5), 10, Ok(Some(some_object())));
    assert!(done.completed);
    assert_eq!(done.errno, 0);
    assert_eq!(done.result.unwrap().hash, vec![3; 32]);
    let bad = terminal_status(Cookie::new(5), 10, Err(MoverError::Cancelled));
    assert!(bad.completed);
    assert_eq!(bad.errno, 125);
    assert!(bad.result.is_none());
}

#[test]
fn plugin_handshake() {
    let cfg = RunConfig::new("noop-0", vec![ArchiveId::new(1), ArchiveId::new(7)]);
    let hello = cfg.hello();
    assert_eq!(hello.agent_id, "noop-0");
    assert_eq!(hello.archive_ids, vec![1, 7]);
    assert_eq!(hello.version, VERSION);
    assert_eq!(cfg.action_buffer, 64);
    let w = ToPlugin::Welcome(Welcome { session_id: "session-1".into() });
    assert_eq!(expect_welcome(Some(w)).unwrap().session_id, "session-1");
    assert_eq!(expect_welcome(None), Err(HandshakeError::NoWelcome));
    assert_eq!(
        expect_welcome(Some(ToPlugin::Empty)),
        Err(HandshakeError::HandshakeFailed(ToPlugin::Empty))
    );
    assert!(action_of(ToPlugin::Empty).is_none());
    assert_eq!(action_of(ToPlugin::Action(work(1))), Some(work(1)));
}

#[test]
fn hashes_are_cut_and_filled() {
    assert_eq!(hash_from_proto(&[9; 40]), [9; 32]);
    let h = hash_from_proto(&[1, 2]);
    assert_eq!(h[..3], [1, 2, 0]);
    assert_eq!(hash_from_proto(&[]), [0; 32]);
}

#[test]
fn in_flight_actions_can_be_cancelled_until_they_end() {
    let mut f = InFlight::new();
    let t = f.begin(Cookie::new(1));
    let other = f.begin(Cookie::new(2));
    assert_eq!(f.len(), 2);
    assert!(!t.is_cancelled());
    assert!(f.cancel(Cookie::new(1)));
    assert!(t.is_cancelled());
    assert!(!other.is_cancelled());
    assert_eq!(f.len(), 2);
    assert!(!f.cancel(Cookie::new(3)));
    f.end(Cookie::new(1));
    assert!(!f.cancel(Cookie::new(1)));
    f.end(Cookie::new(2));
    assert!(f.is_empty());
}
