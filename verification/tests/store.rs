use bytes::Bytes;
use hsm::model::{
    Action, ActionKind, ActionRecord, AgentId, ArState, ArchiveId, Cookie, Extent, Fid, Timestamp,
};
use hsm::store::row::{
    build_query_sql, decode_kind, decode_record, decode_state, encode_kind, encode_record,
    encode_state, insert_outcome, progress_outcome, stored_state_name, sum_counts, to_signed,
    to_unsigned, transition_outcome, InsertAttempt,
};
use hsm::store::{ActionStore, MemStore, StoreError};

fn rec_with(cookie: u64, data: &'static [u8]) -> ActionRecord {
    ActionRecord::new(
        Action {
            cookie: Cookie::new(cookie),
            fid: Fid::new(0x200000401, cookie as u32, 0),
            dfid: Fid::new(0x200000401, cookie as u32, 0),
            archive_id: ArchiveId::new(1),
            kind: ActionKind::Archive,
            extent: Extent::whole(),
            gid: 0,
            data: Bytes::from_static(data),
        },
        Timestamp::unix_epoch(),
    )
}

fn record(cookie: u64) -> ActionRecord {
    rec_with(cookie, b"")
}

fn started(agent_name: &str) -> ArState {
    ArState::Started { agent: AgentId::new(agent_name), since_unix_ms: 0 }
}

#[test]
fn insert_then_get_round_trip() {
    let mut s = MemStore::new();
    s.insert(record(1)).unwrap();
    let r = s.get(Cookie::new(1)).unwrap().unwrap();
    assert_eq!(r.action.cookie, Cookie::new(1));
    assert!(matches!(r.state, ArState::Waiting));
}

#[test]
fn duplicate_insert_errors() {
    let mut s = MemStore::new();
    s.insert(record(1)).unwrap();
    let err = s.insert(record(1)).unwrap_err();
    assert_eq!(err, StoreError::DuplicateCookie(Cookie::new(1)));
}

#[test]
fn transition_advances_state_and_timestamp() {
    let mut s = MemStore::new();
    s.insert(record(1)).unwrap();
    s.transition(Cookie::new(1), started("mover-0")).unwrap();
    let r = s.get(Cookie::new(1)).unwrap().unwrap();
    assert!(matches!(r.state, ArState::Started { .. }));
    assert!(r.updated_at >= r.created_at);
}

#[test]
fn transition_from_terminal_is_rejected() {
    let mut s = MemStore::new();
    s.insert(record(1)).unwrap();
    s.transition(Cookie::new(1), ArState::Succeed { rc: 0 }).unwrap();
    let err = s.transition(Cookie::new(1), ArState::Waiting).unwrap_err();
    assert!(matches!(
        err,
        StoreError::TerminalTransition {
            cookie,
            from: ArState::Succeed { rc: 0 },
        } if cookie == Cookie::new(1)
    ));
}

#[test]
fn unknown_cookie_errors_on_transition_progress_get() {
    let mut s = MemStore::new();
    let bad = Cookie::new(999);
    assert_eq!(s.transition(bad, ArState::Waiting).unwrap_err(), StoreError::UnknownCookie(bad));
    assert_eq!(
        s.update_progress(bad, Extent::new(0, 1)).unwrap_err(),
        StoreError::UnknownCookie(bad)
    );
    assert!(s.get(bad).unwrap().is_none());
}

#[test]
fn progress_advances_and_rejects_regression() {
    let mut s = MemStore::new();
    s.insert(record(1)).unwrap();
    s.update_progress(Cookie::new(1), Extent::new(0, 4096)).unwrap();
    s.update_progress(Cookie::new(1), Extent::new(4096, 4096)).unwrap();
    let err = s.update_progress(Cookie::new(1), Extent::new(2048, 1024)).unwrap_err();
    match err {
        StoreError::ProgressRegression { cookie, have, got } => {
            assert_eq!(cookie, Cookie::new(1));
            assert_eq!(have.offset, 4096);
            assert_eq!(got.offset, 2048);
        }
        other => panic!("expected ProgressRegression, got {other:?}"),
    }
}

#[test]
fn delete_is_idempotent() {
    let mut s = MemStore::new();
    s.delete(Cookie::new(404)).unwrap();
    s.insert(record(1)).unwrap();
    s.delete(Cookie::new(1)).unwrap();
    s.delete(Cookie::new(1)).unwrap();
    assert!(s.get(Cookie::new(1)).unwrap().is_none());
}

#[test]
fn list_by_agent_filters_started_only() {
    let mut s = MemStore::new();
    let m0 = AgentId::new("mover-0");
    let m1 = AgentId::new("mover-1");
    s.insert(record(1)).unwrap();
    s.insert(record(2)).unwrap();
    s.insert(record(3)).unwrap();
    s.transition(Cookie::new(1), started("mover-0")).unwrap();
    s.transition(Cookie::new(2), started("mover-1")).unwrap();

    let m0_rows = s.list_by_agent(&m0).unwrap();
    assert_eq!(m0_rows.len(), 1);
    assert_eq!(m0_rows[0].action.cookie, Cookie::new(1));

    let m1_rows = s.list_by_agent(&m1).unwrap();
    assert_eq!(m1_rows.len(), 1);
    assert_eq!(m1_rows[0].action.cookie, Cookie::new(2));

    let all = s.load_all().unwrap();
    assert_eq!(all.len(), 3);
}

#[test]
fn len_tracks_inserts_and_deletes() {
    let mut s = MemStore::new();
    assert_eq!(s.len().unwrap(), 0);
    s.insert(record(1)).unwrap();
    s.insert(record(2)).unwrap();
    assert_eq!(s.len().unwrap(), 2);
    s.delete(Cookie::new(1)).unwrap();
    assert_eq!(s.len().unwrap(), 1);
}

fn run_contract_suite(store: &mut impl ActionStore) {
    store.insert(rec_with(1, b"hint")).unwrap();
    let r = store.get(Cookie::new(1)).unwrap().unwrap();
    assert_eq!(r.action.cookie, Cookie::new(1));
    assert!(matches!(r.state, ArState::Waiting));
    assert_eq!(r.action.data, Bytes::from_static(b"hint"));

    let err = store.insert(rec_with(1, b"hint")).unwrap_err();
    assert!(matches!(err, StoreError::DuplicateCookie(c) if c == Cookie::new(1)));

    store.transition(Cookie::new(1), started("mover-0")).unwrap();
    let r = store.get(Cookie::new(1)).unwrap().unwrap();
    assert!(matches!(r.state, ArState::Started { .. }));

    store.transition(Cookie::new(1), ArState::Succeed { rc: 0 }).unwrap();
    let err = store.transition(Cookie::new(1), ArState::Waiting).unwrap_err();
    assert!(matches!(
        err,
        StoreError::TerminalTransition {
            cookie,
            from: ArState::Succeed { rc: 0 },
        } if cookie == Cookie::new(1)
    ));

    let err = store.transition(Cookie::new(999), ArState::Waiting).unwrap_err();
    assert!(matches!(err, StoreError::UnknownCookie(c) if c == Cookie::new(999)));

    store.insert(rec_with(2, b"hint")).unwrap();
    store.insert(rec_with(3, b"hint")).unwrap();

    store.update_progress(Cookie::new(2), Extent::new(0, 4096)).unwrap();
    store.update_progress(Cookie::new(2), Extent::new(4096, 4096)).unwrap();
    let r = store.get(Cookie::new(2)).unwrap().unwrap();
    assert_eq!(r.progress.offset, 4096);

    let err = store.update_progress(Cookie::new(2), Extent::new(0, 4096)).unwrap_err();
    assert!(
        matches!(err, StoreError::ProgressRegression { cookie, .. } if cookie == Cookie::new(2))
    );

    let err = store.update_progress(Cookie::new(888), Extent::new(0, 1)).unwrap_err();
    assert!(matches!(err, StoreError::UnknownCookie(c) if c == Cookie::new(888)));

    store.transition(Cookie::new(2), started("mover-1")).unwrap();
    store.transition(Cookie::new(3), started("mover-0")).unwrap();
    let m0 = store.list_by_agent(&AgentId::new("mover-0")).unwrap();
    assert_eq!(m0.len(), 1);
    assert_eq!(m0[0].action.cookie, Cookie::new(3));
    let m1 = store.list_by_agent(&AgentId::new("mover-1")).unwrap();
    assert_eq!(m1.len(), 1);

    let n = store.len().unwrap();
    assert_eq!(n, 3);

    let all = store.load_all().unwrap();
    assert_eq!(all.len(), 3);

    store.delete(Cookie::new(404)).unwrap();
    store.delete(Cookie::new(1)).unwrap();
    store.delete(Cookie::new(1)).unwrap();
    assert!(store.get(Cookie::new(1)).unwrap().is_none());
    assert_eq!(store.len().unwrap(), 2);

    assert!(store.get(Cookie::new(999)).unwrap().is_none());
}

#[test]
fn mem_store_contract() {
    run_contract_suite(&mut MemStore::new());
}

#[test]
fn store_queries_filter_and_count() {
    let mut s = MemStore::new();
    for c in 1..=4 {
        s.insert(record(c)).unwrap();
    }
    s.transition(Cookie::new(2), started("a")).unwrap();
    s.transition(Cookie::new(3), ArState::Failed { rc: 5 }).unwrap();
    assert_eq!(s.status_counts().unwrap(), (2, 1, 4));
    assert_eq!(s.query_actions(Some("WAITING"), None, 10).unwrap().len(), 2);
    assert_eq!(s.query_actions(Some("started"), Some(1), 10).unwrap().len(), 1);
    assert_eq!(s.query_actions(Some("started"), Some(2), 10).unwrap().len(), 0);
    assert_eq!(s.query_actions(None, None, 3).unwrap().len(), 3);
    assert_eq!(s.query_actions(Some("nonsense"), None, 10).unwrap().len(), 4);
    assert!(!s.is_empty().unwrap());
}

#[test]
fn transition_at_sets_the_given_time() {
    let mut s = MemStore::new();
    s.insert(record(1)).unwrap();
    s.transition_at(Cookie::new(1), started("a"), Timestamp::from_nanos(77)).unwrap();
    let r = s.get(Cookie::new(1)).unwrap().unwrap();
    assert_eq!(r.updated_at, Timestamp::from_nanos(77));
    assert_eq!(r.created_at, Timestamp::unix_epoch());
    s.update_progress_at(Cookie::new(1), Extent::new(9, 1), Timestamp::from_nanos(88)).unwrap();
    let r = s.get(Cookie::new(1)).unwrap().unwrap();
    assert_eq!(r.updated_at, Timestamp::from_nanos(88));
    assert_eq!(r.progress, Extent::new(9, 1));
}

#[test]
fn store_error_messages() {
    assert_eq!(
        StoreError::DuplicateCookie(Cookie::new(0xa)).to_string(),
        "cookie 0xa already present in store"
    );
    assert_eq!(
        StoreError::UnknownCookie(Cookie::new(0xb)).to_string(),
        "cookie 0xb not found in store"
    );
    assert_eq!(StoreError::Backend("disk".into()).to_string(), "backend error: disk");
    assert_eq!(
        StoreError::TerminalTransition { cookie: Cookie::new(1), from: ArState::Canceled }
            .to_string(),
        "cookie 0x1 cannot transition out of terminal state Canceled"
    );
    assert_eq!(
        StoreError::ProgressRegression {
            cookie: Cookie::new(1),
            have: Extent::new(2, 3),
            got: Extent::new(1, 0),
        }
        .to_string(),
        "progress would regress for cookie 0x1: have Extent { offset: 2, length: 3 }, got \
         Extent { offset: 1, length: 0 }"
    );
}

#[test]
fn rows_round_trip() {
    let mut r = rec_with(u64::MAX, b"hint");
    r.state = ArState::Started { agent: AgentId::new("m"), since_unix_ms: i64::MAX as u64 };
    r.progress = Extent::new(u64::MAX, 1);
    r.updated_at = Timestamp::from_nanos(123);
    let back = decode_record(&encode_record(&r)).unwrap();
    assert_eq!(back, r);
}

#[test]
fn row_numbers_keep_their_bits() {
    assert_eq!(to_signed(u64::MAX), -1);
    assert_eq!(to_unsigned(-1), u64::MAX);
    assert_eq!(to_signed(1 << 63), i64::MIN);
    assert_eq!(to_unsigned(to_signed(42)), 42);
}

#[test]
fn row_kinds_and_states() {
    for k in [ActionKind::Archive, ActionKind::Restore, ActionKind::Remove, ActionKind::Cancel] {
        assert_eq!(decode_kind(encode_kind(k)).unwrap(), k);
    }
    let e = decode_kind("Frob").unwrap_err();
    assert_eq!(e, StoreError::Backend("unknown ActionKind in DB: \"Frob\"".into()));
    for s in [
        ArState::Waiting,
        started("x"),
        ArState::Succeed { rc: 0 },
        ArState::Failed { rc: 61 },
        ArState::Canceled,
    ] {
        assert_eq!(decode_state(&encode_state(&s)).unwrap(), s);
    }
}

#[test]
fn statement_outcomes() {
    let c = Cookie::new(3);
    assert!(insert_outcome(c, InsertAttempt::Inserted).is_ok());
    assert_eq!(
        insert_outcome(c, InsertAttempt::UniqueViolation).unwrap_err(),
        StoreError::DuplicateCookie(c)
    );
    assert_eq!(
        insert_outcome(c, InsertAttempt::Failed("io".into())).unwrap_err(),
        StoreError::Backend("io".into())
    );
    assert!(transition_outcome(c, 1, None).is_ok());
    assert_eq!(transition_outcome(c, 0, None).unwrap_err(), StoreError::UnknownCookie(c));
    let done = encode_state(&ArState::Succeed { rc: 0 });
    assert_eq!(
        transition_outcome(c, 0, Some(done)).unwrap_err(),
        StoreError::TerminalTransition { cookie: c, from: ArState::Succeed { rc: 0 } }
    );
    assert!(progress_outcome(c, Extent::new(1, 0), 1, None).is_ok());
    assert_eq!(
        progress_outcome(c, Extent::new(1, 0), 0, None).unwrap_err(),
        StoreError::UnknownCookie(c)
    );
    assert_eq!(
        progress_outcome(c, Extent::new(1, 0), 0, Some((-1, 0))).unwrap_err(),
        StoreError::ProgressRegression {
            cookie: c,
            have: Extent::new(u64::MAX, 0),
            got: Extent::new(1, 0),
        }
    );
}

#[test]
fn sql_and_counts() {
    assert_eq!(build_query_sql(false, false), "SELECT * FROM actions WHERE 1=1 LIMIT ?");
    assert_eq!(
        build_query_sql(true, true),
        "SELECT * FROM actions WHERE 1=1 AND state = ? AND archive_id = ? LIMIT ?"
    );
    assert_eq!(stored_state_name("canceled"), "Canceled");
    let groups = vec![
        ("Waiting".to_string(), 3),
        ("Started".to_string(), 2),
        ("Failed".to_string(), 4),
    ];
    assert_eq!(sum_counts(&groups), (3, 2, 9));
    assert_eq!(sum_counts(&Vec::new()), (0, 0, 0));
}
