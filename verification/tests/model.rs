use bytes::Bytes;
use hsm::model::xattr::ALL;
use hsm::model::{
    Action, ActionKind, ActionRecord, AgentId, ArState, ArchiveId, BackendObject, Cookie, Extent,
    Fid, FidParseError, HsmErrno, Span, Timestamp,
};

fn sample_action(kind: ActionKind) -> Action {
    Action {
        cookie: Cookie::new(0xdead_beef),
        fid: Fid::new(0x200000401, 0x12, 0),
        dfid: Fid::new(0x200000401, 0x12, 0),
        archive_id: ArchiveId::new(1),
        kind,
        extent: Extent::whole(),
        gid: 0,
        data: Bytes::from_static(b"tag=n0"),
    }
}

#[test]
fn cookie_display_is_hex() {
    assert_eq!(Cookie::new(0xabc).to_string(), "0xabc");
}

#[test]
fn extent_whole_round_trip() {
    let e = Extent::whole();
    assert!(e.is_whole_file());
    assert_eq!(e.length, Extent::WHOLE_LENGTH);
}

#[test]
fn extent_specific_is_not_whole() {
    let e = Extent::new(0, 4096);
    assert!(!e.is_whole_file());
}

#[test]
fn ar_state_terminal_classification() {
    assert!(!ArState::Waiting.is_terminal());
    assert!(!ArState::Started { agent: AgentId::new("m0"), since_unix_ms: 0 }.is_terminal());
    assert!(ArState::Succeed { rc: 0 }.is_terminal());
    assert!(ArState::Failed { rc: 5 }.is_terminal());
    assert!(ArState::Canceled.is_terminal());
}

#[test]
fn record_starts_waiting_with_zero_progress() {
    let now = Timestamp::unix_epoch();
    let r = ActionRecord::new(sample_action(ActionKind::Archive), now);
    assert!(matches!(r.state, ArState::Waiting));
    assert_eq!(r.progress, Extent::new(0, 0));
    assert_eq!(r.created_at, r.updated_at);
}

#[test]
fn agent_id_string_helpers() {
    let a = AgentId::new("mover-0");
    assert_eq!(a.as_str(), "mover-0");
    assert_eq!(a.to_string(), "mover-0");
}

#[test]
fn archive_id_display_and_debug() {
    let a = ArchiveId::new(7);
    assert_eq!(a.to_string(), "7");
    assert_eq!(format!("{a:?}"), "ArchiveId(7)");
}

#[test]
fn archive_id_orders_numerically() {
    let mut v = vec![ArchiveId::new(3), ArchiveId::new(1), ArchiveId::new(2)];
    v.sort();
    assert_eq!(v.iter().map(|a| a.get()).collect::<Vec<_>>(), [1, 2, 3]);
}

#[test]
fn backend_object_hash_hex_round_trip() {
    let mut h = [0u8; 32];
    for (i, b) in h.iter_mut().enumerate() {
        *b = i as u8;
    }
    let obj = BackendObject { uuid: "k/abc".into(), hash: h, url: "s3://bucket/k/abc".into() };
    let hex = obj.hash_hex();
    assert_eq!(hex.len(), 64);
    assert_eq!(&hex[..6], "000102");
    let decoded = hex::decode(&hex).unwrap();
    assert_eq!(decoded, h);
}

#[test]
fn ok_sentinel() {
    assert!(HsmErrno::ok().is_ok());
    assert!(!HsmErrno::new(5).is_ok());
    assert_eq!(HsmErrno::ok().to_string(), "OK");
    assert_eq!(HsmErrno::new(5).to_string(), "errno=5");
}

#[test]
fn display_matches_lustre_canonical_form() {
    let f = Fid::new(0x200000401, 0x12, 0);
    assert_eq!(f.to_string(), "[0x200000401:0x12:0x0]");
}

#[test]
fn round_trip_from_str_and_display() {
    let cases = [
        Fid::zero(),
        Fid::new(0x200000400, 1, 0),
        Fid::new(u64::MAX, u32::MAX, u32::MAX),
    ];
    for f in cases {
        let s = f.to_string();
        let parsed: Fid = s.parse().expect("parse own Display");
        assert_eq!(parsed, f);
    }
}

#[test]
fn parses_form_without_brackets() {
    let f: Fid = "0x200000401:0x12:0x0".parse().unwrap();
    assert_eq!(f, Fid::new(0x200000401, 0x12, 0));
}

#[test]
fn parses_without_0x_prefix() {
    let f: Fid = "[200000401:12:0]".parse().unwrap();
    assert_eq!(f, Fid::new(0x200000401, 0x12, 0));
}

#[test]
fn rejects_bad_shape() {
    for bad in ["[0x1:0x2]", "[0x1:0x2:0x3:0x4]", "garbage", ""] {
        assert!(matches!(bad.parse::<Fid>(), Err(FidParseError::BadShape(_))));
    }
}

#[test]
fn rejects_non_hex() {
    let res: Result<Fid, _> = "[0xZZ:0x12:0x0]".parse();
    assert!(matches!(res, Err(FidParseError::BadHex { component: "seq", .. })));
}

#[test]
fn zero_constant_round_trip() {
    assert!(Fid::zero().is_zero());
    assert!(!Fid::new(1, 0, 0).is_zero());
}

#[test]
fn names_are_under_trusted_namespace() {
    for name in ALL {
        assert!(name.starts_with("trusted."), "{name}");
    }
}

#[test]
fn names_are_unique() {
    let mut seen: Vec<&str> = Vec::new();
    for n in ALL {
        assert!(!seen.contains(&n), "duplicate xattr name: {n}");
        seen.push(n);
    }
}

#[test]
fn fid_components_are_bounded() {
    let res = Fid::parse("[0x1:0x100000000:0x0]");
    assert!(matches!(res, Err(FidParseError::BadHex { component: "oid", .. })));
    let res = Fid::parse("[0x1:0x2:0x1ffffffff]");
    assert!(matches!(res, Err(FidParseError::BadHex { component: "ver", .. })));
    assert_eq!(Fid::parse("[0xffffffffffffffff:0xffffffff:0xffffffff]").unwrap(),
        Fid::new(u64::MAX, u32::MAX, u32::MAX));
    assert!(Fid::parse("[0x10000000000000000:0x0:0x0]").is_err());
}

#[test]
fn fid_errors_name_the_text() {
    let e = Fid::parse("garbage").unwrap_err();
    assert!(e.to_string().contains("garbage"), "{}", e.to_string());
}

#[test]
fn state_debug_quotes_the_agent() {
    let s = ArState::Started { agent: AgentId::new("m\"0"), since_unix_ms: 7 };
    assert_eq!(s.debug(), "Started { agent: AgentId(\"m\\\"0\"), since_unix_ms: 7 }");
    assert_eq!(s.debug(), format!("{s:?}"));
    assert_eq!(ArState::Failed { rc: -5 }.debug(), "Failed { rc: -5 }");
    assert_eq!(ArState::Succeed { rc: 0 }.debug(), "Succeed { rc: 0 }");
    assert_eq!(ArState::Waiting.debug(), "Waiting");
    assert_eq!(ArState::Canceled.debug(), "Canceled");
}

#[test]
fn action_clone_keeps_the_hint() {
    let a = sample_action(ActionKind::Remove);
    let b = a.clone();
    assert_eq!(a, b);
    assert_eq!(&b.data[..], b"tag=n0");
}

#[test]
fn spans_and_timestamps() {
    assert_eq!(Span::from_millis(3).nanos, 3_000_000);
    assert_eq!(Span::from_secs(2).saturating_sub(Span::from_secs(5)), Span::from_nanos(0));
    assert_eq!(Span::from_secs(5).saturating_sub(Span::from_secs(2)), Span::from_secs(3));
    assert_eq!(Timestamp::from_nanos(-4).since_epoch(), Span::from_nanos(0));
    assert!(Timestamp::now() > Timestamp::unix_epoch());
}

#[test]
fn clock_readings_on_both_sides_of_the_epoch() {
    assert_eq!(Timestamp::from_clock(true, 5), Timestamp::from_nanos(5));
    assert_eq!(Timestamp::from_clock(false, 5), Timestamp::from_nanos(-5));
    assert_eq!(Timestamp::from_clock(true, 0), Timestamp::unix_epoch());
    assert_eq!(Timestamp::from_clock(false, u128::MAX), Timestamp::from_nanos(i128::MAX));
    assert!(Timestamp::now().nanos > 0);
}
