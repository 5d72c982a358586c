use bytes::Bytes;
use hsm::llapi::live::{
    action_fd_outcome, begin_outcome, end_outcome, progress_outcome, recv_outcome, register_args,
    register_outcome,
};
use hsm::llapi::mock::MockOutcome;
use hsm::llapi::wire::{align_up, build_hsm_action_item, parse_action_list};
use hsm::llapi::{EndStatus, HasCookieLifecycle, HsmError, MockCopytool, ReceivedAction};
use hsm::model::{ActionKind, ArchiveId, Cookie, Extent, Fid};
use hsm::uapi::consts::{
    HPS_DONE, HPS_NONE, HPS_RUNNING, HPS_WAITING, HSMA_ARCHIVE, HSMA_CANCEL, HSMA_NONE,
    HSMA_REMOVE, HSMA_RESTORE, HUA_ARCHIVE, HUA_CANCEL, HUA_NONE, HUA_RELEASE, HUA_REMOVE,
    HUA_RESTORE, KUC_MAGIC,
};
use hsm::uapi::conv::{
    action_kind_from_wire, action_kind_to_wire, cookie_from_wire, cookie_to_wire, extent_from_sys,
    extent_to_sys, fid_from_sys, fid_to_sys, ConvError,
};
use hsm::uapi::sys::{hsm_action_item, kuc_hdr, lu_fid};

#[test]
fn abi_constant_pin() {
    assert_eq!(HUA_NONE, 1);
    assert_eq!(HUA_ARCHIVE, 10);
    assert_eq!(HUA_RESTORE, 11);
    assert_eq!(HUA_RELEASE, 12);
    assert_eq!(HUA_REMOVE, 13);
    assert_eq!(HUA_CANCEL, 14);

    assert_eq!(HSMA_NONE, 10);
    assert_eq!(HSMA_ARCHIVE, 20);
    assert_eq!(HSMA_RESTORE, 21);
    assert_eq!(HSMA_REMOVE, 22);
    assert_eq!(HSMA_CANCEL, 23);

    assert_eq!(HPS_NONE, 0);
    assert_eq!(HPS_WAITING, 1);
    assert_eq!(HPS_RUNNING, 2);
    assert_eq!(HPS_DONE, 3);

    assert_eq!(KUC_MAGIC, 0x191C);
}

#[test]
fn hsm_constants_have_known_values() {
    assert_eq!(HUA_NONE, 1);
    assert_eq!(HUA_ARCHIVE, 10);
    assert_eq!(HUA_RESTORE, 11);
    assert_eq!(HUA_RELEASE, 12);
    assert_eq!(HUA_REMOVE, 13);
    assert_eq!(HUA_CANCEL, 14);

    assert_eq!(HSMA_NONE, 10);
    assert_eq!(HSMA_ARCHIVE, 20);
    assert_eq!(HSMA_RESTORE, 21);
    assert_eq!(HSMA_REMOVE, 22);
    assert_eq!(HSMA_CANCEL, 23);
}

#[test]
fn hsm_action_item_minimum_size_matches_abi() {
    assert_eq!(std::mem::size_of::<hsm_action_item>(), 72);
}

#[test]
fn lu_fid_size_is_16() {
    assert_eq!(std::mem::size_of::<lu_fid>(), 16);
}

#[test]
fn kuc_hdr_size_is_8() {
    assert_eq!(std::mem::size_of::<kuc_hdr>(), 8);
}

#[test]
fn fid_round_trip() {
    let f = Fid::new(0x200000401, 0x12, 0);
    let s = fid_to_sys(f);
    let (seq, oid, ver) = (s.f_seq, s.f_oid, s.f_ver);
    assert_eq!(seq, 0x200000401);
    assert_eq!(oid, 0x12);
    assert_eq!(ver, 0);
    assert_eq!(fid_from_sys(s), f);
}

#[test]
fn extent_round_trip() {
    let e = Extent::new(1024, 4096);
    let s = extent_to_sys(e);
    assert_eq!(extent_from_sys(s), e);
}

#[test]
fn cookie_round_trip() {
    let c = Cookie::new(0xdead_beef_cafe);
    assert_eq!(cookie_to_wire(c), 0xdead_beef_cafe);
    assert_eq!(cookie_from_wire(0xdead_beef_cafe), c);
}

#[test]
fn action_kind_known_values() {
    assert_eq!(action_kind_from_wire(HSMA_ARCHIVE), Ok(ActionKind::Archive));
    assert_eq!(action_kind_from_wire(HSMA_RESTORE), Ok(ActionKind::Restore));
    assert_eq!(action_kind_from_wire(HSMA_REMOVE), Ok(ActionKind::Remove));
    assert_eq!(action_kind_from_wire(HSMA_CANCEL), Ok(ActionKind::Cancel));
}

#[test]
fn action_kind_to_wire_round_trip() {
    for k in [ActionKind::Archive, ActionKind::Restore, ActionKind::Remove, ActionKind::Cancel] {
        assert_eq!(action_kind_from_wire(action_kind_to_wire(k)), Ok(k));
    }
}

#[test]
fn unknown_action_kind_returns_err() {
    let err = action_kind_from_wire(10).unwrap_err();
    assert_eq!(err, ConvError::UnknownCopytoolAction(10));

    let err = action_kind_from_wire(99).unwrap_err();
    assert_eq!(err, ConvError::UnknownCopytoolAction(99));
}

#[test]
fn end_status_errnos() {
    assert_eq!(EndStatus::Success.errno(), 0);
    assert_eq!(EndStatus::Failed(5).errno(), 5);
    assert_eq!(EndStatus::Cancelled.errno(), 125);
}

#[test]
fn received_action_into_action_preserves_fields() {
    let r = ReceivedAction {
        cookie: Cookie::new(0xdead),
        fid: Fid::new(0x200000401, 0x12, 0),
        dfid: Fid::new(0x200000401, 0x12, 0),
        archive_id: ArchiveId::new(7),
        kind: ActionKind::Restore,
        extent: Extent::whole(),
        gid: 0,
        data: Bytes::from_static(b"tag=n0"),
        fsname: "lustre".to_string(),
    };
    let a = r.clone().into_action();
    assert_eq!(a.cookie, r.cookie);
    assert_eq!(a.fid, r.fid);
    assert_eq!(a.dfid, r.dfid);
    assert_eq!(a.archive_id, r.archive_id);
    assert_eq!(a.kind, r.kind);
    assert_eq!(a.extent, r.extent);
    assert_eq!(a.gid, r.gid);
    assert_eq!(a.data, r.data);
}

#[test]
fn empty_archive_list_is_rejected_before_ffi() {
    let res = register_args("/tmp", &[]);
    assert!(matches!(res, Err(HsmError::EmptyArchiveList)));
}

#[test]
fn align_up_is_correct() {
    assert_eq!(align_up(0, 8), 0);
    assert_eq!(align_up(1, 8), 8);
    assert_eq!(align_up(8, 8), 8);
    assert_eq!(align_up(9, 8), 16);
    assert_eq!(align_up(15, 8), 16);
}

fn requested(cookie: u64) -> ReceivedAction {
    ReceivedAction {
        cookie: Cookie::new(cookie),
        fid: Fid::new(0x200000401, cookie as u32, 0),
        dfid: Fid::new(0x200000401, cookie as u32, 0),
        archive_id: ArchiveId::new(1),
        kind: ActionKind::Archive,
        extent: Extent::whole(),
        gid: 0,
        data: Bytes::new(),
        fsname: "mock".into(),
    }
}

#[test]
fn recv_drains_pending() {
    let mut ct = MockCopytool::new();
    ct.enqueue(requested(1));
    ct.enqueue(requested(2));
    let batch = ct.recv().unwrap();
    assert_eq!(batch.len(), 2);
    assert_eq!(batch[0].cookie, Cookie::new(1));
    assert!(ct.recv().unwrap().is_empty());
}

#[test]
fn begin_progress_end_lifecycle() {
    let mut ct = MockCopytool::new();
    let cookie = Cookie::new(0xabc);
    let mut h = ct.begin(cookie).unwrap();
    h.progress(Extent::new(0, 4096)).unwrap();
    h.progress(Extent::new(4096, 4096)).unwrap();
    h.end(Extent::new(0, 8192), EndStatus::Success).unwrap();

    assert_eq!(ct.in_flight_cookies(), Vec::<Cookie>::new());
    assert_eq!(ct.progress_log().len(), 2);
    assert_eq!(ct.completions().len(), 1);
    assert!(matches!(ct.completions()[0].outcome, MockOutcome::Ended(EndStatus::Success)));
}

#[test]
fn dropping_handle_without_end_logs_abandon() {
    let mut ct = MockCopytool::new();
    let cookie = Cookie::new(99);
    {
        let h = ct.begin(cookie).unwrap();
        h.abandon();
    }
    assert_eq!(ct.completions().len(), 1);
    assert_eq!(ct.completions()[0].cookie, cookie);
    assert_eq!(ct.completions()[0].outcome, MockOutcome::Abandoned);
    assert_eq!(ct.in_flight_cookies(), Vec::<Cookie>::new());
}

#[test]
fn double_begin_same_cookie_errors() {
    let mut ct = MockCopytool::new();
    let cookie = Cookie::new(7);
    let h1 = ct.begin(cookie).unwrap();
    h1.abandon();
    let _h2 = ct.begin(cookie).expect("re-begin after abandon should be fine");
}

#[test]
fn begin_of_an_active_cookie_is_refused() {
    let mut ct = MockCopytool::new();
    let cookie = Cookie::new(7);
    let h = ct.begin(cookie).unwrap();
    assert_eq!(h.cookie(), cookie);
    assert_eq!(ct.in_flight_cookies(), vec![cookie]);
    assert!(matches!(ct.begin(cookie), Err(HsmError::Begin(17))));
}

#[test]
fn end_with_unknown_cookie_errors() {
    let mut ct = MockCopytool::new();
    let res = ct.cookie_end(Cookie::new(404), Extent::whole(), EndStatus::Success);
    assert!(matches!(res, Err(HsmError::UnknownCookie(404))));
}

#[test]
fn progress_rejects_backwards_offset() {
    let mut ct = MockCopytool::new();
    let cookie = Cookie::new(0x10);
    let mut h = ct.begin(cookie).unwrap();
    h.progress(Extent::new(8192, 4096)).unwrap();
    let res = h.progress(Extent::new(4096, 4096));
    assert!(matches!(res, Err(HsmError::Progress(_))));
    h.abandon();
}

#[test]
fn enqueue_simple_round_trip() {
    let mut ct = MockCopytool::new();
    ct.enqueue_simple(
        Cookie::new(1),
        Fid::new(1, 2, 0),
        ArchiveId::new(3),
        ActionKind::Remove,
        Extent::whole(),
    );
    let r = &ct.recv().unwrap()[0];
    assert_eq!(r.cookie, Cookie::new(1));
    assert_eq!(r.kind, ActionKind::Remove);
    assert_eq!(r.archive_id, ArchiveId::new(3));
}

#[test]
fn registration_arguments() {
    let archives = [ArchiveId::new(1), ArchiveId::new(u32::MAX)];
    assert_eq!(register_args("/mnt", &archives).unwrap(), vec![1, -1]);
    assert_eq!(
        register_args("/m\0nt", &archives).unwrap_err(),
        HsmError::Register { mount: "/m\0nt".into(), errno: 22 }
    );
}

#[test]
fn library_return_codes() {
    assert!(register_outcome("/m", 0, true).is_ok());
    assert_eq!(
        register_outcome("/m", -2, true).unwrap_err(),
        HsmError::Register { mount: "/m".into(), errno: 2 }
    );
    assert_eq!(
        register_outcome("/m", 0, false).unwrap_err(),
        HsmError::Register { mount: "/m".into(), errno: 22 }
    );
    assert!(recv_outcome(0, true).is_ok());
    assert_eq!(recv_outcome(-4, true).unwrap_err(), HsmError::Recv(4));
    assert!(matches!(recv_outcome(0, false), Err(HsmError::MalformedActionList { .. })));
    assert_eq!(begin_outcome(-5, true).unwrap_err(), HsmError::Begin(5));
    assert_eq!(begin_outcome(0, false).unwrap_err(), HsmError::Begin(22));
    assert_eq!(action_fd_outcome(3).unwrap(), 3);
    assert_eq!(action_fd_outcome(-9).unwrap_err(), HsmError::Begin(9));
    assert_eq!(progress_outcome(-1).unwrap_err(), HsmError::Progress(1));
    assert_eq!(end_outcome(-1).unwrap_err(), HsmError::End(1));
    assert!(end_outcome(0).is_ok());
}

fn put(b: &mut Vec<u8>, n: u64, width: usize) {
    b.extend_from_slice(&n.to_le_bytes()[..width]);
}

fn push_item(b: &mut Vec<u8>, action: u32, cookie: u64, data: &[u8]) {
    put(b, 72 + data.len() as u64, 4);
    put(b, action as u64, 4);
    for seq in [0x200000401u64, 0x200000402] {
        put(b, seq, 8);
        put(b, 5, 4);
        put(b, 6, 4);
    }
    put(b, 0, 8);
    put(b, u64::MAX, 8);
    put(b, cookie, 8);
    put(b, 11, 8);
    b.extend_from_slice(data);
    while b.len() % 8 != 0 {
        b.push(0);
    }
}

fn list_head(count: u32, archive: u32, fsname: &str) -> Vec<u8> {
    let mut b = Vec::new();
    put(&mut b, 1, 4);
    put(&mut b, count as u64, 4);
    put(&mut b, 0, 8);
    put(&mut b, 0, 8);
    put(&mut b, archive as u64, 4);
    put(&mut b, 0, 4);
    b.extend_from_slice(fsname.as_bytes());
    b.push(0);
    while b.len() % 8 != 0 {
        b.push(0);
    }
    b
}

#[test]
fn action_list_is_read() {
    let mut b = list_head(2, 3, "scratch");
    push_item(&mut b, HSMA_ARCHIVE, 0xabc, b"tag");
    push_item(&mut b, HSMA_RESTORE, 0xdef, b"");
    let got = parse_action_list(&b).unwrap();
    assert_eq!(got.len(), 2);
    assert_eq!(got[0].cookie, Cookie::new(0xabc));
    assert_eq!(got[0].kind, ActionKind::Archive);
    assert_eq!(got[0].fid, Fid::new(0x200000401, 5, 6));
    assert_eq!(got[0].dfid, Fid::new(0x200000402, 5, 6));
    assert_eq!(got[0].archive_id, ArchiveId::new(3));
    assert_eq!(got[0].extent, Extent::whole());
    assert_eq!(got[0].gid, 11);
    assert_eq!(&got[0].data[..], b"tag");
    assert_eq!(got[0].fsname, "scratch");
    assert_eq!(got[1].cookie, Cookie::new(0xdef));
    assert_eq!(got[1].kind, ActionKind::Restore);
    assert!(got[1].data.is_empty());
    let item = build_hsm_action_item(&got[0]);
    assert_eq!(item.hai_len, 72);
    assert_eq!(item.hai_action, HSMA_ARCHIVE);
    assert_eq!(item.hai_cookie, 0xabc);
}

#[test]
fn empty_action_list_is_a_heartbeat() {
    assert!(parse_action_list(&list_head(0, 1, "fs")).unwrap().is_empty());
}

#[test]
fn broken_action_lists_are_refused() {
    let short = [0u8; 8];
    assert!(matches!(parse_action_list(&short), Err(HsmError::MalformedActionList { .. })));
    let mut b = list_head(1, 1, "fs");
    b.extend_from_slice(&[0; 16]);
    assert!(matches!(parse_action_list(&b), Err(HsmError::MalformedActionList { .. })));
    let mut b = list_head(1, 1, "fs");
    push_item(&mut b, 99, 1, b"");
    assert_eq!(parse_action_list(&b).unwrap_err(), HsmError::UnknownActionKind(99));
}
