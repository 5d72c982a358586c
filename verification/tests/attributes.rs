use hsm::daemon::xattr_store::{
    attr_names, clear_obj, get_outcome, read_obj, remove_outcome, set_outcome, write_obj,
    AttrReply, FileAttrs, XattrError, XattrNamespace,
};
use hsm::model::BackendObject;

fn obj() -> BackendObject {
    BackendObject {
        uuid: "0x200000401:0x12:0x0".into(),
        hash: [
            0x42, 0x42, 0x42, 0x42, 0x42, 0x42, 0x42, 0x42, 0x42, 0x42, 0x42, 0x42, 0x42, 0x42,
            0x42, 0x42, 0x01, 0x02, 0x03, 0x04, 0x05, 0x06, 0x07, 0x08, 0x09, 0x0a, 0x0b, 0x0c,
            0x0d, 0x0e, 0x0f, 0x10,
        ],
        url: "file:///srv/hsm/1/0x200000401:0x12:0x0".into(),
    }
}

fn with_hash(hash: &[u8]) -> FileAttrs {
    let mut f = FileAttrs::new();
    f.set("user.lhsm_uuid".into(), b"u".to_vec());
    f.set("user.lhsm_url".into(), b"u://x".to_vec());
    f.set("user.lhsm_hash".into(), hash.to_vec());
    f
}

#[test]
fn round_trip_exact() {
    let mut f = FileAttrs::new();
    write_obj(&mut f, XattrNamespace::User, &obj());
    let read = read_obj("file.bin", &f, XattrNamespace::User).unwrap().unwrap();
    assert_eq!(read, obj());
}

#[test]
fn read_no_xattrs_returns_none() {
    let f = FileAttrs::new();
    assert_eq!(read_obj("file.bin", &f, XattrNamespace::User).unwrap(), None);
}

#[test]
fn read_partial_set_returns_partial_error() {
    let mut f = FileAttrs::new();
    f.set("user.lhsm_uuid".into(), b"abc".to_vec());
    let err = read_obj("file.bin", &f, XattrNamespace::User).unwrap_err();
    match err {
        XattrError::Partial { present, missing, .. } => {
            assert_eq!(present, 1);
            assert_eq!(missing.len(), 2);
        }
        other => panic!("unexpected {other:?}"),
    }
}

#[test]
fn read_bad_hash_length_returns_error() {
    let f = with_hash(b"deadbeef");
    let err = read_obj("file.bin", &f, XattrNamespace::User).unwrap_err();
    assert!(matches!(err, XattrError::BadHash { .. }));
}

#[test]
fn clear_removes_all_three_and_is_idempotent() {
    let mut f = FileAttrs::new();
    write_obj(&mut f, XattrNamespace::User, &obj());
    clear_obj(&mut f, XattrNamespace::User);
    assert_eq!(read_obj("file.bin", &f, XattrNamespace::User).unwrap(), None);
    clear_obj(&mut f, XattrNamespace::User);
    assert_eq!(f, FileAttrs::new());
}

#[test]
fn ns_namespacing_is_isolated() {
    let mut f = FileAttrs::new();
    write_obj(&mut f, XattrNamespace::User, &obj());
    assert_eq!(read_obj("file.bin", &f, XattrNamespace::Trusted).unwrap(), None);
}

#[test]
fn ns_name_helpers() {
    assert_eq!(XattrNamespace::Trusted.uuid_name(), "trusted.lhsm_uuid");
    assert_eq!(XattrNamespace::User.url_name(), "user.lhsm_url");
    assert_eq!(XattrNamespace::default(), XattrNamespace::Trusted);
}

#[test]
fn attribute_values_on_disk() {
    let mut f = FileAttrs::new();
    write_obj(&mut f, XattrNamespace::Trusted, &obj());
    assert_eq!(f.get("trusted.lhsm_uuid").unwrap(), b"0x200000401:0x12:0x0".to_vec());
    assert_eq!(
        f.get("trusted.lhsm_hash").unwrap(),
        b"424242424242424242424242424242420102030405060708090a0b0c0d0e0f10".to_vec()
    );
    assert_eq!(
        attr_names(XattrNamespace::User),
        vec!["user.lhsm_uuid", "user.lhsm_hash", "user.lhsm_url"]
    );
    assert!(f.get("user.lhsm_uuid").is_none());
}

#[test]
fn overwriting_keeps_the_last_object() {
    let mut f = FileAttrs::new();
    write_obj(&mut f, XattrNamespace::User, &obj());
    let other = BackendObject { uuid: "k\u{e9}".into(), hash: [7; 32], url: "".into() };
    write_obj(&mut f, XattrNamespace::User, &other);
    assert_eq!(read_obj("f", &f, XattrNamespace::User).unwrap(), Some(other));
}

#[test]
fn bad_hashes_say_why() {
    let message = |raw: &[u8]| {
        read_obj("f", &with_hash(raw), XattrNamespace::User).unwrap_err().to_string()
    };
    assert_eq!(message(b"deadbeef"), "hash xattr on f is not 32 bytes of hex: len 8 != 64");
    assert_eq!(message(&[0xff; 64]), "hash xattr on f is not 32 bytes of hex: not UTF-8");
    let mut raw = [b'a'; 64];
    raw[7] = b'g';
    assert_eq!(
        message(&raw),
        "hash xattr on f is not 32 bytes of hex: byte 3: invalid digit found in string"
    );
    raw[7] = b'F';
    let o = read_obj("f", &with_hash(&raw), XattrNamespace::User).unwrap().unwrap();
    assert_eq!(o.hash[3], 0xaf);
    assert_eq!(o.hash[4], 0xaa);
    raw[6] = b'+';
    assert_eq!(
        message(&raw),
        "hash xattr on f is not 32 bytes of hex: byte 3: invalid digit found in string"
    );
    assert!(message("+f".repeat(32).as_bytes()).ends_with("byte 0: invalid digit found in string"));
    assert!(message("\u{e9}".repeat(32).as_bytes()).contains("byte 0"));
}

#[test]
fn bad_text_is_named() {
    let mut f = FileAttrs::new();
    write_obj(&mut f, XattrNamespace::User, &obj());
    f.set("user.lhsm_url".into(), vec![0xc3]);
    let e = read_obj("f", &f, XattrNamespace::User).unwrap_err();
    assert_eq!(e.to_string(), "xattr user.lhsm_url on f is not valid UTF-8");
    f.remove("user.lhsm_hash");
    let e = read_obj("f", &f, XattrNamespace::User).unwrap_err();
    assert_eq!(
        e.to_string(),
        "partial xattr set on f: 2 present, missing [\"user.lhsm_hash\"]"
    );
    f.remove("user.lhsm_uuid");
    let e = read_obj("f", &f, XattrNamespace::User).unwrap_err();
    assert_eq!(
        e.to_string(),
        "partial xattr set on f: 1 present, missing [\"user.lhsm_uuid\", \"user.lhsm_hash\"]"
    );
}

#[test]
fn replies_of_the_system() {
    assert_eq!(get_outcome("f", AttrReply::Done(Some(vec![1]))).unwrap(), Some(vec![1]));
    let none = AttrReply::Refused { errno: Some(61), text: "No data".into() };
    assert_eq!(get_outcome("f", none).unwrap(), None);
    let denied = AttrReply::Refused { errno: Some(13), text: "denied".into() };
    assert_eq!(get_outcome("f", denied).unwrap_err().to_string(), "xattr get on f: denied");
    let gone = AttrReply::Refused { errno: Some(61), text: "No data".into() };
    assert!(remove_outcome("f", gone).is_ok());
    let odd = AttrReply::Refused { errno: None, text: "odd".into() };
    assert_eq!(remove_outcome("f", odd).unwrap_err().to_string(), "xattr remove on f: odd");
    let full = AttrReply::Refused { errno: Some(61), text: "No data".into() };
    assert_eq!(set_outcome("f", full).unwrap_err().to_string(), "xattr set on f: No data");
    assert!(set_outcome("f", AttrReply::Done(())).is_ok());
}
