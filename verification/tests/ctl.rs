use hsm::ctl::args::{parse_args, ActionsFilter, Args, ArgsError, Cmd, ImportArgs, Namespace};
use hsm::ctl::hash::{check_hash32, decode_hash32, import_object, HexError};
use hsm::ctl::render::{
    format_unix_secs, render_actions, render_agents, render_import, render_status, render_xattrs,
};
use hsm::daemon::xattr_store::{XattrError, XattrNamespace};
use hsm::model::{BackendObject, Timestamp};
use hsm::proto::{CtlActionRecord, CtlAgentInfo, CtlStatusResponse};

fn line(w: &[&str]) -> Result<Args, ArgsError> {
    let v: Vec<String> = w.iter().map(|s| s.to_string()).collect();
    parse_args(&v)
}

fn refused(w: &[&str]) -> String {
    match line(w) {
        Err(ArgsError::Invalid(m)) => m,
        other => panic!("unexpected {other:?}"),
    }
}

#[test]
fn plain_commands() {
    for (word, cmd) in [
        ("status", Cmd::Status),
        ("agents", Cmd::Agents),
        ("lock", Cmd::Lock),
        ("drain", Cmd::Drain),
        ("request", Cmd::Request),
        ("requeue", Cmd::Requeue),
    ] {
        let a = line(&[word]).unwrap();
        assert_eq!(a.cmd, cmd);
        assert_eq!(a.socket, "/var/run/hsmd/agent.sock");
        assert_eq!(a.namespace, Namespace::Trusted);
    }
}

#[test]
fn global_flags_come_first() {
    let a = line(&["-s", "/a", "-n", "user", "--socket", "/b", "status"]).unwrap();
    assert_eq!(a.socket, "/b");
    assert_eq!(a.namespace, Namespace::User);
    assert_eq!(a.namespace.to_xattr_ns(), XattrNamespace::User);
    assert_eq!(Namespace::Trusted.to_xattr_ns(), XattrNamespace::Trusted);
    assert_eq!(refused(&["--socket"]), "--socket requires a value");
    assert_eq!(refused(&["-n"]), "--namespace requires a value");
    assert_eq!(
        refused(&["-n", "root"]),
        "unknown namespace \"root\"; expected trusted or user"
    );
}

#[test]
fn usage_is_asked_for() {
    assert_eq!(line(&[]), Err(ArgsError::Usage));
    assert_eq!(line(&["-h"]), Err(ArgsError::Usage));
    assert_eq!(line(&["-s", "/a", "--help", "status"]), Err(ArgsError::Usage));
    assert_eq!(line(&["-s", "/a"]), Err(ArgsError::Usage));
    assert_eq!(refused(&["frob"]), "unknown command \"frob\"");
    assert_eq!(refused(&["--frob"]), "unknown command \"--frob\"");
}

#[test]
fn action_filters() {
    let a = line(&["actions", "--state", "waiting", "--archive", "7"]).unwrap();
    assert_eq!(a.cmd, Cmd::Actions(ActionsFilter { state: "waiting".into(), archive: 7 }));
    let a = line(&["actions", "--archive", "+3", "rest", "--state"]).unwrap();
    assert_eq!(a.cmd, Cmd::Actions(ActionsFilter { state: "".into(), archive: 3 }));
    assert_eq!(refused(&["actions", "--archive", "x"]), "--archive must be a number");
    assert_eq!(refused(&["actions", "--archive", "4294967296"]), "--archive must be a number");
    assert_eq!(refused(&["actions", "--state"]), "--state requires a value");
    assert_eq!(refused(&["actions", "--archive"]), "--archive requires a value");
}

#[test]
fn xattr_show_wants_a_path() {
    let a = line(&["xattr", "show", "/f", "extra"]).unwrap();
    assert_eq!(a.cmd, Cmd::XattrShow { path: "/f".into() });
    assert_eq!(refused(&["xattr", "show"]), "xattr show requires a <path>");
    assert_eq!(refused(&["xattr"]), "unknown xattr subcommand None; expected 'show'");
    assert_eq!(
        refused(&["xattr", "list"]),
        "unknown xattr subcommand Some(\"list\"); expected 'show'"
    );
}

#[test]
fn import_needs_everything() {
    let a = line(&["import", "/x", "--uuid", "u", "--hash", "h", "--url", "l", "/f"]).unwrap();
    assert_eq!(
        a.cmd,
        Cmd::Import(ImportArgs {
            uuid: "u".into(),
            hash_hex: "h".into(),
            url: "l".into(),
            path: "/f".into(),
        })
    );
    assert_eq!(refused(&["import"]), "import requires --uuid");
    assert_eq!(refused(&["import", "--uuid", "u"]), "import requires --hash");
    assert_eq!(refused(&["import", "--uuid", "u", "--hash", "h"]), "import requires --url");
    assert_eq!(
        refused(&["import", "--uuid", "u", "--hash", "h", "--url", "l"]),
        "import requires <path>"
    );
    assert_eq!(refused(&["import", "--frob"]), "unknown import flag \"--frob\"");
    assert_eq!(refused(&["import", "--uuid"]), "--uuid requires a value");
    assert_eq!(refused(&["import", "--hash"]), "--hash requires a value");
    assert_eq!(refused(&["import", "--url"]), "--url requires a value");
}

#[test]
fn hashes_are_read() {
    let hex = "00ff".repeat(16);
    let h = decode_hash32(&hex).unwrap();
    assert_eq!(h[..4], [0x00, 0xff, 0x00, 0xff]);
    assert_eq!(decode_hash32(&hex.to_uppercase()).unwrap(), h);
    assert_eq!(decode_hash32("abc").unwrap_err(), "invalid hex: Odd number of digits");
    assert_eq!(
        decode_hash32("ab\ncd!").unwrap_err(),
        "invalid hex: Invalid character '\\n' at position 2"
    );
    assert_eq!(
        decode_hash32("\u{e9}").unwrap_err(),
        "invalid hex: Invalid character '\u{c3}' at position 0"
    );
    assert_eq!(
        decode_hash32("abcd").unwrap_err(),
        "expected 32 bytes (64 hex chars), got 2 bytes"
    );
    assert_eq!(
        check_hash32(Err(HexError::InvalidLength), 4).unwrap_err(),
        "invalid hex: Invalid string length"
    );
    assert_eq!(check_hash32(Ok(vec![5; 32]), 64).unwrap(), [5; 32]);
}

#[test]
fn imports_name_the_bad_hash() {
    let mut args = ImportArgs {
        uuid: "u".into(),
        hash_hex: "zz".into(),
        url: "l".into(),
        path: "/f".into(),
    };
    assert_eq!(
        import_object(&args).unwrap_err(),
        "--hash zz: invalid hex: Invalid character 'z' at position 0"
    );
    args.hash_hex = "01".repeat(32);
    let o = import_object(&args).unwrap();
    assert_eq!(o, BackendObject { uuid: "u".into(), hash: [1; 32], url: "l".into() });
    assert_eq!(o.hash_hex(), args.hash_hex);
}

#[test]
fn times_are_relative() {
    let now = Timestamp::from_nanos(1_000_000 * 1_000_000_000 + 5);
    let ago = |s: i64| format_unix_secs(1_000_000 - s, now);
    assert_eq!(ago(0), "0s ago");
    assert_eq!(ago(59), "59s ago");
    assert_eq!(ago(60), "1m ago");
    assert_eq!(ago(3599), "59m ago");
    assert_eq!(ago(3600), "1h ago");
    assert_eq!(ago(86_399), "23h ago");
    assert_eq!(ago(86_400), "1d ago");
    assert_eq!(ago(-1), "unix=1000001");
    assert_eq!(format_unix_secs(-5, now), "11d ago");
    assert_eq!(format_unix_secs(-5, Timestamp::from_nanos(-1)), "unix=-5");
}

fn agent(id: &str, ids: &[u32], secs: i64) -> CtlAgentInfo {
    CtlAgentInfo { agent_id: id.into(), archive_ids: ids.to_vec(), registered_at_secs: secs }
}

#[test]
fn status_is_printed() {
    let r = CtlStatusResponse {
        actions_waiting: 1,
        actions_started: 2,
        actions_total: 10,
        agents: vec![agent("m0", &[3, 1, 2], 0), agent("m1", &[], 0)],
    };
    assert_eq!(
        render_status(&r),
        "Actions\n  waiting : 1\n  started : 2\n  total   : 10\n\nAgents (2)\n  \
         m0  archives=[1, 2, 3]\n  m1  archives=[]\n"
    );
}

#[test]
fn agents_are_printed() {
    let now = Timestamp::from_nanos(100_000_000_000);
    assert_eq!(render_agents(&Vec::new(), now), "No agents connected.\n");
    let out = render_agents(&vec![agent("m0", &[2, 1], 90), agent("m\u{e9}", &[7], 0)], now);
    let want = format!(
        "{:<30} {:<20} {}\n{:<30} {:<20} {}\n{:<30} {:<20} {}\n",
        "AGENT", "ARCHIVES", "SINCE", "m0", "[1, 2]", "10s ago", "m\u{e9}", "[7]", "-"
    );
    assert_eq!(out, want);
}

#[test]
fn actions_are_printed() {
    assert_eq!(render_actions(&Vec::new()), "No actions.\n");
    let mut a = CtlActionRecord {
        cookie: 0xabc,
        fid: "[0x1:0x2:0x0]".into(),
        archive_id: 7,
        kind: "archive".into(),
        state: "waiting".into(),
        agent_id: "".into(),
        progress: 12,
        since_ms: 0,
    };
    let row = |agent: &str| {
        format!(
            "{:<18} {:<30} {:>3} {:<8} {:<9} {:<25} {} bytes\n",
            "0xabc", "[0x1:0x2:0x0]", 7, "archive", "waiting", agent, 12
        )
    };
    let head = format!(
        "{:<18} {:<30} {:>3} {:<8} {:<9} {:<25} {}\n",
        "COOKIE", "FID", "AID", "KIND", "STATE", "AGENT", "PROGRESS"
    );
    let one = render_actions(&vec![a]);
    assert_eq!(one, format!("{head}{}", row("-")));
    a = CtlActionRecord {
        cookie: 0xabc,
        fid: "[0x1:0x2:0x0]".into(),
        archive_id: 7,
        kind: "archive".into(),
        state: "waiting".into(),
        agent_id: "an-agent-whose-name-is-far-too-long".into(),
        progress: 12,
        since_ms: 0,
    };
    assert_eq!(
        render_actions(&vec![a]),
        format!("{head}{}", row("an-agent-whose-name-is-far-too-long"))
    );
}

#[test]
fn attributes_are_printed() {
    let o = BackendObject { uuid: "u".into(), hash: [0xab; 32], url: "l".into() };
    let hex = "ab".repeat(32);
    assert_eq!(
        render_xattrs("/f", Ok(Some(o.clone()))).unwrap(),
        format!("uuid : u\nhash : {hex}\nurl  : l\n")
    );
    assert_eq!(
        render_xattrs("/f", Ok(None)).unwrap(),
        "/f: no lhsm_* xattrs (file not archived)\n"
    );
    let e = XattrError::Io { op: "get", path: "/f".into(), source: "denied".into() };
    assert_eq!(
        render_xattrs("/f", Err(e)).unwrap_err(),
        "xattr read /f: xattr get on /f: denied"
    );
    assert_eq!(
        render_import("/f", &o, Ok(())).unwrap(),
        format!("imported: /f\n  uuid=u\n  hash={hex}\n  url=l\n")
    );
    let e = XattrError::Io { op: "set", path: "/f".into(), source: "denied".into() };
    assert_eq!(
        render_import("/f", &o, Err(e)).unwrap_err(),
        "xattr write /f: xattr set on /f: denied"
    );
}
