use bytes::Bytes;
use hsm::model::{Action, ActionKind, AgentId, ArchiveId, Cookie, Extent, Fid, Timestamp};
use hsm::scheduler::{AgentInfo, AgentRegistry, FifoPerKind, Scheduler};
use std::collections::HashSet;

fn ids(items: &[u32]) -> HashSet<u32> {
    items.iter().copied().collect()
}

fn act(cookie: u64, kind: ActionKind, archive: u32) -> Action {
    Action {
        cookie: Cookie::new(cookie),
        fid: Fid::new(1, cookie as u32, 0),
        dfid: Fid::new(1, cookie as u32, 0),
        archive_id: ArchiveId::new(archive),
        kind,
        extent: Extent::whole(),
        gid: 0,
        data: Bytes::new(),
    }
}

#[test]
fn agent_info_serves_only_advertised_archives() {
    let info = AgentInfo {
        id: AgentId::new("m0"),
        archives: ids(&[1, 2]),
        since: Timestamp::unix_epoch(),
    };
    assert!(info.serves(ArchiveId::new(1)));
    assert!(info.serves(ArchiveId::new(2)));
    assert!(!info.serves(ArchiveId::new(3)));
}

#[test]
fn register_and_filter_by_archive() {
    let mut r = AgentRegistry::new();
    r.register(AgentId::new("m0"), &[ArchiveId::new(1), ArchiveId::new(2)]);
    r.register(AgentId::new("m1"), &[ArchiveId::new(2), ArchiveId::new(3)]);
    assert_eq!(r.len(), 2);

    let arc1 = r.agents_serving(ArchiveId::new(1));
    assert_eq!(arc1.len(), 1);
    assert_eq!(arc1[0].id, AgentId::new("m0"));

    let arc2 = r.agents_serving(ArchiveId::new(2));
    assert_eq!(arc2.len(), 2);

    let arc4 = r.agents_serving(ArchiveId::new(4));
    assert!(arc4.is_empty());
}

#[test]
fn re_register_replaces_capabilities() {
    let mut r = AgentRegistry::new();
    r.register(AgentId::new("m0"), &[ArchiveId::new(1)]);
    r.register(AgentId::new("m0"), &[ArchiveId::new(1), ArchiveId::new(2)]);
    let snap = r.snapshot();
    assert_eq!(snap.len(), 1);
    assert_eq!(snap[0].archives, ids(&[1, 2]));
}

#[test]
fn unregister_returns_dropped_record() {
    let mut r = AgentRegistry::new();
    r.register(AgentId::new("m0"), &[ArchiveId::new(1)]);
    let dropped = r.unregister(&AgentId::new("m0")).unwrap();
    assert_eq!(dropped.archives, ids(&[1]));
    assert!(r.unregister(&AgentId::new("m0")).is_none());
    assert!(r.is_empty());
}

#[test]
fn empty_registry_returns_no_assignments() {
    let mut s = FifoPerKind::new();
    s.enqueue(act(1, ActionKind::Archive, 1));
    let assignments = s.pick_ready(&AgentRegistry::new(), 10);
    assert!(assignments.is_empty());
    assert_eq!(s.queue_depth(), 1);
}

#[test]
fn restore_drains_before_archive() {
    let mut s = FifoPerKind::new();
    let mut r = AgentRegistry::new();
    r.register(AgentId::new("m0"), &[ArchiveId::new(1)]);
    s.enqueue(act(10, ActionKind::Archive, 1));
    s.enqueue(act(11, ActionKind::Archive, 1));
    s.enqueue(act(20, ActionKind::Restore, 1));
    let picked = s.pick_ready(&r, 1);
    assert_eq!(picked.len(), 1);
    assert_eq!(picked[0].action.cookie, Cookie::new(20));
}

#[test]
fn cancel_and_restore_share_priority() {
    let mut s = FifoPerKind::new();
    let mut r = AgentRegistry::new();
    r.register(AgentId::new("m0"), &[ArchiveId::new(1)]);
    s.enqueue(act(20, ActionKind::Restore, 1));
    s.enqueue(act(30, ActionKind::Cancel, 1));
    let picked = s.pick_ready(&r, 10);
    let kinds: Vec<_> = picked.iter().map(|a| a.action.kind).collect();
    assert!(kinds.contains(&ActionKind::Cancel));
    assert!(kinds.contains(&ActionKind::Restore));
    assert_eq!(picked.len(), 2);
}

#[test]
fn picks_only_for_capable_agents_others_requeued() {
    let mut s = FifoPerKind::new();
    let mut r = AgentRegistry::new();
    r.register(AgentId::new("m2"), &[ArchiveId::new(2)]);
    s.enqueue(act(1, ActionKind::Archive, 1));
    s.enqueue(act(2, ActionKind::Archive, 2));
    let picked = s.pick_ready(&r, 10);
    assert_eq!(picked.len(), 1);
    assert_eq!(picked[0].action.archive_id, ArchiveId::new(2));
    assert_eq!(picked[0].agent, AgentId::new("m2"));
    assert_eq!(s.queue_depth(), 1);
}

#[test]
fn round_robins_agents_within_an_archive() {
    let mut s = FifoPerKind::new();
    let mut r = AgentRegistry::new();
    r.register(AgentId::new("m0"), &[ArchiveId::new(1)]);
    r.register(AgentId::new("m1"), &[ArchiveId::new(1)]);
    for c in 0..6 {
        s.enqueue(act(c, ActionKind::Archive, 1));
    }
    let picked = s.pick_ready(&r, 6);
    let agents: Vec<_> = picked.iter().map(|a| a.agent.as_str().to_string()).collect();
    let m0_count = agents.iter().filter(|n| *n == "m0").count();
    let m1_count = agents.iter().filter(|n| *n == "m1").count();
    assert!(m0_count >= 1 && m1_count >= 1, "saw {agents:?}");
    assert_eq!(m0_count + m1_count, 6);
}

#[test]
fn requeue_preserves_fifo_order() {
    let mut s = FifoPerKind::new();
    let mut r = AgentRegistry::new();
    s.enqueue(act(1, ActionKind::Archive, 1));
    s.enqueue(act(2, ActionKind::Archive, 1));
    s.enqueue(act(3, ActionKind::Archive, 1));
    let picked = s.pick_ready(&r, 10);
    assert!(picked.is_empty());
    assert_eq!(s.queue_depth(), 3);
    r.register(AgentId::new("m0"), &[ArchiveId::new(1)]);
    let picked = s.pick_ready(&r, 10);
    let cookies: Vec<_> = picked.iter().map(|a| a.action.cookie.get()).collect();
    assert_eq!(cookies, vec![1, 2, 3]);
}

#[test]
fn max_caps_returned_assignments() {
    let mut s = FifoPerKind::new();
    let mut r = AgentRegistry::new();
    r.register(AgentId::new("m0"), &[ArchiveId::new(1)]);
    for c in 0..10 {
        s.enqueue(act(c, ActionKind::Archive, 1));
    }
    let picked = s.pick_ready(&r, 3);
    assert_eq!(picked.len(), 3);
    assert_eq!(s.queue_depth(), 7);
}

#[test]
fn queue_depth_tracks_per_kind() {
    let mut s = FifoPerKind::new();
    s.enqueue(act(1, ActionKind::Archive, 1));
    s.enqueue(act(2, ActionKind::Restore, 1));
    s.enqueue(act(3, ActionKind::Remove, 1));
    s.enqueue(act(4, ActionKind::Cancel, 1));
    assert_eq!(s.queue_depth(), 4);
}

#[test]
fn agents_take_turns_in_order() {
    let mut s = FifoPerKind::new();
    let mut r = AgentRegistry::new();
    for name in ["a", "b", "c"] {
        r.register(AgentId::new(name), &[ArchiveId::new(1)]);
    }
    for c in 0..7 {
        s.enqueue(act(c, ActionKind::Archive, 1));
    }
    let picked = s.pick_ready(&r, 4);
    let names: Vec<&str> = picked.iter().map(|a| a.agent.as_str()).collect();
    assert_eq!(names, vec!["a", "b", "c", "a"]);
    let picked = s.pick_ready(&r, 4);
    let names: Vec<&str> = picked.iter().map(|a| a.agent.as_str()).collect();
    assert_eq!(names, vec!["b", "c", "a"]);
}

#[test]
fn background_work_keeps_its_order_behind_urgent_work() {
    let mut s = FifoPerKind::new();
    let mut r = AgentRegistry::new();
    r.register(AgentId::new("m0"), &[ArchiveId::new(1)]);
    s.enqueue(act(1, ActionKind::Archive, 1));
    s.enqueue(act(2, ActionKind::Remove, 1));
    s.enqueue(act(3, ActionKind::Restore, 1));
    s.enqueue(act(4, ActionKind::Restore, 1));
    s.enqueue(act(5, ActionKind::Cancel, 1));
    let picked = s.pick_ready(&r, 10);
    let first: Vec<ActionKind> = picked.iter().take(3).map(|a| a.action.kind).collect();
    assert!(first.iter().all(|k| matches!(k, ActionKind::Restore | ActionKind::Cancel)));
    assert_eq!(picked.len(), 5);
    assert_eq!(s.queue_depth(), 0);
}

#[test]
fn nothing_is_picked_with_a_cap_of_zero() {
    let mut s = FifoPerKind::new();
    let mut r = AgentRegistry::new();
    r.register(AgentId::new("m0"), &[ArchiveId::new(1)]);
    s.enqueue(act(1, ActionKind::Restore, 1));
    assert!(s.pick_ready(&r, 0).is_empty());
    assert_eq!(s.queue_depth(), 1);
    s.on_complete(Cookie::new(1), 0);
    s.on_disconnect(&AgentId::new("m0"));
    assert_eq!(s.queue_depth(), 1);
}

#[test]
fn re_registering_keeps_the_place_of_an_agent() {
    let mut r = AgentRegistry::new();
    r.register_at(AgentId::new("a"), &[ArchiveId::new(1)], Timestamp::from_nanos(1));
    r.register_at(AgentId::new("b"), &[ArchiveId::new(1)], Timestamp::from_nanos(2));
    r.register_at(AgentId::new("a"), &[ArchiveId::new(9)], Timestamp::from_nanos(3));
    let snap = r.snapshot();
    assert_eq!(snap[0].id.as_str(), "a");
    assert_eq!(snap[0].since, Timestamp::from_nanos(3));
    assert_eq!(snap[1].id.as_str(), "b");
    assert_eq!(r.agents_serving(ArchiveId::new(1)).len(), 1);
}

#[test]
fn removals_come_last_and_agents_share_evenly() {
    let mut s = FifoPerKind::new();
    let mut r = AgentRegistry::new();
    for name in ["a", "b", "c"] {
        r.register(AgentId::new(name), &[ArchiveId::new(1)]);
    }
    for c in 0..5 {
        s.enqueue(act(c, ActionKind::Remove, 1));
        s.enqueue(act(10 + c, ActionKind::Archive, 1));
    }
    let mut picked = s.pick_ready(&r, 4);
    assert!(picked.iter().all(|a| matches!(a.action.kind, ActionKind::Archive)));
    picked.extend(s.pick_ready(&r, 4));
    assert_eq!(picked[4].action.cookie.get(), 14);
    assert!(picked[5..].iter().all(|a| matches!(a.action.kind, ActionKind::Remove)));
    s.enqueue(act(20, ActionKind::Restore, 1));
    picked.extend(s.pick_ready(&r, 4));
    assert_eq!(picked.len(), 11);
    for (name, share) in [("a", 4), ("b", 4), ("c", 3)] {
        assert_eq!(picked.iter().filter(|a| a.agent.as_str() == name).count(), share);
    }
}
