use pulse::api::{NodeDescription, NodeEvent, NodeEventKind, Region};
use pulse::channels::Channel;
use pulse::errors::Error;
use pulse::members::Member;
use pulse::methods::webrtc::{EndCallMethod, JoinCallMethod, LeaveCallMethod, StartCallMethod};
use pulse::permissions::Permission;
use pulse::spaces::Space;
use pulse::users::{Presence, Status, User};
use pulse::webrtc::{CallRegistry, Node, NodeRegistry};

fn user(id: &str) -> User {
    User {
        id: id.to_string(),
        profile_banner: String::new(),
        profile_description: String::new(),
        presence: Presence { status: Status::Online, message: String::new() },
        online: true,
        platform_administrator: false,
        affinities: Vec::new(),
    }
}

fn space(id: &str, owner: &str, members: &[&str]) -> Space {
    Space {
        id: id.to_string(),
        name: b"s".to_vec(),
        description: Vec::new(),
        channels: vec!["C".to_string()],
        members: members.iter().map(|m| m.to_string()).collect(),
        roles: Vec::new(),
        owner: owner.to_string(),
        scope_id: "global".to_string(),
        base_permissions: 0,
    }
}

fn member(id: &str, space_id: &str) -> Member {
    Member { id: id.to_string(), space_id: space_id.to_string(), roles: Vec::new() }
}

fn chat_channel(id: &str, space_id: &str) -> Channel {
    Channel::ChatChannel {
        id: id.to_string(),
        name: "general".to_string(),
        description: String::new(),
        space_id: space_id.to_string(),
        scope_id: "global".to_string(),
        permissions: Vec::new(),
    }
}

fn one_node_registry() -> NodeRegistry {
    NodeRegistry {
        nodes: vec![Node { id: "n1".to_string(), region: Region::Europe, last_ping: 1000 }],
    }
}

fn start_call(
    calls: &mut CallRegistry,
    nodes: &NodeRegistry,
    caller: &User,
    sp: &Space,
    call_id: &str,
) -> Result<pulse::methods::webrtc::StartCallOutcome, Error> {
    let m = member(&caller.id, &sp.id);
    let ch = chat_channel("C", &sp.id);
    let method = StartCallMethod { id: "C".to_string(), space_id: Some(sp.id.clone()) };
    method.respond(
        Some(caller),
        Some(sp),
        Some(&m),
        &Vec::new(),
        Some(&ch),
        &Vec::new(),
        calls,
        nodes,
        Region::Europe,
        call_id.to_string(),
        2000,
    )
}

#[test]
fn start_join_leave_restores_state() {
    // The start/join/leave flow: the owner starts, another member joins and
    // leaves, the owner leaves, and the call entry is gone.
    let a = user("A");
    let b = user("B");
    let sp = space("S", "A", &["A", "B"]);
    let mut calls = CallRegistry::new();
    let nodes = one_node_registry();

    let outcome = start_call(&mut calls, &nodes, &a, &sp, "call1").expect("start");
    assert_eq!(outcome.token.user_id, "A");
    assert_eq!(outcome.token.call_id, "call1");
    assert_eq!(outcome.token.expires_at, 2000 + 60000);
    assert_eq!(outcome.record.id, "call1");
    assert_eq!(outcome.record.channel_id, "C");
    assert_eq!(outcome.record.joined_members, vec!["A".to_string()]);
    assert_eq!(outcome.record.ended_at, 2000);
    assert_eq!(calls.calls.len(), 1);
    assert_eq!(calls.calls[0].node_id, "n1");

    let m = member("B", "S");
    let ch = chat_channel("C", "S");
    let join = JoinCallMethod {
        id: "C".to_string(),
        space_id: Some("S".to_string()),
        sdp: "offer-sdp".to_string(),
    };
    // B is a plain member with no permissions: joining is refused.
    let denied = join.respond(
        Some(&b),
        Some(&sp),
        Some(&m),
        &Vec::new(),
        Some(&ch),
        &Vec::new(),
        &mut calls,
        "sess-b".to_string(),
        3000,
    );
    assert!(matches!(
        denied,
        Err(Error::MissingPermission { permission: Permission::JoinCalls })
    ));

    // With `JoinCalls` in the space's base permissions the join goes through.
    let mut sp2 = space("S", "A", &["A", "B"]);
    sp2.base_permissions = 1 << 18;
    let joined = join
        .respond(
            Some(&b),
            Some(&sp2),
            Some(&m),
            &Vec::new(),
            Some(&ch),
            &Vec::new(),
            &mut calls,
            "sess-b".to_string(),
            3000,
        )
        .expect("join");
    assert_eq!(joined.token.user_id, "B");
    match joined.connect {
        pulse::api::NodeEventKind::UserConnect { session_id, call_id, sdp } => {
            assert_eq!(session_id, "sess-b");
            assert_eq!(call_id, "call1");
            match sdp {
                pulse::api::SessionDescription::Offer(o) => assert_eq!(o, "offer-sdp"),
                _ => panic!("expected an offer"),
            }
        }
        _ => panic!("expected a UserConnect"),
    }
    assert_eq!(calls.calls[0].members, vec!["A".to_string(), "B".to_string()]);

    let leave = LeaveCallMethod { id: "C".to_string(), space_id: Some("S".to_string()) };
    leave.respond(Some(&b), &mut calls).expect("b leaves");
    assert_eq!(calls.calls[0].members, vec!["A".to_string()]);
    leave.respond(Some(&a), &mut calls).expect("a leaves");
    assert_eq!(calls.calls.len(), 0);
}

#[test]
fn duplicate_start_call_conflicts() {
    // Two starts for the same channel: exactly one succeeds, the other is
    // refused with ALREADY_EXISTS and the table is unchanged.
    let a = user("A");
    let sp = space("S", "A", &["A"]);
    let mut calls = CallRegistry::new();
    let nodes = one_node_registry();
    start_call(&mut calls, &nodes, &a, &sp, "call1").expect("first start");
    let second = start_call(&mut calls, &nodes, &a, &sp, "call2");
    assert!(matches!(second, Err(Error::AlreadyExists)));
    assert_eq!(calls.calls.len(), 1);
    assert_eq!(calls.calls[0].id, "call1");
}

#[test]
fn end_call_is_idempotent() {
    // Ending twice: the second end returns NOT_FOUND and changes nothing.
    let a = user("A");
    let sp = space("S", "A", &["A"]);
    let mut calls = CallRegistry::new();
    let nodes = one_node_registry();
    start_call(&mut calls, &nodes, &a, &sp, "call1").expect("start");

    let m = member("A", "S");
    let ch = chat_channel("C", "S");
    let end = EndCallMethod { id: "C".to_string(), space_id: Some("S".to_string()) };
    let members = end
        .respond(Some(&a), Some(&sp), Some(&m), &Vec::new(), Some(&ch), &Vec::new(), &mut calls)
        .expect("end");
    assert_eq!(members, vec!["A".to_string()]);
    assert_eq!(calls.calls.len(), 0);
    let again = end.respond(
        Some(&a),
        Some(&sp),
        Some(&m),
        &Vec::new(),
        Some(&ch),
        &Vec::new(),
        &mut calls,
    );
    assert!(matches!(again, Err(Error::NotFound)));
    assert_eq!(calls.calls.len(), 0);
}

#[test]
fn unauthenticated_and_unimplemented_calls() {
    let mut calls = CallRegistry::new();
    let nodes = one_node_registry();
    let a = user("A");
    let sp = space("S", "A", &["A"]);
    let m = member("A", "S");
    let ch = chat_channel("C", "S");
    let method = StartCallMethod { id: "C".to_string(), space_id: Some("S".to_string()) };
    let anon = method.respond(
        None,
        Some(&sp),
        Some(&m),
        &Vec::new(),
        Some(&ch),
        &Vec::new(),
        &mut calls,
        &nodes,
        Region::Europe,
        "x".to_string(),
        2000,
    );
    assert!(matches!(anon, Err(Error::NotAuthenticated)));
    let spaceless = StartCallMethod { id: "C".to_string(), space_id: None };
    let r = spaceless.respond(
        Some(&a),
        Some(&sp),
        Some(&m),
        &Vec::new(),
        Some(&ch),
        &Vec::new(),
        &mut calls,
        &nodes,
        Region::Europe,
        "x".to_string(),
        2000,
    );
    assert!(matches!(r, Err(Error::Unimplemented)));
}

#[test]
fn no_live_node_refuses_the_call() {
    let a = user("A");
    let sp = space("S", "A", &["A"]);
    let mut calls = CallRegistry::new();
    let empty = NodeRegistry::new();
    let r = start_call(&mut calls, &empty, &a, &sp, "call1");
    assert!(matches!(r, Err(Error::NoVoiceNodesAvailable)));
    assert_eq!(calls.calls.len(), 0);
}

#[test]
fn node_death_reaps_its_calls() {
    // Two participants on one node; the node stops pinging; after eviction
    // the call is reaped and a later join finds nothing.
    let a = user("A");
    let sp = space("S", "A", &["A", "B"]);
    let mut calls = CallRegistry::new();
    let mut nodes = one_node_registry();
    start_call(&mut calls, &nodes, &a, &sp, "call1").expect("start");
    calls
        .join_user(&"S".to_string(), &"C".to_string(), &"B".to_string())
        .expect("join");
    assert_eq!(calls.calls[0].members.len(), 2);

    // Twelve seconds later the node has not pinged again.
    nodes.evict_stale(13000);
    assert_eq!(nodes.nodes.len(), 0);
    let reaped = calls.reap_unplaced(&nodes);
    assert_eq!(reaped.len(), 1);
    assert_eq!(reaped[0].members, vec!["A".to_string(), "B".to_string()]);
    assert_eq!(calls.calls.len(), 0);

    let m = member("B", "S");
    let ch = chat_channel("C", "S");
    let mut sp2 = space("S", "A", &["A", "B"]);
    sp2.base_permissions = 1 << 18;
    let b = user("B");
    let join = JoinCallMethod {
        id: "C".to_string(),
        space_id: Some("S".to_string()),
        sdp: "o".to_string(),
    };
    let r = join.respond(
        Some(&b),
        Some(&sp2),
        Some(&m),
        &Vec::new(),
        Some(&ch),
        &Vec::new(),
        &mut calls,
        "sess".to_string(),
        20000,
    );
    assert!(matches!(r, Err(Error::NotFound)));
}

#[test]
fn ping_refreshes_and_description_is_idempotent() {
    let mut nodes = NodeRegistry::new();
    let announce = NodeEvent {
        id: "n1".to_string(),
        event: NodeEventKind::Description(NodeDescription { region: Region::Asia }),
    };
    nodes.handle_event(&announce, 100);
    nodes.handle_event(&announce, 200);
    assert_eq!(nodes.nodes.len(), 1);
    assert_eq!(nodes.nodes[0].last_ping, 100);

    let ping = NodeEvent { id: "n1".to_string(), event: NodeEventKind::Ping };
    nodes.handle_event(&ping, 5000);
    assert_eq!(nodes.nodes[0].last_ping, 5000);

    // A ping from an unknown node changes nothing.
    let stray = NodeEvent { id: "n2".to_string(), event: NodeEventKind::Ping };
    nodes.handle_event(&stray, 6000);
    assert_eq!(nodes.nodes.len(), 1);

    let bye = NodeEvent { id: "n1".to_string(), event: NodeEventKind::Disconnect };
    nodes.handle_event(&bye, 7000);
    assert_eq!(nodes.nodes.len(), 0);
}

#[test]
fn eviction_keeps_only_live_nodes() {
    let mut nodes = NodeRegistry {
        nodes: vec![
            Node { id: "old".to_string(), region: Region::Europe, last_ping: 0 },
            Node { id: "new".to_string(), region: Region::Europe, last_ping: 9500 },
        ],
    };
    nodes.evict_stale(10000);
    assert_eq!(nodes.nodes.len(), 1);
    assert_eq!(nodes.nodes[0].id, "new");
}

#[test]
fn node_selection_prefers_region_count_then_id() {
    let nodes = NodeRegistry {
        nodes: vec![
            Node { id: "b".to_string(), region: Region::Asia, last_ping: 100 },
            Node { id: "a".to_string(), region: Region::Europe, last_ping: 100 },
            Node { id: "c".to_string(), region: Region::Europe, last_ping: 100 },
        ],
    };
    let calls = CallRegistry::new();
    // Both Europe nodes have zero calls; the lower id wins over the earlier
    // position.
    let picked = nodes.select_node(Region::Europe, 1000, &calls).expect("a node");
    assert_eq!(nodes.nodes[picked].id, "a");
    // With no live node, nothing is picked.
    let empty = NodeRegistry::new();
    assert!(empty.select_node(Region::Europe, 1000, &calls).is_none());
}
