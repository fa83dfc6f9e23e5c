use pulse::encryption::{decode, encode, fresh_request_ids, generate, generate_id, random_number};
use pulse::infractions::{is_banned, Infraction, InfractionType};
use pulse::invites::generate_code;
use pulse::node::{allocate_port, encode_track_notice, handle_bus_event, NodeAction};
use pulse::api::{NodeEvent, NodeEventKind, Region, SessionDescription};

#[test]
fn identifiers_have_the_promised_shape() {
    let id = generate_id();
    assert_eq!(id.chars().count(), 16);
    assert!(id.chars().all(|c| c.is_ascii_alphanumeric()));
    let code = generate_code();
    assert_eq!(code.chars().count(), 7);
    let ids = fresh_request_ids(5);
    assert_eq!(ids.len(), 5);
    for one in &ids {
        assert_eq!(one.chars().count(), 16);
    }
    assert_eq!(random_number(96).len(), 96);
}

#[test]
fn generate_draws_from_the_alphabet() {
    let alphabet = vec!['a', 'b', 'c'];
    let id = generate(random_number, alphabet.as_slice(), 40);
    assert_eq!(id.chars().count(), 40);
    assert!(id.chars().all(|c| c == 'a' || c == 'b' || c == 'c'));
}

#[test]
fn plain_and_compressed_payloads_round_trip() {
    let payload = b"the same bytes, over and over and over and over".to_vec();
    let plain = encode(payload.clone(), false, None).expect("encode");
    assert_eq!(plain, payload);
    assert_eq!(decode(plain, false, None), Some(payload.clone()));

    let squeezed = encode(payload.clone(), true, None).expect("encode");
    assert_ne!(squeezed, payload);
    assert_eq!(decode(squeezed, true, None), Some(payload));
}

#[test]
fn sealed_payloads_round_trip_and_refuse_forgeries() {
    let key = vec![7u8; 32];
    let payload = b"secret body".to_vec();
    let sealed = encode(payload.clone(), true, Some(&key)).expect("encode");
    assert!(sealed.len() > 12);
    assert_eq!(decode(sealed.clone(), true, Some(&key)), Some(payload));

    let other_key = vec![8u8; 32];
    assert_eq!(decode(sealed, true, Some(&other_key)), None);
    assert_eq!(decode(vec![1, 2, 3], true, Some(&key)), None);
}

#[test]
fn track_notices_are_framed() {
    // The message-pack framing of the string "m": one-byte fixstr header.
    let frame = encode_track_notice(&"m".to_string()).expect("frame");
    assert_eq!(frame, vec![0xa1, b'm']);
}

#[test]
fn ports_come_from_the_fixed_range() {
    let p = allocate_port(&Vec::new()).expect("a port");
    assert_eq!(p, 10000);
    let p = allocate_port(&vec![10000, 10001]).expect("a port");
    assert_eq!(p, 10002);
    // A full range places no session.
    let all: Vec<u16> = (10000u16..11000).collect();
    assert!(allocate_port(&all).is_none());
}

#[test]
fn nodes_ignore_their_own_events_and_duplicate_placements() {
    let sessions = vec!["sess1".to_string()];
    let mine = NodeEvent { id: "me".to_string(), event: NodeEventKind::Query };
    assert!(handle_bus_event(&"me".to_string(), Region::Asia, &sessions, &mine).is_none());

    let query = NodeEvent { id: "broker".to_string(), event: NodeEventKind::Query };
    match handle_bus_event(&"me".to_string(), Region::Asia, &sessions, &query) {
        Some(NodeAction::Announce(d)) => assert!(matches!(d.region, Region::Asia)),
        _ => panic!("expected an announce"),
    }

    // A placement for a session already running is dropped.
    let replay = NodeEvent {
        id: "broker".to_string(),
        event: NodeEventKind::UserConnect {
            session_id: "sess1".to_string(),
            call_id: "c".to_string(),
            sdp: SessionDescription::Offer("o".to_string()),
        },
    };
    assert!(handle_bus_event(&"me".to_string(), Region::Asia, &sessions, &replay).is_none());

    let fresh = NodeEvent {
        id: "broker".to_string(),
        event: NodeEventKind::UserConnect {
            session_id: "sess2".to_string(),
            call_id: "c".to_string(),
            sdp: SessionDescription::Offer("o".to_string()),
        },
    };
    match handle_bus_event(&"me".to_string(), Region::Asia, &sessions, &fresh) {
        Some(NodeAction::SpawnSession { session_id, call_id, offer }) => {
            assert_eq!(session_id, "sess2");
            assert_eq!(call_id, "c");
            assert_eq!(offer, "o");
        }
        _ => panic!("expected a spawn"),
    }
}

#[test]
fn bans_apply_until_they_expire() {
    let ban = Infraction {
        id: "i1".to_string(),
        infraction_type: InfractionType::Ban,
        space_id: "S".to_string(),
        member_id: "B".to_string(),
        reason: String::new(),
        expires_at: Some(1000),
        created_at: 0,
        created_by: "A".to_string(),
    };
    let list = vec![ban];
    assert!(is_banned(&list, &"B".to_string(), &"S".to_string(), 500));
    assert!(!is_banned(&list, &"B".to_string(), &"S".to_string(), 1000));
    assert!(!is_banned(&list, &"C".to_string(), &"S".to_string(), 500));
}
