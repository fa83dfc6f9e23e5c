use pulse::peer::{
    Client, KeyframeRequestKind, MediaData, MediaKind, Propagated, SessionAction, TrackIn,
    TrackOutState,
};
use pulse::rtc::Call;

fn media(mid: &str, contiguous: bool) -> MediaData {
    MediaData { mid: mid.to_string(), rid: None, contiguous }
}

#[test]
fn keyframe_requests_are_throttled() {
    // Forty gappy packets inside 100 ms produce exactly one keyframe chase.
    let mut client = Client::new("s1".to_string());
    client.handle_media_added("m".to_string(), MediaKind::Video);
    let mut issued = 0;
    for i in 0..40u64 {
        let now = 1000 + i * 2;
        let (_, chase) = client.handle_media_data_in(&media("m", false), now);
        if chase.is_some() {
            issued += 1;
        }
    }
    assert_eq!(issued, 1);
    // A second later the next gap is chased again.
    let (_, chase) = client.handle_media_data_in(&media("m", false), 2100);
    assert!(chase.is_some());
}

#[test]
fn contiguous_media_is_only_forwarded() {
    let mut client = Client::new("s1".to_string());
    client.handle_media_added("m".to_string(), MediaKind::Video);
    let (propagated, chase) = client.handle_media_data_in(&media("m", true), 500);
    assert!(chase.is_none());
    match propagated {
        Propagated::MediaData { origin, mid, contiguous, .. } => {
            assert_eq!(origin, "s1");
            assert_eq!(mid, "m");
            assert!(contiguous);
        }
        _ => panic!("expected media"),
    }
}

#[test]
fn negotiation_opens_tracks_and_offers_roll_back() {
    let mut client = Client::new("s2".to_string());
    client.channel_opened();
    client.handle_track_open("s1".to_string(), "m".to_string());
    assert!(client.can_negotiate());
    client.mark_negotiating(0, "out0".to_string());
    assert!(!client.can_negotiate());

    // The client's own offer arriving mid-negotiation rolls back.
    client.handle_offer();
    assert!(matches!(client.tracks_out[0].state, TrackOutState::ToOpen));
    assert!(client.can_negotiate());

    // A full round: negotiate again, then the answer opens the line.
    client.mark_negotiating(0, "out1".to_string());
    client.handle_answer();
    match &client.tracks_out[0].state {
        TrackOutState::Open(m) => assert_eq!(m, "out1"),
        _ => panic!("expected an open line"),
    }
}

#[test]
fn media_fan_out_picks_the_high_layer() {
    let mut client = Client::new("s2".to_string());
    client.channel_opened();
    client.handle_track_open("s1".to_string(), "m".to_string());
    client.mark_negotiating(0, "out0".to_string());
    client.handle_answer();

    // No layer: forwarded to the negotiated mid.
    let write = client.handle_media_data_out(&"s1".to_string(), &media("m", true));
    match write {
        Some(SessionAction::WriteMedia { mid }) => assert_eq!(mid, "out0"),
        _ => panic!("expected a write"),
    }

    // The low layer is dropped; the high layer is forwarded and remembered.
    let low = MediaData { mid: "m".to_string(), rid: Some("l".to_string()), contiguous: true };
    assert!(client.handle_media_data_out(&"s1".to_string(), &low).is_none());
    let high = MediaData { mid: "m".to_string(), rid: Some("h".to_string()), contiguous: true };
    assert!(client.handle_media_data_out(&"s1".to_string(), &high).is_some());
    assert_eq!(client.chosen_rid.as_deref(), Some("h"));

    // Media from an unknown producer track goes nowhere.
    assert!(client.handle_media_data_out(&"s9".to_string(), &media("m", true)).is_none());
}

#[test]
fn keyframe_requests_route_to_the_producer() {
    let mut consumer = Client::new("s2".to_string());
    consumer.channel_opened();
    consumer.handle_track_open("s1".to_string(), "m".to_string());
    consumer.mark_negotiating(0, "out0".to_string());
    consumer.handle_answer();

    let routed = consumer.handle_incoming_keyframe_req(&"out0".to_string(), KeyframeRequestKind::Pli);
    match routed {
        Propagated::KeyframeRequest { origin, dest, dest_mid, .. } => {
            assert_eq!(origin, "s2");
            assert_eq!(dest, "s1");
            assert_eq!(dest_mid, "m");
        }
        _ => panic!("expected a routed request"),
    }

    // Only the producing session acts on the routed request.
    let mut producer = Client::new("s1".to_string());
    producer.handle_media_added("m".to_string(), MediaKind::Video);
    let act = producer.handle_keyframe_request(&"m".to_string(), None, KeyframeRequestKind::Pli);
    assert!(act.is_some());
    let other = Client::new("s3".to_string());
    let ignored = other.handle_keyframe_request(&"m".to_string(), None, KeyframeRequestKind::Pli);
    assert!(ignored.is_none());
}

#[test]
fn dead_producer_tracks_are_pruned() {
    let mut client = Client::new("s2".to_string());
    client.handle_track_open("s1".to_string(), "m1".to_string());
    client.handle_track_open("s3".to_string(), "m2".to_string());
    // Only s1's track is still produced.
    let live = vec![TrackIn {
        origin: "s1".to_string(),
        mid: "m1".to_string(),
        kind: MediaKind::Video,
    }];
    client.prune_tracks_out(&live);
    assert_eq!(client.tracks_out.len(), 1);
    assert_eq!(client.tracks_out[0].origin, "s1");
}

#[test]
fn call_membership_and_routing() {
    let mut call = Call::new("call1".to_string());
    call.add_user(&"s1".to_string());
    call.add_user(&"s2".to_string());
    call.add_user(&"s1".to_string());
    assert_eq!(call.get_user_ids(), vec!["s1".to_string(), "s2".to_string()]);

    let media = Propagated::MediaData {
        origin: "s1".to_string(),
        mid: "m".to_string(),
        rid: None,
        contiguous: true,
    };
    assert!(!Call::should_handle(&"s1".to_string(), &media));
    assert!(Call::should_handle(&"s2".to_string(), &media));
    let req = Propagated::KeyframeRequest {
        origin: "s2".to_string(),
        kind: KeyframeRequestKind::Fir,
        rid: None,
        dest: "s1".to_string(),
        dest_mid: "m".to_string(),
    };
    assert!(Call::should_handle(&"s1".to_string(), &req));
    assert!(!Call::should_handle(&"s2".to_string(), &req));

    let destroy = call.remove_user(&"s1".to_string());
    assert!(!destroy);
    let destroy = call.remove_user(&"s2".to_string());
    assert!(destroy);
}
