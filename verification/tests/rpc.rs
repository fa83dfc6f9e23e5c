use pulse::errors::Error;
use pulse::methods::authentication::{GetIdMethod, HeartbeatMethod, IdentifyMethod, TokenClaims};
use pulse::socket::{screen_packet, finish_packet, Method, Response, RpcApiMethod, RpcClient};
use pulse::users::{Presence, Status, User};

fn user(id: &str) -> User {
    User {
        id: id.to_string(),
        profile_banner: String::new(),
        profile_description: String::new(),
        presence: Presence { status: Status::Online, message: String::new() },
        online: true,
        platform_administrator: false,
        affinities: Vec::new(),
    }
}

fn heartbeat_frame(id: Option<&str>) -> RpcApiMethod {
    RpcApiMethod {
        id: id.map(|s| s.to_string()),
        method: Method::Heartbeat(HeartbeatMethod {}),
    }
}

#[test]
fn unknown_request_id_is_refused_and_nonces_kept() {
    // A call with an id outside the greeted nonces is answered
    // `{id: none, error: INVALID_REQUEST_ID}` and the nonce list stays.
    let mut client = RpcClient::new("c1".to_string());
    let before = client.request_ids.clone();
    let frame = heartbeat_frame(Some("not-a-nonce"));
    let r = screen_packet(&mut client, &Some(frame));
    match r {
        Err(resp) => {
            assert!(resp.id.is_none());
            assert!(resp.response.is_none());
            assert!(matches!(resp.error, Some(Error::InvalidRequestId)));
        }
        Ok(_) => panic!("expected a refusal"),
    }
    assert_eq!(client.request_ids, before);
}

#[test]
fn valid_nonce_is_consumed_once() {
    let mut client = RpcClient::new("c1".to_string());
    let nonce = client.request_ids[0].clone();
    let frame = heartbeat_frame(Some(&nonce));
    let rid = screen_packet(&mut client, &Some(frame)).expect("screened");
    assert_eq!(rid, nonce);
    assert_eq!(client.request_ids.len(), 19);
    assert!(!client.request_ids.contains(&nonce));

    // Spending the same nonce again is refused.
    let again = heartbeat_frame(Some(&nonce));
    assert!(screen_packet(&mut client, &Some(again)).is_err());
}

#[test]
fn missing_id_and_malformed_frames() {
    let mut client = RpcClient::new("c1".to_string());
    let r = screen_packet(&mut client, &Some(heartbeat_frame(None)));
    match r {
        Err(resp) => assert!(matches!(resp.error, Some(Error::InvalidRequestId))),
        Ok(_) => panic!("expected a refusal"),
    }
    let r = screen_packet(&mut client, &None);
    match r {
        Err(resp) => {
            assert!(resp.id.is_none());
            assert!(matches!(resp.error, Some(Error::InvalidMethod)));
        }
        Ok(_) => panic!("expected a refusal"),
    }
}

#[test]
fn every_dispatched_request_gets_one_response_with_its_id() {
    let ok = finish_packet(
        "nonce-1".to_string(),
        Ok(Response::Heartbeat(HeartbeatMethod {}.respond())),
    );
    assert_eq!(ok.id.as_deref(), Some("nonce-1"));
    assert!(ok.response.is_some() && ok.error.is_none());

    let err = finish_packet("nonce-2".to_string(), Err(Error::NotFound));
    assert_eq!(err.id.as_deref(), Some("nonce-2"));
    assert!(err.response.is_none() && err.error.is_some());
}

#[test]
fn identify_binds_a_user_until_expiry() {
    let mut client = RpcClient::new("c1".to_string());
    let method = IdentifyMethod { public_key: Vec::new(), token: "t".to_string() };
    let claims = Some(TokenClaims { id: "U".to_string(), issued_at: 0, expires_at: 1000 });

    // An expired token is refused and the connection stays anonymous.
    let r = method.respond(&mut client, &claims, user("U"), 2000);
    assert!(matches!(r, Err(Error::InvalidToken)));
    assert!(client.user.is_none());

    // A bad signature (no claims) likewise.
    let r = method.respond(&mut client, &None, user("U"), 500);
    assert!(matches!(r, Err(Error::InvalidToken)));

    // A live token binds the user.
    let r = method.respond(&mut client, &claims, user("U"), 500).expect("identified");
    assert!(r.success);
    assert_eq!(client.user.as_ref().map(|u| u.id.as_str()), Some("U"));
}

#[test]
fn get_id_extends_the_nonce_list() {
    let mut client = RpcClient::new("c1".to_string());
    let before = client.request_ids.clone();
    let resp = GetIdMethod {}.respond(&mut client);
    assert_eq!(resp.request_ids.len(), 20);
    assert_eq!(client.request_ids.len(), 40);
    assert_eq!(&client.request_ids[..20], &before[..]);
    assert_eq!(&client.request_ids[20..], &resp.request_ids[..]);
}

#[test]
fn hello_carries_the_client_nonces() {
    let client = RpcClient::new("c1".to_string());
    let hello = client.hello(vec![1, 2, 3]);
    match hello.event {
        pulse::socket::Event::Hello(h) => {
            assert_eq!(h.public_key, vec![1, 2, 3]);
            assert_eq!(h.request_ids, client.request_ids);
        }
        _ => panic!("expected a hello"),
    }
}
