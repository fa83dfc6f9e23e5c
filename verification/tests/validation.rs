use pulse::api::Region;
use pulse::errors::Error;
use pulse::methods::messages::SendMessageMethod;
use pulse::methods::spaces::CreateSpaceMethod;
use pulse::trim_bytes;
use pulse::users::{Presence, Status, User};

fn user(id: &str) -> User {
    User {
        id: id.to_string(),
        profile_banner: String::new(),
        profile_description: String::new(),
        presence: Presence { status: Status::Online, message: String::new() },
        online: true,
        platform_administrator: false,
        affinities: Vec::new(),
    }
}

#[test]
fn message_body_bounds() {
    let u = user("A");
    // An in-range body is stored trimmed.
    let method = SendMessageMethod { channel_id: "C".to_string(), content: b"  hello  ".to_vec() };
    let (message, response) = method.respond(Some(&u), "m1".to_string(), 10).expect("sent");
    assert_eq!(message.content, b"hello".to_vec());
    assert_eq!(message.author_id, "A");
    assert_eq!(response.message_id, "m1");

    // Whitespace only: empty after trimming.
    let empty = SendMessageMethod { channel_id: "C".to_string(), content: b" \t\r\n ".to_vec() };
    assert!(matches!(
        empty.respond(Some(&u), "m2".to_string(), 10),
        Err(Error::MessageEmpty)
    ));

    // Exactly 4096 trimmed bytes pass; one more is refused.
    let edge = SendMessageMethod { channel_id: "C".to_string(), content: vec![b'x'; 4096] };
    assert!(edge.respond(Some(&u), "m3".to_string(), 10).is_ok());
    let over = SendMessageMethod { channel_id: "C".to_string(), content: vec![b'x'; 4097] };
    assert!(matches!(
        over.respond(Some(&u), "m4".to_string(), 10),
        Err(Error::MessageTooLong)
    ));

    // Unauthenticated senders are refused before anything else.
    let anon = SendMessageMethod { channel_id: "C".to_string(), content: b"hi".to_vec() };
    assert!(matches!(
        anon.respond(None, "m5".to_string(), 10),
        Err(Error::NotAuthenticated)
    ));
}

#[test]
fn space_name_bounds() {
    let u = user("A");
    let ok = CreateSpaceMethod { name: b" my space ".to_vec(), description: None, scope: None };
    let (space, _) = ok.respond(Some(&u), "S1".to_string()).expect("created");
    assert_eq!(space.owner, "A");
    assert_eq!(space.scope_id, "global");
    assert_eq!(space.base_permissions, 0x16);

    let empty = CreateSpaceMethod { name: b"   ".to_vec(), description: None, scope: None };
    assert!(matches!(empty.respond(Some(&u), "S2".to_string()), Err(Error::NameEmpty)));

    let edge = CreateSpaceMethod { name: vec![b'n'; 32], description: None, scope: None };
    assert!(edge.respond(Some(&u), "S3".to_string()).is_ok());
    let over = CreateSpaceMethod { name: vec![b'n'; 33], description: None, scope: None };
    assert!(matches!(over.respond(Some(&u), "S4".to_string()), Err(Error::NameTooLong)));
}

#[test]
fn trimming_strips_ascii_whitespace_only() {
    assert_eq!(trim_bytes(&b"  a b  ".to_vec()), b"a b".to_vec());
    assert_eq!(trim_bytes(&b"".to_vec()), b"".to_vec());
    assert_eq!(trim_bytes(&b"\t\n\r ".to_vec()), b"".to_vec());
    assert_eq!(trim_bytes(&b"x".to_vec()), b"x".to_vec());
    // Multi-byte text survives: its bytes are outside the ASCII range.
    let s = " héllo ".as_bytes().to_vec();
    assert_eq!(trim_bytes(&s), "héllo".as_bytes().to_vec());
}

#[test]
fn region_names_round_trip() {
    let all = [
        Region::Canada,
        Region::UsCentral,
        Region::UsEast,
        Region::UsWest,
        Region::Europe,
        Region::Asia,
        Region::SouthAmerica,
        Region::Australia,
        Region::Africa,
    ];
    for region in all {
        assert_eq!(Region::from_str(region.as_str()), Ok(region));
    }
    assert_eq!(Region::from_str("us-central"), Ok(Region::UsCentral));
    assert!(Region::from_str("moon").is_err());
    assert!(Region::from_str("").is_err());
}

#[test]
fn error_tags_match_the_wire() {
    assert_eq!(Error::InvalidRequestId.tag(), "INVALID_REQUEST_ID");
    assert_eq!(Error::NoVoiceNodesAvailable.tag(), "NO_VOICE_NODES_AVAILABLE");
    assert_eq!(Error::AlreadyExists.tag(), "ALREADY_EXISTS");
    assert_eq!(Error::MessageTooLong.tag(), "MESSAGE_TOO_LONG");
    assert_eq!(Error::NameEmpty.tag(), "NAME_EMPTY");
    assert_eq!(Error::NotAuthenticated.tag(), "NOT_AUTHENTICATED");
}
