use pulse::channels::Channel;
use pulse::errors::Error;
use pulse::events::{RecurringDay, RecurringDays};
use pulse::members::{can_modify_role, Member};
use pulse::messages::Message;
use pulse::methods::channels::GetChannelMethod;
use pulse::methods::invites::{CreateInviteMethod, GetInviteMethod, InviteInformation};
use pulse::methods::roles::EditRoleMethod;
use pulse::methods::spaces::{GetSpaceMethod, LeaveSpaceMethod};
use pulse::permissions::Permission;
use pulse::roles::{Color, Role};
use pulse::spaces::Space;
use pulse::users::{FriendAction, Affinity, Presence, Relationship, Status, User};

fn user(id: &str) -> User {
    User {
        id: id.to_string(),
        profile_banner: String::new(),
        profile_description: String::new(),
        presence: Presence { status: Status::Online, message: String::new() },
        online: true,
        platform_administrator: false,
        affinities: Vec::new(),
    }
}

fn role(id: &str, position: i32, permissions: i64) -> Role {
    Role {
        id: id.to_string(),
        name: id.to_string(),
        permissions,
        color: Color { red: 0, green: 0, blue: 0 },
        position,
        space_id: "S".to_string(),
        scope_id: "global".to_string(),
    }
}

fn space(owner: &str, members: &[&str]) -> Space {
    Space {
        id: "S".to_string(),
        name: b"s".to_vec(),
        description: Vec::new(),
        channels: Vec::new(),
        members: members.iter().map(|m| m.to_string()).collect(),
        roles: Vec::new(),
        owner: owner.to_string(),
        scope_id: "global".to_string(),
        base_permissions: 0,
    }
}

#[test]
fn recurring_days_hold_their_flags() {
    let mut days = RecurringDays::new();
    assert!(!days.contains(RecurringDay::Monday));
    days.add_day(RecurringDay::Monday);
    days.add_day(RecurringDay::Friday);
    assert!(days.contains(RecurringDay::Monday));
    assert!(days.contains(RecurringDay::Friday));
    assert!(!days.contains(RecurringDay::Sunday));
    days.remove_day(RecurringDay::Monday);
    assert!(!days.contains(RecurringDay::Monday));
    assert!(days.contains(RecurringDay::Friday));
}

#[test]
fn friend_requests_follow_the_affinity() {
    let mut u = user("A");
    assert!(matches!(u.add_friend_action(&"B".to_string()), Ok(FriendAction::CreateRequest)));
    u.affinities.push(Affinity { id: "B".to_string(), relationship: Relationship::Pending });
    assert!(matches!(u.add_friend_action(&"B".to_string()), Ok(FriendAction::AcceptExisting)));
    u.affinities[0].relationship = Relationship::Friend;
    assert!(matches!(u.add_friend_action(&"B".to_string()), Err(Error::AlreadyFriends)));
    u.affinities[0].relationship = Relationship::Blocked;
    assert!(matches!(u.add_friend_action(&"B".to_string()), Err(Error::Blocked)));
    u.affinities[0].relationship = Relationship::Requested;
    assert!(matches!(u.add_friend_action(&"B".to_string()), Err(Error::AlreadyRequested)));
}

#[test]
fn role_changes_need_rank() {
    let sp = space("O", &["O", "B"]);
    let manager = Member {
        id: "B".to_string(),
        space_id: "S".to_string(),
        roles: vec!["mgr".to_string()],
    };
    let mgr_role = role("mgr", 5, (1i64) << 9);
    let below = role("low", 2, 0);
    let above = role("high", 8, 0);
    assert!(can_modify_role(&manager, &below, &sp, &vec![mgr_role.clone()]));
    assert!(!can_modify_role(&manager, &above, &sp, &vec![mgr_role.clone()]));
    // Without ManageRoles nothing may be changed.
    let plain = role("plain", 5, 0);
    let powerless = Member {
        id: "B".to_string(),
        space_id: "S".to_string(),
        roles: vec!["plain".to_string()],
    };
    assert!(!can_modify_role(&powerless, &below, &sp, &vec![plain]));
    // The owner always may.
    let owner = Member { id: "O".to_string(), space_id: "S".to_string(), roles: Vec::new() };
    assert!(can_modify_role(&owner, &above, &sp, &Vec::new()));
}

#[test]
fn role_edits_check_space_scope_and_rank() {
    let sp = space("O", &["O", "B"]);
    let manager = Member {
        id: "B".to_string(),
        space_id: "S".to_string(),
        roles: vec!["mgr".to_string()],
    };
    let mgr_role = role("mgr", 5, (1i64) << 9);
    let target = role("low", 2, 0);
    let u = user("B");
    let method = EditRoleMethod {
        id: "low".to_string(),
        name: "renamed".to_string(),
        permissions: 7,
        color: Color { red: 1, green: 2, blue: 3 },
        space_id: "S".to_string(),
        scope_id: None,
    };
    let (edited, _) = method
        .respond(Some(&u), Some(&target), &manager, &sp, &vec![mgr_role.clone()])
        .expect("edited");
    assert_eq!(edited.name, "renamed");
    assert_eq!(edited.permissions, 7);
    assert_eq!(edited.position, 2);

    let elsewhere = EditRoleMethod { space_id: "OTHER".to_string(), ..method.clone() };
    assert!(matches!(
        elsewhere.respond(Some(&u), Some(&target), &manager, &sp, &vec![mgr_role.clone()]),
        Err(Error::NotFound)
    ));
    let too_high = role("high", 9, 0);
    let reach = EditRoleMethod { id: "high".to_string(), ..method };
    assert!(matches!(
        reach.respond(Some(&u), Some(&too_high), &manager, &sp, &vec![mgr_role]),
        Err(Error::MissingPermission { permission: Permission::ManageRoles })
    ));
}

#[test]
fn channel_access_is_scoped() {
    let u = user("A");
    let private = Channel::PrivateChannel {
        id: "P".to_string(),
        initiator_id: "A".to_string(),
        target_id: "B".to_string(),
        scope_id: "global".to_string(),
    };
    let direct = GetChannelMethod { id: "P".to_string(), scope_id: None, space_id: None };
    assert!(direct.check_access(Some(&u), Some(&private), false).is_ok());

    // A direct channel is never reachable through a space id.
    let through_space = GetChannelMethod {
        id: "P".to_string(),
        scope_id: None,
        space_id: Some("S".to_string()),
    };
    assert!(matches!(
        through_space.check_access(Some(&u), Some(&private), true),
        Err(Error::NotFound)
    ));

    let chat = Channel::ChatChannel {
        id: "C".to_string(),
        name: "general".to_string(),
        description: String::new(),
        space_id: "S".to_string(),
        scope_id: "global".to_string(),
        permissions: Vec::new(),
    };
    let in_space = GetChannelMethod {
        id: "C".to_string(),
        scope_id: None,
        space_id: Some("S".to_string()),
    };
    assert!(in_space.check_access(Some(&u), Some(&chat), true).is_ok());
    assert!(matches!(
        in_space.check_access(Some(&u), Some(&chat), false),
        Err(Error::NotFound)
    ));
    let wrong_space = GetChannelMethod {
        id: "C".to_string(),
        scope_id: None,
        space_id: Some("X".to_string()),
    };
    assert!(matches!(
        wrong_space.check_access(Some(&u), Some(&chat), true),
        Err(Error::NotFound)
    ));
}

#[test]
fn space_reads_hide_existence_from_outsiders() {
    let sp = space("O", &["O"]);
    let outsider = user("B");
    let get = GetSpaceMethod { space_id: "S".to_string() };
    assert!(matches!(get.respond(Some(&outsider), Some(&sp)), Err(Error::NotFound)));
    let owner = user("O");
    assert!(get.respond(Some(&owner), Some(&sp)).is_ok());
    let leave = LeaveSpaceMethod { space_id: "S".to_string() };
    assert!(matches!(leave.respond(Some(&outsider), Some(&sp)), Err(Error::NotFound)));
    assert!(leave.respond(Some(&owner), Some(&sp)).is_ok());
}

#[test]
fn invites_are_shaped_and_described() {
    let u = user("A");
    let create = CreateInviteMethod {
        channel_id: "C".to_string(),
        max_uses: Some(3),
        expires_at: Some(99),
        authorized_users: Some(vec!["B".to_string()]),
        space_id: Some("S".to_string()),
        scope_id: None,
    };
    let (invite, _) = create
        .respond(Some(&u), "i1".to_string(), "code123".to_string(), 42)
        .expect("created");
    assert_eq!(invite.code, "code123");
    assert_eq!(invite.creator, "A");
    assert_eq!(invite.created_at, 42);
    assert_eq!(invite.scope_id, "global");
    assert!(invite.uses.is_empty());

    // The invite names B alone, so A is not authorized to redeem it.
    let sp = space("O", &["O"]);
    let described = GetInviteMethod::describe_space(&u, &invite, &sp, false);
    match described.invite {
        InviteInformation::Space { authorized, banned, member_count, .. } => {
            assert!(!authorized);
            assert!(!banned);
            assert_eq!(member_count, 1);
        }
        _ => panic!("expected a space invite"),
    }
}

#[test]
fn group_invites_only_describe_groups() {
    let u = user("A");
    let create = CreateInviteMethod {
        channel_id: "C".to_string(),
        max_uses: None,
        expires_at: None,
        authorized_users: None,
        space_id: None,
        scope_id: None,
    };
    let (invite, _) = create
        .respond(Some(&u), "i2".to_string(), "code456".to_string(), 1)
        .expect("created");
    let group = Channel::GroupChannel {
        id: "C".to_string(),
        name: "party".to_string(),
        description: String::new(),
        owner_id: "A".to_string(),
        members: vec!["A".to_string(), "B".to_string()],
        scope_id: "global".to_string(),
    };
    match GetInviteMethod::describe_group(&u, &invite, &group) {
        Ok(resp) => match resp.invite {
            InviteInformation::Group { name, authorized, member_count, .. } => {
                assert_eq!(name, "party");
                assert!(authorized);
                assert_eq!(member_count, 2);
            }
            _ => panic!("expected a group invite"),
        },
        Err(_) => panic!("expected a description"),
    }
    // Anything but a group channel is an invalid invite here.
    let private = Channel::PrivateChannel {
        id: "P".to_string(),
        initiator_id: "A".to_string(),
        target_id: "B".to_string(),
        scope_id: "global".to_string(),
    };
    assert!(matches!(
        GetInviteMethod::describe_group(&u, &invite, &private),
        Err(Error::InvalidInvite)
    ));
}

#[test]
fn message_edits_keep_identity() {
    let message = Message {
        id: "m1".to_string(),
        content: b"old".to_vec(),
        author_id: "A".to_string(),
        created_at: 5,
        edited: false,
        edited_at: None,
        channel_id: "C".to_string(),
    };
    let edited = message.with_edit(b"new".to_vec(), 9);
    assert_eq!(edited.id, "m1");
    assert_eq!(edited.content, b"new".to_vec());
    assert!(edited.edited);
    assert_eq!(edited.edited_at, Some(9));
    assert_eq!(edited.created_at, 5);
}
