use pulse::channels::{Channel, EntityType, PermissionOverride};
use pulse::members::{role_overrides_for, Member};
use pulse::permissions::{Permission, PermissionSet};
use pulse::roles::{sort_roles_desc, Color, Role};
use pulse::spaces::Space;

fn role(id: &str, position: i32, permissions: i64) -> Role {
    Role {
        id: id.to_string(),
        name: id.to_string(),
        permissions,
        color: Color { red: 0, green: 0, blue: 0 },
        position,
        space_id: "S".to_string(),
        scope_id: "global".to_string(),
    }
}

#[test]
fn permission_set_operations() {
    let mut set = PermissionSet::new();
    assert!(!set.has_permission(Permission::SendMessages));
    set.add_permission(Permission::SendMessages);
    set.add_permission(Permission::JoinCalls);
    assert!(set.has_permission(Permission::SendMessages));
    assert!(set.has_permission(Permission::JoinCalls));
    assert!(!set.has_permission(Permission::ManageRoles));
    set.remove_permission(Permission::SendMessages);
    assert!(!set.has_permission(Permission::SendMessages));
    assert!(set.has_permission(Permission::JoinCalls));

    let mut other = PermissionSet::new();
    other.add_permission(Permission::Speak);
    set.combine(other);
    assert!(set.has_permission(Permission::Speak) && set.has_permission(Permission::JoinCalls));

    let listed = set.to_vec();
    assert_eq!(listed, vec![Permission::JoinCalls, Permission::Speak]);

    assert!(PermissionSet::all().has_permission(Permission::Administrator));
    assert_eq!(PermissionSet::all().to_i64(), i64::MAX);
    assert_eq!(PermissionSet::new().to_i64(), 0);
    assert_eq!(Permission::iter().len(), 23);
    assert_eq!(Permission::iter_channel().len(), 15);
    let from_wire = PermissionSet::from(1i64 << 18);
    assert!(from_wire.has_permission(Permission::JoinCalls));
}

#[test]
fn roles_sort_by_descending_position() {
    let roles = vec![role("low", 1, 0), role("high", 9, 0), role("mid", 4, 0)];
    let sorted = sort_roles_desc(roles);
    let positions: Vec<i32> = sorted.iter().map(|r| r.position).collect();
    assert_eq!(positions, vec![9, 4, 1]);
}

#[test]
fn owner_and_administrator_hold_everything() {
    let space = Space {
        id: "S".to_string(),
        name: b"s".to_vec(),
        description: Vec::new(),
        channels: Vec::new(),
        members: vec!["A".to_string(), "B".to_string()],
        roles: Vec::new(),
        owner: "A".to_string(),
        scope_id: "global".to_string(),
        base_permissions: 0,
    };
    let owner = Member { id: "A".to_string(), space_id: "S".to_string(), roles: Vec::new() };
    assert!(owner.get_permissions(&space, &Vec::new()).has_permission(Permission::ManageSpace));

    let admin_role = role("admin", 5, 0x1);
    let member = Member {
        id: "B".to_string(),
        space_id: "S".to_string(),
        roles: vec!["admin".to_string()],
    };
    let perms = member.get_permissions(&space, &vec![admin_role]);
    assert!(perms.has_permission(Permission::BanMembers));
}

#[test]
fn roles_refine_the_base_permissions() {
    // The base grants SendMessages (bit 11); the only role lacks it, so it
    // is withdrawn, while the role's own JoinCalls (bit 18) is granted.
    let space = Space {
        id: "S".to_string(),
        name: b"s".to_vec(),
        description: Vec::new(),
        channels: Vec::new(),
        members: vec!["B".to_string()],
        roles: Vec::new(),
        owner: "A".to_string(),
        scope_id: "global".to_string(),
        base_permissions: 1 << 11,
    };
    let member = Member {
        id: "B".to_string(),
        space_id: "S".to_string(),
        roles: vec!["r".to_string()],
    };
    let perms = member.get_permissions(&space, &vec![role("r", 1, 1 << 18)]);
    assert!(!perms.has_permission(Permission::SendMessages));
    assert!(perms.has_permission(Permission::JoinCalls));
}

#[test]
fn channel_overrides_have_the_last_word() {
    let space = Space {
        id: "S".to_string(),
        name: b"s".to_vec(),
        description: Vec::new(),
        channels: Vec::new(),
        members: vec!["B".to_string()],
        roles: Vec::new(),
        owner: "A".to_string(),
        scope_id: "global".to_string(),
        base_permissions: 1 << 11,
    };
    let member = Member {
        id: "B".to_string(),
        space_id: "S".to_string(),
        roles: vec!["r".to_string()],
    };
    let mut deny = PermissionSet::new();
    deny.add_permission(Permission::SendMessages);
    let role_override = PermissionOverride {
        id: "r".to_string(),
        entity_type: EntityType::Role,
        allow: PermissionSet::new(),
        deny,
    };
    let mut allow = PermissionSet::new();
    allow.add_permission(Permission::SendMessages);
    let member_override = PermissionOverride {
        id: "B".to_string(),
        entity_type: EntityType::Member,
        allow,
        deny: PermissionSet::new(),
    };
    let channel = Channel::ChatChannel {
        id: "C".to_string(),
        name: "general".to_string(),
        description: String::new(),
        space_id: "S".to_string(),
        scope_id: "global".to_string(),
        permissions: vec![role_override.clone(), member_override],
    };
    let roles = vec![role("r", 1, 1 << 11)];

    // The role override denies what the roles granted…
    let without_member_override = Channel::ChatChannel {
        id: "C".to_string(),
        name: "general".to_string(),
        description: String::new(),
        space_id: "S".to_string(),
        scope_id: "global".to_string(),
        permissions: vec![role_override.clone()],
    };
    let overrides = vec![role_override];
    assert!(!member.get_permission_in_channel(
        &space,
        &roles,
        &without_member_override,
        &overrides,
        Permission::SendMessages,
    ));

    // …and the member's own override wins over the role override.
    assert!(member.get_permission_in_channel(
        &space,
        &roles,
        &channel,
        &overrides,
        Permission::SendMessages,
    ));

    // Channels outside spaces grant nothing this way.
    let private = Channel::PrivateChannel {
        id: "P".to_string(),
        initiator_id: "B".to_string(),
        target_id: "X".to_string(),
        scope_id: "global".to_string(),
    };
    assert!(!member.get_permission_in_channel(
        &space,
        &roles,
        &private,
        &Vec::new(),
        Permission::SendMessages,
    ));
}

#[test]
fn override_filter_keeps_roles_the_member_holds() {
    let member = Member {
        id: "B".to_string(),
        space_id: "S".to_string(),
        roles: vec!["r1".to_string()],
    };
    let mine = PermissionOverride {
        id: "r1".to_string(),
        entity_type: EntityType::Role,
        allow: PermissionSet::new(),
        deny: PermissionSet::new(),
    };
    let other = PermissionOverride {
        id: "r2".to_string(),
        entity_type: EntityType::Role,
        allow: PermissionSet::new(),
        deny: PermissionSet::new(),
    };
    let personal = PermissionOverride {
        id: "B".to_string(),
        entity_type: EntityType::Member,
        allow: PermissionSet::new(),
        deny: PermissionSet::new(),
    };
    let picked = role_overrides_for(&vec![mine, other, personal], &member);
    assert_eq!(picked.len(), 1);
    assert_eq!(picked[0].id, "r1");
}
