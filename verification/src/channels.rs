//! Channel records and per-channel permission overrides.
use vstd::prelude::*;

use crate::permissions::PermissionSet;

verus! {

/// What a permission override is attached to.
#[derive(Clone, Copy, Debug, PartialEq, Eq, Structural)]
pub enum EntityType {
    Role,
    Member,
}

/// One channel-level exception to the space-wide permissions: what the named
/// role or member is additionally allowed and denied here.
#[derive(Clone, Debug)]
pub struct PermissionOverride {
    pub id: String,
    pub entity_type: EntityType,
    pub allow: PermissionSet,
    pub deny: PermissionSet,
}

/// The ghost image of a [`PermissionOverride`].
#[verifier::ext_equal]
pub struct OverrideView {
    pub id: Seq<char>,
    pub entity_type: EntityType,
    pub allow: u64,
    pub deny: u64,
}

impl View for PermissionOverride {
    type V = OverrideView;

    open spec fn view(&self) -> OverrideView {
        OverrideView {
            id: self.id@,
            entity_type: self.entity_type,
            allow: self.allow.spec_bits(),
            deny: self.deny.spec_bits(),
        }
    }
}

/// A channel. Direct and group channels stand alone; the other kinds belong
/// to a space and carry that space's per-channel overrides.
#[derive(Clone, Debug)]
pub enum Channel {
    PrivateChannel { id: String, initiator_id: String, target_id: String, scope_id: String },
    GroupChannel {
        id: String,
        name: String,
        description: String,
        owner_id: String,
        members: Vec<String>,
        scope_id: String,
    },
    InformationChannel {
        id: String,
        name: String,
        space_id: String,
        scope_id: String,
        permissions: Vec<PermissionOverride>,
    },
    AnnouncementChannel {
        id: String,
        name: String,
        space_id: String,
        scope_id: String,
        permissions: Vec<PermissionOverride>,
    },
    ChatChannel {
        id: String,
        name: String,
        description: String,
        space_id: String,
        scope_id: String,
        permissions: Vec<PermissionOverride>,
    },
}

impl Channel {
    /// The channel's id, whatever its kind.
    pub fn channel_id(&self) -> (r: &String)
        ensures
            r@ == self.spec_id(),
    {
        match self {
            Channel::PrivateChannel { id, .. } => id,
            Channel::GroupChannel { id, .. } => id,
            Channel::InformationChannel { id, .. } => id,
            Channel::AnnouncementChannel { id, .. } => id,
            Channel::ChatChannel { id, .. } => id,
        }
    }

    pub open spec fn spec_id(self) -> Seq<char> {
        match self {
            Channel::PrivateChannel { id, .. } => id@,
            Channel::GroupChannel { id, .. } => id@,
            Channel::InformationChannel { id, .. } => id@,
            Channel::AnnouncementChannel { id, .. } => id@,
            Channel::ChatChannel { id, .. } => id@,
        }
    }

    /// The space the channel belongs to, when it belongs to one.
    pub open spec fn spec_space_id(self) -> Option<Seq<char>> {
        match self {
            Channel::InformationChannel { space_id, .. } => Some(space_id@),
            Channel::AnnouncementChannel { space_id, .. } => Some(space_id@),
            Channel::ChatChannel { space_id, .. } => Some(space_id@),
            _ => None,
        }
    }

    /// The channel's permission overrides, for the kinds that carry them.
    pub open spec fn spec_overrides(self) -> Option<Seq<OverrideView>> {
        match self {
            Channel::InformationChannel { permissions, .. } => Some(
                permissions@.map_values(|o: PermissionOverride| o@),
            ),
            Channel::AnnouncementChannel { permissions, .. } => Some(
                permissions@.map_values(|o: PermissionOverride| o@),
            ),
            Channel::ChatChannel { permissions, .. } => Some(
                permissions@.map_values(|o: PermissionOverride| o@),
            ),
            _ => None,
        }
    }
}

} // verus!
