//! The RPC surface: one submodule per method family, mirroring the wire
//! protocol's grouping.
pub mod authentication;
pub mod channels;
pub mod invites;
pub mod messages;
pub mod roles;
pub mod spaces;
pub mod webrtc;

use vstd::prelude::*;

verus! {

/// A friend request toward a user, through a shared channel.
#[derive(Clone, Debug)]
pub struct AddFriendMethod {
    pub channel_id: String,
    pub friend_id: String,
}

#[derive(Clone, Debug)]
pub struct RemoveFriendMethod {
    pub channel_id: String,
    pub friend_id: String,
}

#[derive(Clone, Debug)]
pub struct GetFriendsMethod {}

#[derive(Clone, Debug)]
pub struct GetFriendRequestsMethod {}

#[derive(Clone, Debug)]
pub struct AcknowledgeFriendRequestMethod {
    pub channel_id: String,
    pub friend_id: String,
}

/// What a new channel of each kind asks for, as older clients send it.
#[derive(Clone, Debug)]
pub enum CreateChannelType {
    PrivateChannel { peer_id: String, scope_id: String },
    GroupChannel { name: String, description: String, members: Vec<String>, scope_id: String },
    InformationChannel { name: String, description: String, nexus_id: String, scope_id: String },
    TextChannel { name: String, description: String, nexus_id: String, scope_id: String },
}

} // verus!
