//! Reading and shaping channels.
use vstd::prelude::*;

use crate::channels::Channel;
use crate::errors::Error;
use crate::users::User;
use crate::spec_contains_id;

verus! {

#[derive(Clone, Debug)]
pub struct GetChannelMethod {
    pub id: String,
    pub scope_id: Option<String>,
    pub space_id: Option<String>,
}

#[derive(Clone, Debug)]
pub struct GetChannelResponse {
    pub channel: Channel,
}

#[derive(Clone, Debug)]
pub struct GetChannelsMethod {
    pub scope_id: Option<String>,
}

#[derive(Clone, Debug)]
pub struct GetChannelsResponse {
    pub channels: Vec<Channel>,
}

#[derive(Clone, Debug)]
pub struct CreateChannelMethod {
    pub channel: ChannelInformation,
}

/// What a new channel of each kind needs.
#[derive(Clone, Debug)]
pub enum ChannelInformation {
    PrivateChannel { target_id: String, scope_id: Option<String> },
    GroupChannel { scope_id: String, name: String, description: Option<String> },
    InformationChannel {
        space_id: String,
        scope_id: Option<String>,
        name: String,
        description: Option<String>,
    },
    AnnouncementChannel {
        space_id: String,
        scope_id: Option<String>,
        name: String,
        description: Option<String>,
    },
    ChatChannel {
        space_id: String,
        scope_id: Option<String>,
        name: String,
        description: Option<String>,
    },
}

#[derive(Clone, Debug)]
pub struct EditChannelMethod {
    pub channel_id: String,
    pub name: Option<String>,
    pub description: Option<String>,
}

#[derive(Clone, Debug)]
pub struct DeleteChannelMethod {
    pub channel_id: String,
}

#[derive(Clone, Debug)]
pub struct AddUserToChannelMethod {
    pub channel_id: String,
    pub user_id: String,
}

/// Whether the caller may read the channel, as `GET_CHANNEL` decides it: a
/// direct or group channel only for a participant, and never through a
/// space; a space channel only through its own space, and only for one of
/// that space's members. Outsiders learn only `NotFound`.
pub open spec fn spec_channel_access(
    user: User,
    channel: Channel,
    requested_space: Option<Seq<char>>,
    user_in_space: bool,
) -> bool {
    match channel.spec_space_id() {
        None => requested_space is None && (match channel {
            Channel::PrivateChannel { initiator_id, target_id, .. } => initiator_id@ == user.id@
                || target_id@ == user.id@,
            Channel::GroupChannel { members, .. } => spec_contains_id(members@, user.id@),
            _ => false,
        }),
        Some(space_id) => requested_space matches Some(sp) && sp == space_id && user_in_space,
    }
}

impl GetChannelMethod {
    /// Decide whether the caller may read the channel. `user_in_space` is
    /// what the directory said about the caller's membership of the
    /// channel's space, when the channel has one.
    pub fn check_access(
        &self,
        user: Option<&User>,
        channel: Option<&Channel>,
        user_in_space: bool,
    ) -> (r: Result<(), Error>)
        ensures
            match r {
                Err(e) => {
                    if user is None {
                        e matches Error::NotAuthenticated
                    } else {
                        (e matches Error::NotFound) && (channel is None || !spec_channel_access(
                            *user.unwrap(),
                            *channel.unwrap(),
                            match self.space_id {
                                Some(sp) => Some(sp@),
                                None => None,
                            },
                            user_in_space,
                        ))
                    }
                },
                Ok(_) => user is Some && channel is Some && spec_channel_access(
                    *user.unwrap(),
                    *channel.unwrap(),
                    match self.space_id {
                        Some(sp) => Some(sp@),
                        None => None,
                    },
                    user_in_space,
                ),
            },
    {
        let Some(user) = user else { return Err(Error::NotAuthenticated) };
        let Some(channel) = channel else { return Err(Error::NotFound) };
        match channel {
            Channel::PrivateChannel { .. } | Channel::GroupChannel { .. } => {
                if self.space_id.is_some() {
                    return Err(Error::NotFound);
                }
                match user.in_channel(channel) {
                    Some(true) => Ok(()),
                    _ => Err(Error::NotFound),
                }
            },
            Channel::InformationChannel { space_id, .. }
            | Channel::AnnouncementChannel { space_id, .. }
            | Channel::ChatChannel { space_id, .. } => {
                match &self.space_id {
                    Some(requested) => {
                        if !requested.eq(space_id) {
                            return Err(Error::NotFound);
                        }
                        if !user_in_space {
                            return Err(Error::NotFound);
                        }
                        Ok(())
                    },
                    None => Err(Error::NotFound),
                }
            },
        }
    }
}

} // verus!
