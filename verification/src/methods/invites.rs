//! Creating, reading and revoking invites.
use vstd::prelude::*;

use crate::channels::Channel;
use crate::errors::Error;
use crate::invites::Invite;
use crate::users::User;
use crate::{contains_id, spec_contains_id};

verus! {

#[derive(Clone, Debug)]
pub struct CreateInviteMethod {
    pub channel_id: String,
    pub max_uses: Option<i32>,
    pub expires_at: Option<u64>,
    pub authorized_users: Option<Vec<String>>,
    pub space_id: Option<String>,
    pub scope_id: Option<String>,
}

#[derive(Clone, Debug)]
pub struct CreateInviteResponse {
    pub invite: Invite,
}

#[derive(Clone, Debug)]
pub struct DeleteInviteMethod {
    pub id: String,
    pub space_id: String,
}

#[derive(Clone, Debug)]
pub struct DeleteInviteResponse {}

#[derive(Clone, Debug)]
pub struct GetInviteMethod {
    pub code: String,
}

/// What an invite looks like from outside: enough to decide whether to
/// accept it.
#[derive(Clone, Debug)]
pub enum InviteInformation {
    Group {
        name: String,
        description: String,
        inviter_id: String,
        authorized: bool,
        member_count: usize,
    },
    Space {
        name: Vec<u8>,
        description: Vec<u8>,
        inviter_id: String,
        banned: bool,
        authorized: bool,
        member_count: usize,
    },
}

#[derive(Clone, Debug)]
pub struct GetInviteResponse {
    pub invite: InviteInformation,
}

#[derive(Clone, Debug)]
pub struct GetInvitesMethod {
    pub channel_id: String,
    pub space_id: Option<String>,
    pub scope_id: Option<String>,
}

#[derive(Clone, Debug)]
pub struct GetInvitesResponse {
    pub invites: Vec<Invite>,
}

/// Whether this user may redeem the invite: an invite without an
/// authorized list is open to everyone.
pub open spec fn spec_invite_authorizes(invite: Invite, user_id: Seq<char>) -> bool {
    match invite.authorized_users {
        Some(list) => spec_contains_id(list@, user_id),
        None => true,
    }
}

impl CreateInviteMethod {
    /// Shape the new invite for this channel. The caller persists it.
    pub fn respond(
        &self,
        user: Option<&User>,
        new_invite_id: String,
        code: String,
        now: u64,
    ) -> (r: Result<(Invite, CreateInviteResponse), Error>)
        ensures
            match r {
                Err(e) => user is None && (e matches Error::NotAuthenticated),
                Ok((invite, response)) => {
                    &&& user is Some
                    &&& invite.id@ == new_invite_id@
                    &&& invite.code@ == code@
                    &&& invite.channel_id@ == self.channel_id@
                    &&& invite.creator@ == user.unwrap().id@
                    &&& invite.created_at == now
                    &&& invite.expires_at == self.expires_at
                    &&& invite.max_uses == self.max_uses
                    &&& invite.uses@.len() == 0
                    &&& (match self.scope_id {
                        Some(sc) => invite.scope_id@ == sc@,
                        None => invite.scope_id@ == "global"@,
                    })
                    &&& response.invite.id@ == new_invite_id@
                },
            },
    {
        let Some(user) = user else { return Err(Error::NotAuthenticated) };
        let scope_id = match &self.scope_id {
            Some(s) => s.clone(),
            None => "global".to_owned(),
        };
        let invite = Invite {
            id: new_invite_id.clone(),
            code,
            channel_id: self.channel_id.clone(),
            creator: user.id.clone(),
            created_at: now,
            expires_at: self.expires_at,
            max_uses: self.max_uses,
            uses: Vec::new(),
            authorized_users: clone_opt_ids(&self.authorized_users),
            space_id: match &self.space_id {
                Some(s) => Some(s.clone()),
                None => None,
            },
            scope_id,
        };
        let response = CreateInviteResponse { invite: clone_invite(&invite) };
        Ok((invite, response))
    }
}

/// A field-for-field copy of an optional id list.
fn clone_opt_ids(v: &Option<Vec<String>>) -> (r: Option<Vec<String>>)
    ensures
        match v {
            Some(list) => r matches Some(rl) && rl@ == list@,
            None => r is None,
        },
{
    match v {
        Some(list) => {
            let copy = list.clone();
            assert(copy@ =~= list@);
            Some(copy)
        },
        None => None,
    }
}

/// A field-for-field copy of an invite record.
pub fn clone_invite(i: &Invite) -> (r: Invite)
    ensures
        r.id@ == i.id@,
        r.code@ == i.code@,
        r.channel_id@ == i.channel_id@,
        r.creator@ == i.creator@,
        r.created_at == i.created_at,
        r.expires_at == i.expires_at,
        r.max_uses == i.max_uses,
        r.uses@ == i.uses@,
        r.scope_id@ == i.scope_id@,
{
    let uses = i.uses.clone();
    assert(uses@ =~= i.uses@);
    Invite {
        id: i.id.clone(),
        code: i.code.clone(),
        channel_id: i.channel_id.clone(),
        creator: i.creator.clone(),
        created_at: i.created_at,
        expires_at: i.expires_at,
        max_uses: i.max_uses,
        uses,
        authorized_users: clone_opt_ids(&i.authorized_users),
        space_id: match &i.space_id {
            Some(s) => Some(s.clone()),
            None => None,
        },
        scope_id: i.scope_id.clone(),
    }
}

impl GetInviteMethod {
    /// Describe a group invite to the caller: the group's face, whether the
    /// caller may redeem it, and how many members are inside.
    pub fn describe_group(user: &User, invite: &Invite, channel: &Channel) -> (r: Result<
        GetInviteResponse,
        Error,
    >)
        ensures
            match *channel {
                Channel::GroupChannel { .. } => r matches Ok(resp) && (
                resp.invite matches InviteInformation::Group {
                    name,
                    inviter_id,
                    authorized,
                    member_count,
                    ..
                } && (channel matches Channel::GroupChannel { name: cn, members, .. } && name@
                    == cn@ && member_count == members@.len()) && inviter_id@ == invite.creator@
                    && authorized == spec_invite_authorizes(*invite, user.id@)),
                _ => r matches Err(Error::InvalidInvite),
            },
    {
        match channel {
            Channel::GroupChannel { name, description, members, .. } => {
                let authorized = match &invite.authorized_users {
                    Some(list) => contains_id(list, &user.id),
                    None => true,
                };
                Ok(
                    GetInviteResponse {
                        invite: InviteInformation::Group {
                            name: name.clone(),
                            description: description.clone(),
                            inviter_id: invite.creator.clone(),
                            authorized,
                            member_count: members.len(),
                        },
                    },
                )
            },
            _ => Err(Error::InvalidInvite),
        }
    }

    /// Describe a space invite to the caller.
    pub fn describe_space(
        user: &User,
        invite: &Invite,
        space: &crate::spaces::Space,
        banned: bool,
    ) -> (r: GetInviteResponse)
        ensures
            r.invite matches InviteInformation::Space {
                name,
                inviter_id,
                banned: b,
                authorized,
                member_count,
                ..
            } && name@ == space.name@ && inviter_id@ == invite.creator@ && b == banned
                && authorized == spec_invite_authorizes(*invite, user.id@) && member_count
                == space.members@.len(),
    {
        let authorized = match &invite.authorized_users {
            Some(list) => contains_id(list, &user.id),
            None => true,
        };
        let name = space.name.clone();
        let description = space.description.clone();
        proof {
            assert(name@ =~= space.name@);
            assert(description@ =~= space.description@);
        }
        GetInviteResponse {
            invite: InviteInformation::Space {
                name,
                description,
                inviter_id: invite.creator.clone(),
                banned,
                authorized,
                member_count: space.members.len(),
            },
        }
    }
}

} // verus!
