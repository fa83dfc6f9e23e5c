//! The call-level RPC methods: start, join, leave and end a call.
//!
//! Each `respond` takes the caller's identity and the records the directory
//! returned for the request — the space, the caller's membership and role
//! records, and the channel — together with the shared call table, and
//! decides the outcome. The surrounding process performs the directory
//! reads, signs tokens, and carries the resulting bus events out.
use vstd::prelude::*;

use crate::api::{NodeEventKind, Region, SessionDescription};
use crate::calls::Call;
use crate::channels::{Channel, OverrideView, PermissionOverride};
use crate::errors::Error;
use crate::members::{spec_channel_permission, Member};
use crate::permissions::Permission;
use crate::roles::{sorted_desc, Role};
use crate::spaces::Space;
use crate::users::User;
use crate::webrtc::{ActiveCall, ActiveCallView, CallRegistry, CallToken, NodeRegistry};
use crate::{contains_id, spec_contains_id};

verus! {

#[derive(Clone, Debug)]
pub struct StartCallMethod {
    /// The channel to start the call in.
    pub id: String,
    pub space_id: Option<String>,
}

#[derive(Clone, Debug)]
pub struct StartCallResponse {
    /// The signed call credential.
    pub token: String,
}

#[derive(Clone, Debug)]
pub struct JoinCallMethod {
    pub id: String,
    pub space_id: Option<String>,
    /// The caller's SDP offer.
    pub sdp: String,
}

#[derive(Clone, Debug)]
pub struct JoinCallResponse {
    /// The node's SDP answer.
    pub sdp: String,
}

#[derive(Clone, Debug)]
pub struct LeaveCallMethod {
    pub id: String,
    pub space_id: Option<String>,
}

#[derive(Clone, Debug)]
pub struct LeaveCallResponse {}

#[derive(Clone, Debug)]
pub struct EndCallMethod {
    pub id: String,
    pub space_id: Option<String>,
}

#[derive(Clone, Debug)]
pub struct EndCallResponse {}

/// The claims a call token asserts toward a node.
#[derive(Clone, Debug)]
pub struct RtcAuthorization {
    pub channel_id: String,
    pub user_id: String,
    pub space_id: Option<String>,
}

/// Why a call operation is refused before it touches the call table, or
/// nothing when the caller may proceed.
///
/// The checks run in request order: an unauthenticated caller learns
/// nothing else; an operation without a space is unimplemented; a missing
/// space, a caller outside it, a missing membership record or a missing
/// channel all read as `NotFound`; and only then is the permission weighed.
pub open spec fn spec_call_auth(
    user: Option<User>,
    space_id: Option<Seq<char>>,
    space: Option<Space>,
    member: Option<Member>,
    roles: Seq<Role>,
    channel: Option<Channel>,
    role_overrides: Seq<OverrideView>,
    permission: Permission,
) -> Option<Error> {
    if user is None {
        Some(Error::NotAuthenticated)
    } else if space_id is None {
        Some(Error::Unimplemented)
    } else if space is None {
        Some(Error::NotFound)
    } else if !spec_contains_id(space.unwrap().members@, user.unwrap().id@) {
        Some(Error::NotFound)
    } else if member is None {
        Some(Error::NotFound)
    } else if channel is None {
        Some(Error::NotFound)
    } else if !spec_channel_permission(
        member.unwrap(),
        space.unwrap(),
        roles,
        channel.unwrap(),
        role_overrides,
        permission,
    ) {
        Some(Error::MissingPermission { permission })
    } else {
        None
    }
}

/// The shared authorization prefix of every call operation.
fn check_call_auth(
    user: Option<&User>,
    space_id: &Option<String>,
    space: Option<&Space>,
    member: Option<&Member>,
    roles: &Vec<Role>,
    channel: Option<&Channel>,
    role_overrides: &Vec<PermissionOverride>,
    permission: Permission,
) -> (r: Option<Error>)
    requires
        sorted_desc(roles@),
    ensures
        r == spec_call_auth(
            match user {
                Some(u) => Some(*u),
                None => None,
            },
            match *space_id {
                Some(s) => Some(s@),
                None => None,
            },
            match space {
                Some(s) => Some(*s),
                None => None,
            },
            match member {
                Some(m) => Some(*m),
                None => None,
            },
            roles@,
            match channel {
                Some(c) => Some(*c),
                None => None,
            },
            role_overrides@.map_values(|o: PermissionOverride| o@),
            permission,
        ),
{
    let Some(user) = user else { return Some(Error::NotAuthenticated) };
    if space_id.is_none() {
        return Some(Error::Unimplemented);
    }
    let Some(space) = space else { return Some(Error::NotFound) };
    if !contains_id(&space.members, &user.id) {
        return Some(Error::NotFound);
    }
    let Some(member) = member else { return Some(Error::NotFound) };
    let Some(channel) = channel else { return Some(Error::NotFound) };
    if !member.get_permission_in_channel(space, roles, channel, role_overrides, permission) {
        return Some(Error::MissingPermission { permission });
    }
    None
}

/// What a successful `START_CALL` decides: the claims to sign into the
/// caller's credential, and the historical call record to persist, its
/// clock field starting at the creation time and refreshed while the call
/// lives. The new table entry itself is in the call table.
#[derive(Debug)]
pub struct StartCallOutcome {
    pub token: CallToken,
    pub record: Call,
}

/// What a successful `JOIN_CALL` decides: the claims to sign, and the
/// `UserConnect` to publish toward the call's node. The answer comes back
/// on the bus and completes the response.
#[derive(Debug)]
pub struct JoinCallOutcome {
    pub token: CallToken,
    pub connect: NodeEventKind,
}

impl StartCallMethod {
    /// Authorize and start a call in this channel: exactly one call per
    /// channel may exist, placed on the best live node.
    pub fn respond(
        &self,
        user: Option<&User>,
        space: Option<&Space>,
        member: Option<&Member>,
        roles: &Vec<Role>,
        channel: Option<&Channel>,
        role_overrides: &Vec<PermissionOverride>,
        calls: &mut CallRegistry,
        nodes: &NodeRegistry,
        region: Region,
        new_call_id: String,
        now: u64,
    ) -> (r: Result<StartCallOutcome, Error>)
        requires
            sorted_desc(roles@),
            old(calls).wf(),
            now + crate::webrtc::CALL_TOKEN_LIFETIME_MS <= u64::MAX,
            forall|i: int| 0 <= i < nodes@.len() ==> #[trigger] nodes@[i].last_ping <= now,
        ensures
            final(calls).wf(),
            ({
                let auth = spec_call_auth(
                    match user {
                        Some(u) => Some(*u),
                        None => None,
                    },
                    match self.space_id {
                        Some(s) => Some(s@),
                        None => None,
                    },
                    match space {
                        Some(s) => Some(*s),
                        None => None,
                    },
                    match member {
                        Some(m) => Some(*m),
                        None => None,
                    },
                    roles@,
                    match channel {
                        Some(c) => Some(*c),
                        None => None,
                    },
                    role_overrides@.map_values(|o: PermissionOverride| o@),
                    Permission::StartCalls,
                );
                match r {
                    Err(e) => final(calls)@ == old(calls)@ && (match auth {
                        Some(ae) => e == ae,
                        None => (e matches Error::NoVoiceNodesAvailable && (forall|j: int|
                            0 <= j < nodes@.len() ==> !(now - (#[trigger] nodes@[j]).last_ping
                                < 10000))) || (e matches Error::AlreadyExists && (
                        crate::webrtc::spec_find_call(
                            old(calls)@,
                            self.space_id.unwrap()@,
                            self.id@,
                        ) != -1 || exists|j: int|
                            0 <= j < old(calls)@.len() && (#[trigger] old(calls)@[j]).id
                                == new_call_id@)),
                    }),
                    Ok(outcome) => auth is None && ({
                        let prev = old(calls)@;
                        &&& outcome.token.user_id@ == user.unwrap().id@
                        &&& outcome.token.call_id@ == new_call_id@
                        &&& outcome.token.expires_at == now
                            + crate::webrtc::CALL_TOKEN_LIFETIME_MS
                        &&& outcome.record.id@ == new_call_id@
                        &&& outcome.record.channel_id@ == self.id@
                        &&& outcome.record.joined_members.deep_view() == seq![user.unwrap().id@]
                        &&& outcome.record.ended_at == now
                        &&& final(calls)@.len() == prev.len() + 1
                        &&& final(calls)@.last().id == new_call_id@
                        &&& final(calls)@.last().space_id == self.space_id.unwrap()@
                        &&& final(calls)@.last().channel_id == self.id@
                        &&& final(calls)@.last().members == seq![user.unwrap().id@]
                        &&& final(calls)@.take(prev.len() as int) == prev
                        &&& exists|i: int|
                            0 <= i < nodes@.len() && now - (#[trigger] nodes@[i]).last_ping
                                < 10000 && final(calls)@.last().node_id == nodes@[i].id && (
                            forall|j: int|
                                0 <= j < nodes@.len() && j != i && now - (
                                #[trigger] nodes@[j]).last_ping < 10000
                                    ==> !crate::webrtc::spec_better_node(
                                    nodes@[j],
                                    nodes@[i],
                                    region,
                                    prev,
                                ))
                    }),
                }
            }),
    {
        let auth = check_call_auth(
            user,
            &self.space_id,
            space,
            member,
            roles,
            channel,
            role_overrides,
            Permission::StartCalls,
        );
        if let Some(e) = auth {
            return Err(e);
        }
        let user = user.unwrap();
        let space_id = self.space_id.as_ref().unwrap();
        let picked = nodes.select_node(region, now, calls);
        let Some(node_index) = picked else { return Err(Error::NoVoiceNodesAvailable) };
        assert(nodes@[node_index as int].id == nodes.nodes@[node_index as int].id@);
        let node_id = nodes.nodes[node_index].id.clone();
        assert(node_id@ == nodes@[node_index as int].id);
        let created = calls.create(space_id, &self.id, &user.id, new_call_id, node_id, now);
        match created {
            Ok(i) => {
                proof {
                    assert(calls@ == calls.calls@.map_values(|c: ActiveCall| c@));
                    assert(calls@.len() == calls.calls@.len());
                    assert(calls@.take(old(calls)@.len() as int) =~= old(calls)@);
                }
                let call = &calls.calls[i];
                assert(call@ == calls@[i as int]);
                assert(calls@.last() == calls@[i as int]);
                let token = call.get_token(&user.id, now);
                let mut joined: Vec<String> = Vec::new();
                joined.push(user.id.clone());
                assert(joined.deep_view() =~= seq![user.id@]);
                let record = Call {
                    id: call.id.clone(),
                    name: None,
                    channel_id: self.id.clone(),
                    joined_members: joined,
                    ended_at: now,
                };
                Ok(StartCallOutcome { token, record })
            },
            Err(e) => Err(e),
        }
    }
}

impl JoinCallMethod {
    /// Authorize and join the channel's call: the caller is appended to the
    /// members (at most once), and a `UserConnect` carrying the caller's
    /// offer must be published to the call's node.
    pub fn respond(
        &self,
        user: Option<&User>,
        space: Option<&Space>,
        member: Option<&Member>,
        roles: &Vec<Role>,
        channel: Option<&Channel>,
        role_overrides: &Vec<PermissionOverride>,
        calls: &mut CallRegistry,
        session_id: String,
        now: u64,
    ) -> (r: Result<JoinCallOutcome, Error>)
        requires
            sorted_desc(roles@),
            old(calls).wf(),
            now + crate::webrtc::CALL_TOKEN_LIFETIME_MS <= u64::MAX,
        ensures
            final(calls).wf(),
            ({
                let auth = spec_call_auth(
                    match user {
                        Some(u) => Some(*u),
                        None => None,
                    },
                    match self.space_id {
                        Some(s) => Some(s@),
                        None => None,
                    },
                    match space {
                        Some(s) => Some(*s),
                        None => None,
                    },
                    match member {
                        Some(m) => Some(*m),
                        None => None,
                    },
                    roles@,
                    match channel {
                        Some(c) => Some(*c),
                        None => None,
                    },
                    role_overrides@.map_values(|o: PermissionOverride| o@),
                    Permission::JoinCalls,
                );
                let found = auth is None && crate::webrtc::spec_find_call(
                    old(calls)@,
                    self.space_id.unwrap()@,
                    self.id@,
                ) != -1;
                match r {
                    Err(e) => final(calls)@ == old(calls)@ && (match auth {
                        Some(ae) => e == ae,
                        None => e matches Error::NotFound && crate::webrtc::spec_find_call(
                            old(calls)@,
                            self.space_id.unwrap()@,
                            self.id@,
                        ) == -1,
                    }),
                    Ok(outcome) => found && ({
                        let i = crate::webrtc::spec_find_call(
                            old(calls)@,
                            self.space_id.unwrap()@,
                            self.id@,
                        );
                        &&& outcome.token.user_id@ == user.unwrap().id@
                        &&& outcome.token.call_id@ == old(calls)@[i].id
                        &&& outcome.token.expires_at == now
                            + crate::webrtc::CALL_TOKEN_LIFETIME_MS
                        &&& (outcome.connect matches NodeEventKind::UserConnect {
                            session_id: sid,
                            call_id,
                            sdp,
                        } && sid@ == session_id@ && call_id@ == old(calls)@[i].id && (
                        sdp matches SessionDescription::Offer(o) && o@ == self.sdp@))
                        &&& (if crate::webrtc::spec_member(
                            old(calls)@[i].members,
                            user.unwrap().id@,
                        ) {
                            final(calls)@ == old(calls)@
                        } else {
                            final(calls)@ == old(calls)@.update(
                                i,
                                (ActiveCallView {
                                    members: old(calls)@[i].members.push(user.unwrap().id@),
                                    ..old(calls)@[i]
                                }),
                            )
                        })
                    }),
                }
            }),
    {
        let auth = check_call_auth(
            user,
            &self.space_id,
            space,
            member,
            roles,
            channel,
            role_overrides,
            Permission::JoinCalls,
        );
        if let Some(e) = auth {
            return Err(e);
        }
        let user = user.unwrap();
        let space_id = self.space_id.as_ref().unwrap();
        let joined = calls.join_user(space_id, &self.id, &user.id);
        match joined {
            Ok(i) => {
                proof {
                    assert(calls@ == calls.calls@.map_values(|c: ActiveCall| c@));
                    assert(calls@.len() == calls.calls@.len());
                    assert(old(calls)@.len() == calls@.len());
                }
                let call = &calls.calls[i];
                assert(call@ == calls@[i as int]);
                let token = call.get_token(&user.id, now);
                let connect = NodeEventKind::UserConnect {
                    session_id,
                    call_id: call.id.clone(),
                    sdp: SessionDescription::Offer(self.sdp.clone()),
                };
                Ok(JoinCallOutcome { token, connect })
            },
            Err(e) => Err(e),
        }
    }
}

impl LeaveCallMethod {
    /// Leave the channel's call: the caller must be authenticated and in the
    /// call; the call ends when its last member leaves. No channel
    /// permission is needed to leave.
    pub fn respond(&self, user: Option<&User>, calls: &mut CallRegistry) -> (r: Result<
        LeaveCallResponse,
        Error,
    >)
        requires
            old(calls).wf(),
        ensures
            final(calls).wf(),
            user is None ==> (r matches Err(Error::NotAuthenticated) && final(calls)@ == old(
                calls,
            )@),
            user matches Some(u) && self.space_id is None ==> (r matches Err(Error::Unimplemented)
                && final(calls)@ == old(calls)@),
            user is Some && self.space_id is Some ==> {
                let u = user.unwrap();
                let sp = self.space_id.unwrap();
                let i = crate::webrtc::spec_find_call(old(calls)@, sp@, self.id@);
                if i == -1 || !crate::webrtc::spec_member(old(calls)@[i].members, u.id@) {
                    r matches Err(Error::NotFound) && final(calls)@ == old(calls)@
                } else {
                    let remaining = old(calls)@[i].members.filter(|m: Seq<char>| m != u.id@);
                    r matches Ok(_) && (if remaining.len() == 0 {
                        final(calls)@ == old(calls)@.remove(i)
                    } else {
                        final(calls)@ == old(calls)@.update(
                            i,
                            (ActiveCallView { members: remaining, ..old(calls)@[i] }),
                        )
                    })
                }
            },
    {
        let Some(user) = user else { return Err(Error::NotAuthenticated) };
        let Some(space_id) = self.space_id.as_ref() else { return Err(Error::Unimplemented) };
        match calls.leave_user(space_id, &self.id, &user.id) {
            Ok(_) => Ok(LeaveCallResponse {  }),
            Err(e) => Err(e),
        }
    }
}

impl EndCallMethod {
    /// Authorize and end the channel's call outright. The returned members
    /// are the users a `UserDisconnect` must now be published for. Ending
    /// is idempotent: once the call is gone, a repeat returns `NotFound`
    /// and changes nothing.
    pub fn respond(
        &self,
        user: Option<&User>,
        space: Option<&Space>,
        member: Option<&Member>,
        roles: &Vec<Role>,
        channel: Option<&Channel>,
        role_overrides: &Vec<PermissionOverride>,
        calls: &mut CallRegistry,
    ) -> (r: Result<Vec<String>, Error>)
        requires
            sorted_desc(roles@),
            old(calls).wf(),
        ensures
            final(calls).wf(),
            ({
                let auth = spec_call_auth(
                    match user {
                        Some(u) => Some(*u),
                        None => None,
                    },
                    match self.space_id {
                        Some(s) => Some(s@),
                        None => None,
                    },
                    match space {
                        Some(s) => Some(*s),
                        None => None,
                    },
                    match member {
                        Some(m) => Some(*m),
                        None => None,
                    },
                    roles@,
                    match channel {
                        Some(c) => Some(*c),
                        None => None,
                    },
                    role_overrides@.map_values(|o: PermissionOverride| o@),
                    Permission::ManageCalls,
                );
                match r {
                    Err(e) => final(calls)@ == old(calls)@ && (match auth {
                        Some(ae) => e == ae,
                        None => e matches Error::NotFound && crate::webrtc::spec_find_call(
                            old(calls)@,
                            self.space_id.unwrap()@,
                            self.id@,
                        ) == -1,
                    }),
                    Ok(members) => auth is None && ({
                        let i = crate::webrtc::spec_find_call(
                            old(calls)@,
                            self.space_id.unwrap()@,
                            self.id@,
                        );
                        &&& i != -1
                        &&& members.deep_view() == old(calls)@[i].members
                        &&& final(calls)@ == old(calls)@.remove(i)
                    }),
                }
            }),
    {
        let auth = check_call_auth(
            user,
            &self.space_id,
            space,
            member,
            roles,
            channel,
            role_overrides,
            Permission::ManageCalls,
        );
        if let Some(e) = auth {
            return Err(e);
        }
        let space_id = self.space_id.as_ref().unwrap();
        calls.end(space_id, &self.id)
    }
}

} // verus!
