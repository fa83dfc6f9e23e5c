//! The media node's face to the cluster: what it announces on the bus, how
//! it reacts to bus commands, and how it places sessions on local ports.
use vstd::prelude::*;

use crate::api::{NodeDescription, NodeEvent, NodeEventKind, Region};
use crate::errors::Error;
use crate::spec_contains_id;

verus! {

/// The kinds of media a track can carry.
#[derive(Clone, Copy, Debug, PartialEq, Eq, Structural, Hash)]
pub enum MediaType {
    Audio,
    Video,
    ScreenAudio,
    ScreenVideo,
}

/// A track as clients learn about it: whose it is and what it carries.
#[derive(Clone, Debug)]
pub struct RemoteTrack {
    pub id: String,
    pub user_id: String,
    pub media_type: MediaType,
}

/// What a joining user may produce.
#[derive(Clone, Copy, Debug)]
pub struct UserCapabilities {
    pub audio: bool,
    pub video: bool,
    pub screenshare: bool,
}

impl Default for UserCapabilities {
    /// By default nothing may be produced.
    fn default() -> (r: Self)
        ensures
            !r.audio && !r.video && !r.screenshare,
    {
        UserCapabilities { audio: false, video: false, screenshare: false }
    }
}

/// A joining user, as the bus announces them to the node.
#[derive(Clone, Debug)]
pub struct UserInformation {
    pub id: String,
    pub capabilities: UserCapabilities,
}

/// The first UDP port a session may bind.
pub const PORT_RANGE_START: u16 = 10000;

/// The number of UDP ports a node may hand to sessions.
pub const PORT_RANGE_LEN: u16 = 1000;

/// Pick a free UDP port for a fresh session from the node's fixed range,
/// or nothing — the node is full — when every port is taken.
pub fn allocate_port(used: &Vec<u16>) -> (r: Option<u16>)
    ensures
        match r {
            Some(p) => PORT_RANGE_START <= p < PORT_RANGE_START + PORT_RANGE_LEN && !used@.contains(
                p,
            ),
            None => forall|p: u16|
                PORT_RANGE_START <= p < PORT_RANGE_START + PORT_RANGE_LEN ==> used@.contains(p),
        },
{
    let mut offset: u16 = 0;
    while offset < PORT_RANGE_LEN
        invariant
            0 <= offset <= PORT_RANGE_LEN,
            forall|p: u16|
                PORT_RANGE_START <= p < PORT_RANGE_START + offset ==> used@.contains(p),
        decreases PORT_RANGE_LEN - offset,
    {
        let candidate: u16 = PORT_RANGE_START + offset;
        let mut taken: bool = false;
        let mut i: usize = 0;
        while i < used.len()
            invariant
                0 <= i <= used@.len(),
                taken ==> used@.contains(candidate),
                !taken ==> forall|j: int| 0 <= j < i ==> used@[j] != candidate,
            decreases used@.len() - i,
        {
            if used[i] == candidate {
                taken = true;
            }
            i += 1;
        }
        if !taken {
            assert(!used@.contains(candidate));
            return Some(candidate);
        }
        offset += 1;
    }
    None
}

/// What the node does in reaction to one bus event.
#[derive(Clone, Debug)]
pub enum NodeAction {
    /// Publish our `Description` again, in answer to a `Query`.
    Announce(NodeDescription),
    /// Spawn a session for a placed user and answer its offer.
    SpawnSession { session_id: String, call_id: String, offer: String },
    /// Tear an existing session down.
    DestroySession { session_id: String },
}

/// Decide the node's reaction to one bus event. Events the node published
/// itself are ignored, as is a `UserConnect` for a session id already
/// running: re-delivered placements must not spawn a second session.
pub fn handle_bus_event(
    instance_id: &String,
    region: Region,
    sessions: &Vec<String>,
    event: &NodeEvent,
) -> (r: Option<NodeAction>)
    ensures
        event.id@ == instance_id@ ==> r is None,
        event.id@ != instance_id@ ==> match event.event {
            NodeEventKind::Query => r matches Some(a) && (a matches NodeAction::Announce(d)
                && d.region == region),
            NodeEventKind::UserConnect { session_id, call_id, ref sdp } => {
                if spec_contains_id(sessions@, session_id@) {
                    r is None
                } else {
                    match *sdp {
                        crate::api::SessionDescription::Offer(o) => r matches Some(
                            a,
                        ) && (a matches NodeAction::SpawnSession {
                            session_id: sid,
                            call_id: cid,
                            offer,
                        } && sid@ == session_id@ && cid@ == call_id@ && offer@ == o@),
                        _ => r is None,
                    }
                }
            },
            NodeEventKind::UserDisconnect { id } => {
                if spec_contains_id(sessions@, id@) {
                    r matches Some(a) && (a matches NodeAction::DestroySession { session_id }
                        && session_id@ == id@)
                } else {
                    r is None
                }
            },
            _ => r is None,
        },
{
    if event.id.eq(instance_id) {
        return None;
    }
    match &event.event {
        NodeEventKind::Query => Some(NodeAction::Announce(NodeDescription { region })),
        NodeEventKind::UserConnect { session_id, call_id, sdp } => {
            if crate::contains_id(sessions, session_id) {
                return None;
            }
            match sdp {
                crate::api::SessionDescription::Offer(o) => Some(
                    NodeAction::SpawnSession {
                        session_id: session_id.clone(),
                        call_id: call_id.clone(),
                        offer: o.clone(),
                    },
                ),
                _ => None,
            }
        },
        NodeEventKind::UserDisconnect { id } => {
            if crate::contains_id(sessions, id) {
                Some(NodeAction::DestroySession { session_id: id.clone() })
            } else {
                None
            }
        },
        _ => None,
    }
}

/// What the message-pack encoding makes of one string; a function of its
/// characters alone.
pub uninterp spec fn msgpack_str_of(s: Seq<char>) -> Seq<u8>;

/// Frame a track's mid for the data channel.
///
/// Relies on rmp_serde's `to_vec`: the encoding of a string is a function
/// of its characters.
#[verifier::external_body]
pub fn encode_track_notice(mid: &String) -> (r: Option<Vec<u8>>)
    ensures
        r matches Some(v) ==> v@ == msgpack_str_of(mid@),
{
    match rmp_serde::to_vec(mid) {
        Ok(v) => Some(v),
        Err(_) => None,
    }
}

} // verus!
