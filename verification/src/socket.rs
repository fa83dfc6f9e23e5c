//! The client session layer: one connected client's state, and the framing
//! rules every request and response obey.
//!
//! The surrounding process owns the socket, parses frames, and performs the
//! dispatched work; which frame is answered, with which id, and what
//! happens to the client's nonces is decided here.
use vstd::prelude::*;

use crate::errors::Error;
use crate::methods::authentication::{
    GetIdMethod, GetIdResponse, HeartbeatMethod, HeartbeatResponse, IdentifyMethod,
    IdentifyResponse,
};
use crate::methods::channels::{
    GetChannelMethod, GetChannelResponse, GetChannelsMethod, GetChannelsResponse,
};
use crate::methods::invites::{
    CreateInviteMethod, CreateInviteResponse, DeleteInviteMethod, DeleteInviteResponse,
    GetInviteMethod, GetInviteResponse, GetInvitesMethod, GetInvitesResponse,
};
use crate::methods::messages::{
    GetMessagesMethod, GetMessagesResponse, SendMessageMethod, SendMessageResponse,
};
use crate::methods::roles::{
    CreateRoleMethod, CreateRoleResponse, DeleteRoleMethod, DeleteRoleResponse, EditRoleMethod,
    EditRoleResponse,
};
use crate::methods::spaces::{
    CreateSpaceMethod, CreateSpaceResponse, DeleteSpaceMethod, DeleteSpaceResponse,
    EditSpaceMethod, EditSpaceResponse, GetSpaceMethod, GetSpaceResponse, GetSpacesMethod,
    GetSpacesResponse, JoinSpaceMethod, JoinSpaceResponse, LeaveSpaceMethod, LeaveSpaceResponse,
};
use crate::methods::webrtc::{
    EndCallMethod, EndCallResponse, JoinCallMethod, JoinCallResponse, LeaveCallMethod,
    LeaveCallResponse, StartCallMethod, StartCallResponse,
};
use crate::messages::Message;
use crate::users::User;
use crate::{spec_contains_id, first_where, lemma_filter_push, lemma_first_where};

verus! {

/// One connected client, as the broker remembers it between frames: its
/// connection id, the user bound by `IDENTIFY`, and the request nonces it
/// may still spend.
#[derive(Debug)]
pub struct RpcClient {
    pub id: String,
    pub user: Option<User>,
    pub request_ids: Vec<String>,
}

/// One request frame, already decoded: the nonce it spends and the method
/// it invokes.
#[derive(Debug)]
pub struct RpcApiMethod {
    pub id: Option<String>,
    pub method: Method,
}

/// Every method a client can invoke.
#[derive(Clone, Debug)]
pub enum Method {
    Identify(IdentifyMethod),
    Heartbeat(HeartbeatMethod),
    GetId(GetIdMethod),
    StartCall(StartCallMethod),
    JoinCall(JoinCallMethod),
    LeaveCall(LeaveCallMethod),
    EndCall(EndCallMethod),
    GetMessages(GetMessagesMethod),
    SendMessage(SendMessageMethod),
    GetChannel(GetChannelMethod),
    GetChannels(GetChannelsMethod),
    GetSpace(GetSpaceMethod),
    CreateSpace(CreateSpaceMethod),
    EditSpace(EditSpaceMethod),
    DeleteSpace(DeleteSpaceMethod),
    CreateInvite(CreateInviteMethod),
    DeleteInvite(DeleteInviteMethod),
    GetInvite(GetInviteMethod),
    GetInvites(GetInvitesMethod),
    CreateRole(CreateRoleMethod),
    EditRole(EditRoleMethod),
    DeleteRole(DeleteRoleMethod),
}

/// Every answer a method can produce.
#[derive(Clone, Debug)]
pub enum Response {
    Identify(IdentifyResponse),
    Heartbeat(HeartbeatResponse),
    GetId(GetIdResponse),
    StartCall(StartCallResponse),
    JoinCall(JoinCallResponse),
    LeaveCall(LeaveCallResponse),
    EndCall(EndCallResponse),
    GetMessages(GetMessagesResponse),
    SendMessage(SendMessageResponse),
    GetChannel(GetChannelResponse),
    GetChannels(GetChannelsResponse),
    GetSpace(GetSpaceResponse),
    CreateSpace(CreateSpaceResponse),
    EditSpace(EditSpaceResponse),
    DeleteSpace(DeleteSpaceResponse),
    JoinSpace(JoinSpaceResponse),
    LeaveSpace(LeaveSpaceResponse),
    GetSpaces(GetSpacesResponse),
    CreateInvite(CreateInviteResponse),
    DeleteInvite(DeleteInviteResponse),
    GetInvite(GetInviteResponse),
    GetInvites(GetInvitesResponse),
    CreateRole(CreateRoleResponse),
    EditRole(EditRoleResponse),
    DeleteRole(DeleteRoleResponse),
}

/// One response frame: the id it answers (absent when the request spent no
/// valid nonce), and either a result or an error, never both.
#[derive(Debug)]
pub struct RpcApiResponse {
    pub id: Option<String>,
    pub response: Option<Response>,
    pub error: Option<Error>,
}

/// A server-initiated event frame.
#[derive(Clone, Debug)]
pub enum Event {
    Hello(HelloEvent),
    NewMessage(NewMessageEvent),
}

#[derive(Clone, Debug)]
pub struct RpcApiEvent {
    pub event: Event,
}

/// The first frame of every connection: the server's public key and the
/// nonces the client may spend on requests.
#[derive(Clone, Debug)]
pub struct HelloEvent {
    pub public_key: Vec<u8>,
    pub request_ids: Vec<String>,
}

#[derive(Clone, Debug)]
pub struct NewMessageEvent {
    pub message: Message,
    pub channel_id: String,
}

/// A plain value on its way to the wire.
#[derive(Clone, Debug)]
pub struct RpcValue<T>(pub T);

impl<T> RpcValue<T> {
    /// The carried value.
    pub fn into_inner(self) -> (r: T)
        ensures
            r == self.0,
    {
        self.0
    }
}

impl RpcClient {
    /// A fresh connection: no user yet, and twenty nonces to greet the
    /// client with.
    pub fn new(id: String) -> (r: RpcClient)
        ensures
            r.id@ == id@,
            r.user is None,
            r.request_ids@.len() == 20,
    {
        RpcClient { id, user: None, request_ids: crate::encryption::fresh_request_ids(20) }
    }

    /// The greeting frame for this client: the server's public key and the
    /// client's spendable nonces.
    pub fn hello(&self, public_key: Vec<u8>) -> (r: RpcApiEvent)
        ensures
            r.event matches Event::Hello(h) && h.public_key@ == public_key@
                && h.request_ids@.len() == self.request_ids@.len() && (forall|i: int|
                0 <= i < h.request_ids@.len() ==> (#[trigger] h.request_ids@[i])@
                    == self.request_ids@[i]@),
    {
        let mut ids: Vec<String> = Vec::new();
        let mut i: usize = 0;
        while i < self.request_ids.len()
            invariant
                0 <= i <= self.request_ids@.len(),
                ids@.len() == i,
                forall|j: int|
                    0 <= j < i ==> (#[trigger] ids@[j])@ == self.request_ids@[j]@,
            decreases self.request_ids@.len() - i,
        {
            ids.push(self.request_ids[i].clone());
            i += 1;
        }
        RpcApiEvent { event: Event::Hello(HelloEvent { public_key, request_ids: ids }) }
    }
}

/// Screen one decoded frame against the client's nonces.
///
/// Exactly one of three things happens: a frame that decoded to nothing is
/// answered `{id: none, error: INVALID_METHOD}`; a frame without a nonce,
/// or spending an unknown one, is answered `{id: none, error:
/// INVALID_REQUEST_ID}` and the nonce list stays untouched; a frame
/// spending a known nonce consumes it, and the caller dispatches the
/// method and answers under that nonce. Every screened frame therefore
/// gets exactly one response.
pub fn screen_packet(client: &mut RpcClient, parsed: &Option<RpcApiMethod>) -> (r: Result<
    String,
    RpcApiResponse,
>)
    ensures
        final(client).id@ == old(client).id@,
        final(client).user == old(client).user,
        match r {
            Err(resp) => final(client).request_ids@ == old(client).request_ids@ && resp.id is None
                && resp.response is None && (match *parsed {
                Some(p) => (resp.error matches Some(Error::InvalidRequestId)) && (match p.id {
                    Some(rid) => !spec_contains_id(old(client).request_ids@, rid@),
                    None => true,
                }),
                None => resp.error matches Some(Error::InvalidMethod),
            }),
            Ok(rid) => (parsed matches Some(p) && p.id matches Some(prid) && rid@ == prid@)
                && spec_contains_id(old(client).request_ids@, rid@) && final(
            client).request_ids.deep_view() == old(client).request_ids.deep_view().filter(
                |m: Seq<char>| m != rid@,
            ),
        },
{
    let Some(request) = parsed else {
        return Err(
            RpcApiResponse { id: None, response: None, error: Some(Error::InvalidMethod) },
        );
    };
    let Some(request_id) = &request.id else {
        return Err(
            RpcApiResponse { id: None, response: None, error: Some(Error::InvalidRequestId) },
        );
    };
    if !crate::contains_id(&client.request_ids, request_id) {
        return Err(
            RpcApiResponse { id: None, response: None, error: Some(Error::InvalidRequestId) },
        );
    }
    let remaining = ids_without(&client.request_ids, request_id);
    client.request_ids = remaining;
    Ok(request_id.clone())
}

/// The id list with every occurrence of `id` removed.
fn ids_without(ids: &Vec<String>, id: &String) -> (r: Vec<String>)
    ensures
        r.deep_view() == ids.deep_view().filter(|m: Seq<char>| m != id@),
{
    let ghost p = |m: Seq<char>| m != id@;
    let mut kept: Vec<String> = Vec::new();
    let mut i: usize = 0;
    while i < ids.len()
        invariant
            0 <= i <= ids@.len(),
            ids.deep_view().len() == ids@.len(),
            kept.deep_view() == ids.deep_view().take(i as int).filter(p),
            p == (|m: Seq<char>| m != id@),
        decreases ids@.len() - i,
    {
        let ghost prefix = ids.deep_view().take(i as int);
        assert(ids.deep_view()[i as int] == ids@[i as int]@);
        proof {
            lemma_filter_push(prefix, p, ids.deep_view()[i as int]);
            assert(ids.deep_view().take(i + 1) =~= prefix.push(ids.deep_view()[i as int]));
        }
        if !ids[i].eq(id) {
            kept.push(ids[i].clone());
            assert(kept.deep_view() =~= prefix.filter(p).push(ids.deep_view()[i as int]));
        }
        i += 1;
    }
    assert(ids.deep_view().take(ids.deep_view().len() as int) =~= ids.deep_view());
    kept
}

/// Wrap what a dispatched method produced into the one response frame its
/// request gets, carrying the request's nonce.
pub fn finish_packet(request_id: String, outcome: Result<Response, Error>) -> (r: RpcApiResponse)
    ensures
        r.id matches Some(rid) && rid@ == request_id@,
        match outcome {
            Ok(_) => r.response is Some && r.error is None,
            Err(_) => r.response is None && r.error is Some,
        },
{
    match outcome {
        Ok(response) => RpcApiResponse { id: Some(request_id), response: Some(response), error: None },
        Err(e) => RpcApiResponse { id: Some(request_id), response: None, error: Some(e) },
    }
}

} // verus!
