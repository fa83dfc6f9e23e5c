//! Session authentication and liveness methods.
use vstd::prelude::*;

use crate::errors::Error;
use crate::socket::RpcClient;
use crate::users::User;

verus! {

/// The claims inside a client credential, as the verifier hands them over.
#[derive(Clone, Debug)]
pub struct TokenClaims {
    pub id: String,
    pub issued_at: u64,
    pub expires_at: u64,
}

#[derive(Clone, Debug)]
pub struct IdentifyMethod {
    pub public_key: Vec<u8>,
    pub token: String,
}

#[derive(Clone, Debug)]
pub struct IdentifyResponse {
    pub success: bool,
}

#[derive(Clone, Debug)]
pub struct HeartbeatMethod {}

#[derive(Clone, Debug)]
pub struct HeartbeatResponse {
    pub ack: bool,
}

#[derive(Clone, Debug)]
pub struct GetIdMethod {}

#[derive(Clone, Debug)]
pub struct GetIdResponse {
    pub request_ids: Vec<String>,
}

impl IdentifyMethod {
    /// Bind a user to the connection. `claims` is what the signature check
    /// made of this method's token — `None` when the signature was bad —
    /// and `user` the user record fetched (or created) for the claimed id.
    /// An unverifiable or expired token is refused and the connection stays
    /// anonymous.
    pub fn respond(
        &self,
        client: &mut RpcClient,
        claims: &Option<TokenClaims>,
        user: User,
        now: u64,
    ) -> (r: Result<IdentifyResponse, Error>)
        requires
            claims matches Some(c) ==> user.id@ == c.id@,
        ensures
            match *claims {
                None => r matches Err(Error::InvalidToken) && *final(client) == *old(client),
                Some(c) => {
                    if now > c.expires_at {
                        r matches Err(Error::InvalidToken) && *final(client) == *old(client)
                    } else {
                        r matches Ok(resp) && resp.success && (final(client).user matches Some(u)
                            && u.id@ == c.id@) && final(client).id@ == old(client).id@ && final(
                        client).request_ids@ == old(client).request_ids@
                    }
                },
            },
    {
        let Some(c) = claims else { return Err(Error::InvalidToken) };
        if now > c.expires_at {
            return Err(Error::InvalidToken);
        }
        client.user = Some(user);
        Ok(IdentifyResponse { success: true })
    }
}

impl HeartbeatMethod {
    /// Acknowledge a heartbeat; the caller resets the eviction timer.
    pub fn respond(&self) -> (r: HeartbeatResponse)
        ensures
            r.ack,
    {
        HeartbeatResponse { ack: true }
    }
}

impl GetIdMethod {
    /// Hand the client twenty fresh request nonces, remembering them as
    /// valid.
    pub fn respond(&self, client: &mut RpcClient) -> (r: GetIdResponse)
        ensures
            r.request_ids@.len() == 20,
            final(client).request_ids@ == old(client).request_ids@ + r.request_ids@,
            final(client).id@ == old(client).id@,
            final(client).user == old(client).user,
    {
        let fresh = crate::encryption::fresh_request_ids(20);
        let mut i: usize = 0;
        let ghost prev = client.request_ids@;
        while i < fresh.len()
            invariant
                0 <= i <= fresh@.len(),
                client.request_ids@ == prev + fresh@.take(i as int),
                client.id@ == old(client).id@,
                client.user == old(client).user,
                prev == old(client).request_ids@,
            decreases fresh@.len() - i,
        {
            client.request_ids.push(fresh[i].clone());
            assert(client.request_ids@ =~= prev + fresh@.take(i + 1));
            i += 1;
        }
        assert(fresh@.take(fresh@.len() as int) =~= fresh@);
        GetIdResponse { request_ids: fresh }
    }
}

/// The caller's user record, or the refusal every unauthenticated request
/// gets.
pub fn check_authenticated<'a>(client: &'a RpcClient) -> (r: Result<&'a User, Error>)
    ensures
        match client.user {
            Some(_) => r matches Ok(u) && client.user matches Some(cu) && u.id@ == cu.id@,
            None => r matches Err(Error::NotAuthenticated),
        },
{
    match &client.user {
        Some(u) => Ok(u),
        None => Err(Error::NotAuthenticated),
    }
}

} // verus!
