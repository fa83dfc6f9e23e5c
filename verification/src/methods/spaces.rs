//! Creating, reading and managing spaces.
use vstd::prelude::*;

use crate::errors::Error;
use crate::spaces::Space;
use crate::users::User;
use crate::{contains_id, spec_contains_id, spec_trim, trim_bytes};

verus! {

#[derive(Clone, Debug)]
pub struct GetSpaceMethod {
    pub space_id: String,
}

#[derive(Clone, Debug)]
pub struct GetSpaceResponse {
    pub space: Space,
}

#[derive(Clone, Debug)]
pub struct CreateSpaceMethod {
    /// The display name, as the bytes of its text.
    pub name: Vec<u8>,
    pub description: Option<Vec<u8>>,
    pub scope: Option<String>,
}

#[derive(Clone, Debug)]
pub struct CreateSpaceResponse {
    pub space: Space,
}

#[derive(Clone, Debug)]
pub struct JoinSpaceMethod {
    pub code: String,
}

#[derive(Clone, Debug)]
pub struct JoinSpaceResponse {
    pub space: Space,
}

#[derive(Clone, Debug)]
pub struct LeaveSpaceMethod {
    pub space_id: String,
}

#[derive(Clone, Debug)]
pub struct LeaveSpaceResponse {
    pub space_id: String,
}

#[derive(Clone, Debug)]
pub struct GetSpacesMethod {}

#[derive(Clone, Debug)]
pub struct GetSpacesResponse {
    pub spaces: Vec<Space>,
}

#[derive(Clone, Debug)]
pub struct EditSpaceMethod {
    pub space_id: String,
    pub name: Option<Vec<u8>>,
    pub description: Option<Vec<u8>>,
    pub base_permissions: Option<i32>,
}

#[derive(Clone, Debug)]
pub struct EditSpaceResponse {
    pub space: Space,
}

#[derive(Clone, Debug)]
pub struct DeleteSpaceMethod {
    pub space_id: String,
}

#[derive(Clone, Debug)]
pub struct DeleteSpaceResponse {
    pub id: String,
}

/// The longest space name accepted, in bytes of its trimmed text.
pub const MAX_NAME_LENGTH: usize = 32;

/// The permissions every member of a fresh space starts with.
pub const DEFAULT_BASE_PERMISSIONS: i64 = 0x16;

impl CreateSpaceMethod {
    /// Validate the name and shape the new space: the trimmed name must not
    /// be empty nor over the limit. The caller persists the record.
    pub fn respond(&self, user: Option<&User>, new_space_id: String) -> (r: Result<
        (Space, CreateSpaceResponse),
        Error,
    >)
        ensures
            ({
                let trimmed = spec_trim(self.name@);
                match r {
                    Err(e) => {
                        if user is None {
                            e matches Error::NotAuthenticated
                        } else if trimmed.len() > MAX_NAME_LENGTH {
                            e matches Error::NameTooLong
                        } else {
                            (e matches Error::NameEmpty) && trimmed.len() == 0
                        }
                    },
                    Ok((space, response)) => {
                        &&& user is Some
                        &&& 0 < trimmed.len() <= MAX_NAME_LENGTH
                        &&& space.id@ == new_space_id@
                        &&& space.name@ == self.name@
                        &&& space.owner@ == user.unwrap().id@
                        &&& space.channels@.len() == 0
                        &&& space.members@.len() == 0
                        &&& space.roles@.len() == 0
                        &&& space.base_permissions == DEFAULT_BASE_PERMISSIONS
                        &&& (match self.scope {
                            Some(sc) => space.scope_id@ == sc@,
                            None => space.scope_id@ == "global"@,
                        })
                        &&& response.space.id@ == new_space_id@
                    },
                }
            }),
    {
        let Some(user) = user else { return Err(Error::NotAuthenticated) };
        let trimmed = trim_bytes(&self.name);
        if trimmed.len() > MAX_NAME_LENGTH {
            return Err(Error::NameTooLong);
        }
        if trimmed.len() == 0 {
            return Err(Error::NameEmpty);
        }
        let description = match &self.description {
            Some(d) => d.clone(),
            None => Vec::new(),
        };
        let scope_id = match &self.scope {
            Some(s) => s.clone(),
            None => "global".to_owned(),
        };
        let space = Space {
            id: new_space_id.clone(),
            name: self.name.clone(),
            description,
            channels: Vec::new(),
            members: Vec::new(),
            roles: Vec::new(),
            owner: user.id.clone(),
            scope_id,
            base_permissions: DEFAULT_BASE_PERMISSIONS,
        };
        let response_space = clone_space(&space);
        Ok((space, CreateSpaceResponse { space: response_space }))
    }
}

/// A field-for-field copy of a space record.
pub fn clone_space(s: &Space) -> (r: Space)
    ensures
        r.id@ == s.id@,
        r.name@ == s.name@,
        r.description@ == s.description@,
        r.channels@ == s.channels@,
        r.members@ == s.members@,
        r.roles@ == s.roles@,
        r.owner@ == s.owner@,
        r.scope_id@ == s.scope_id@,
        r.base_permissions == s.base_permissions,
{
    let channels = s.channels.clone();
    let members = s.members.clone();
    let roles = s.roles.clone();
    let name = s.name.clone();
    let description = s.description.clone();
    proof {
        assert(channels@ =~= s.channels@);
        assert(members@ =~= s.members@);
        assert(roles@ =~= s.roles@);
        assert(name@ =~= s.name@);
        assert(description@ =~= s.description@);
    }
    Space {
        id: s.id.clone(),
        name,
        description,
        channels,
        members,
        roles,
        owner: s.owner.clone(),
        scope_id: s.scope_id.clone(),
        base_permissions: s.base_permissions,
    }
}

impl GetSpaceMethod {
    /// Read a space: the caller must be authenticated and inside it; an
    /// outsider learns only `NotFound`.
    pub fn respond(&self, user: Option<&User>, space: Option<&Space>) -> (r: Result<
        GetSpaceResponse,
        Error,
    >)
        requires
            space matches Some(s) ==> s.id@ == self.space_id@,
        ensures
            match r {
                Err(e) => {
                    if user is None {
                        e matches Error::NotAuthenticated
                    } else {
                        (e matches Error::NotFound) && (space is None || !spec_contains_id(
                            space.unwrap().members@,
                            user.unwrap().id@,
                        ))
                    }
                },
                Ok(resp) => user is Some && space is Some && spec_contains_id(
                    space.unwrap().members@,
                    user.unwrap().id@,
                ) && resp.space.id@ == self.space_id@,
            },
    {
        let Some(user) = user else { return Err(Error::NotAuthenticated) };
        let Some(space) = space else { return Err(Error::NotFound) };
        if !contains_id(&space.members, &user.id) {
            return Err(Error::NotFound);
        }
        Ok(GetSpaceResponse { space: clone_space(space) })
    }
}

impl LeaveSpaceMethod {
    /// Leave a space: the caller must be authenticated and inside it. The
    /// caller removes the membership the decision confirms.
    pub fn respond(&self, user: Option<&User>, space: Option<&Space>) -> (r: Result<
        LeaveSpaceResponse,
        Error,
    >)
        ensures
            match r {
                Err(e) => {
                    if user is None {
                        e matches Error::NotAuthenticated
                    } else {
                        (e matches Error::NotFound) && (space is None || !spec_contains_id(
                            space.unwrap().members@,
                            user.unwrap().id@,
                        ))
                    }
                },
                Ok(resp) => user is Some && space is Some && spec_contains_id(
                    space.unwrap().members@,
                    user.unwrap().id@,
                ) && resp.space_id@ == self.space_id@,
            },
    {
        let Some(user) = user else { return Err(Error::NotAuthenticated) };
        let Some(space) = space else { return Err(Error::NotFound) };
        if !contains_id(&space.members, &user.id) {
            return Err(Error::NotFound);
        }
        Ok(LeaveSpaceResponse { space_id: self.space_id.clone() })
    }
}

} // verus!
