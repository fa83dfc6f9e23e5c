//! Creating, editing and deleting roles.
use vstd::prelude::*;

use crate::errors::Error;
use crate::members::{can_modify_role, spec_member_permissions, Member};
use crate::permissions::Permission;
use crate::roles::{sorted_desc, Color, Role};
use crate::spaces::Space;
use crate::users::User;

verus! {

#[derive(Clone, Debug)]
pub struct CreateRoleMethod {
    pub name: String,
    pub permissions: i64,
    pub color: Color,
    pub space_id: String,
}

#[derive(Clone, Debug)]
pub struct CreateRoleResponse {
    pub role: Role,
}

#[derive(Clone, Debug)]
pub struct EditRoleMethod {
    pub id: String,
    pub name: String,
    pub permissions: i64,
    pub color: Color,
    pub space_id: String,
    pub scope_id: Option<String>,
}

#[derive(Clone, Debug)]
pub struct EditRoleResponse {
    pub role: Role,
}

#[derive(Clone, Debug)]
pub struct DeleteRoleMethod {
    pub id: String,
}

#[derive(Clone, Debug)]
pub struct DeleteRoleResponse {
    pub id: String,
}

impl CreateRoleMethod {
    /// Shape a new role at the bottom of the ladder: its position is the
    /// count of roles the space already has. The caller persists it.
    pub fn respond(
        &self,
        user: Option<&User>,
        existing_roles: usize,
        new_role_id: String,
    ) -> (r: Result<(Role, CreateRoleResponse), Error>)
        requires
            existing_roles <= i32::MAX,
        ensures
            match r {
                Err(e) => user is None && (e matches Error::NotAuthenticated),
                Ok((role, response)) => {
                    &&& user is Some
                    &&& role.id@ == new_role_id@
                    &&& role.name@ == self.name@
                    &&& role.permissions == self.permissions
                    &&& role.color == self.color
                    &&& role.position == existing_roles as i32
                    &&& role.space_id@ == self.space_id@
                    &&& response.role.id@ == new_role_id@
                },
            },
    {
        if user.is_none() {
            return Err(Error::NotAuthenticated);
        }
        let role = Role {
            id: new_role_id.clone(),
            name: self.name.clone(),
            permissions: self.permissions,
            color: self.color,
            position: existing_roles as i32,
            space_id: self.space_id.clone(),
            scope_id: "global".to_owned(),
        };
        let response = CreateRoleResponse { role: role.with_update(
            self.name.clone(),
            self.permissions,
            self.color,
        ) };
        Ok((role, response))
    }
}

impl EditRoleMethod {
    /// Decide whether the edit may proceed: the role must belong to the
    /// named space and scope, and the caller must outrank it (or own the
    /// space). `roles` are the caller's role records ordered by descending
    /// position. On success the returned record is the role as edited; the
    /// caller persists it.
    pub fn respond(
        &self,
        user: Option<&User>,
        role: Option<&Role>,
        member: &Member,
        space: &Space,
        roles: &Vec<Role>,
    ) -> (r: Result<(Role, EditRoleResponse), Error>)
        requires
            sorted_desc(roles@),
            space.owner@ != member.id@ ==> roles@.len() > 0,
        ensures
            match r {
                Err(e) => {
                    if user is None {
                        e matches Error::NotAuthenticated
                    } else if role is None || role.unwrap().space_id@ != self.space_id@ || (
                    self.scope_id matches Some(sc) && role.unwrap().scope_id@ != sc@) {
                        e matches Error::NotFound
                    } else {
                        (e matches Error::MissingPermission { permission: Permission::ManageRoles })
                            && !({
                            let rr = *role.unwrap();
                            if space.owner@ == member.id@ {
                                true
                            } else if spec_member_permissions(member.id@, *space, roles@)
                                & Permission::ManageRoles.spec_bit() == 0 {
                                false
                            } else {
                                rr.position < roles@[0].position
                            }
                        })
                    }
                },
                Ok((edited, response)) => {
                    &&& user is Some
                    &&& role is Some
                    &&& edited.id@ == role.unwrap().id@
                    &&& edited.name@ == self.name@
                    &&& edited.permissions == self.permissions
                    &&& edited.color == self.color
                    &&& edited.position == role.unwrap().position
                    &&& response.role.id@ == role.unwrap().id@
                },
            },
    {
        if user.is_none() {
            return Err(Error::NotAuthenticated);
        }
        let Some(role) = role else { return Err(Error::NotFound) };
        if !role.space_id.eq(&self.space_id) {
            return Err(Error::NotFound);
        }
        if let Some(scope_id) = &self.scope_id {
            if !role.scope_id.eq(scope_id) {
                return Err(Error::NotFound);
            }
        }
        if !can_modify_role(member, role, space, roles) {
            return Err(Error::MissingPermission { permission: Permission::ManageRoles });
        }
        let edited = role.with_update(self.name.clone(), self.permissions, self.color);
        let response = EditRoleResponse { role: edited.with_update(
            self.name.clone(),
            self.permissions,
            self.color,
        ) };
        Ok((edited, response))
    }
}

} // verus!
