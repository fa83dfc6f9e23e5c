//! Membership records and the permission arithmetic of a member in a space
//! and in one of its channels.
use vstd::prelude::*;

use crate::channels::{Channel, EntityType, OverrideView, PermissionOverride};
use crate::permissions::{Permission, PermissionSet};
use crate::roles::{sorted_desc, Role};
use crate::spaces::Space;
use crate::{contains_id, first_where, lemma_filter_push, lemma_first_where, spec_contains_id};

verus! {

/// One user's membership in one space.
#[derive(Clone, Debug)]
pub struct Member {
    pub id: String,
    pub space_id: String,
    /// Ids of the roles the member holds.
    pub roles: Vec<String>,
}

/// The flag word that grants every permission.
pub const ALL_PERMISSIONS: u64 = 0x7fff_ffff_ffff_ffff;

/// One role applied to a running permission word: the flags of the space's
/// base set that the role lacks are withdrawn, then the role's own flags are
/// granted.
pub open spec fn spec_apply_role(cur: u64, base: u64, role: u64) -> u64 {
    (cur & !(base & !role)) | role
}

/// A member's permission word from the space base and the member's roles,
/// walked from the highest position down. A role holding `Administrator`
/// grants everything outright.
pub open spec fn spec_eval_roles(cur: u64, base: u64, roles: Seq<Role>) -> u64
    decreases roles.len(),
{
    if roles.len() == 0 {
        cur
    } else if (roles[0].permissions as u64) & Permission::Administrator.spec_bit() != 0 {
        ALL_PERMISSIONS
    } else {
        spec_eval_roles(
            spec_apply_role(cur, base, roles[0].permissions as u64),
            base,
            roles.drop_first(),
        )
    }
}

/// The permission word a member holds in a space: everything for the owner,
/// otherwise the base word refined by the member's roles.
pub open spec fn spec_member_permissions(member_id: Seq<char>, space: Space, roles: Seq<Role>) -> u64 {
    if space.owner@ == member_id {
        ALL_PERMISSIONS
    } else {
        spec_eval_roles(space.base_permissions as u64, space.base_permissions as u64, roles)
    }
}

/// One channel override applied to whether a permission is held: a denial
/// beats a grant, and an override that says neither leaves it alone.
pub open spec fn spec_apply_override(cur: bool, pbit: u64, o: OverrideView) -> bool {
    if o.deny & pbit != 0 {
        false
    } else if o.allow & pbit != 0 {
        true
    } else {
        cur
    }
}

/// A run of channel overrides applied in the given order; later overrides
/// have the last word.
pub open spec fn spec_apply_overrides(cur: bool, pbit: u64, ovs: Seq<OverrideView>) -> bool
    decreases ovs.len(),
{
    if ovs.len() == 0 {
        cur
    } else {
        spec_apply_overrides(spec_apply_override(cur, pbit, ovs[0]), pbit, ovs.drop_first())
    }
}

/// The position of the member's own override in a channel's override list.
pub open spec fn spec_member_override(ovs: Seq<OverrideView>, member_id: Seq<char>) -> int {
    first_where(
        ovs,
        |o: OverrideView| o.entity_type == EntityType::Member && o.id == member_id,
    )
}

/// What a member may do in a channel of their space, after the channel's
/// overrides: the role overrides in the given order, then the member's own
/// override with the last word. On channels outside spaces nothing is held.
pub open spec fn spec_channel_permission(
    member: Member,
    space: Space,
    roles: Seq<Role>,
    channel: Channel,
    role_overrides: Seq<OverrideView>,
    permission: Permission,
) -> bool {
    if space.owner@ == member.id@ {
        true
    } else {
        match channel.spec_overrides() {
            Option::None => false,
            Option::Some(all_ovs) => {
                let pbit = permission.spec_bit();
                let base = spec_member_permissions(member.id@, space, roles) & pbit != 0;
                let after = spec_apply_overrides(base, pbit, role_overrides);
                let mi = spec_member_override(all_ovs, member.id@);
                if mi == -1 {
                    after
                } else {
                    spec_apply_override(after, pbit, all_ovs[mi])
                }
            },
        }
    }
}

/// A field-for-field copy of an override.
fn clone_override(o: &PermissionOverride) -> (r: PermissionOverride)
    ensures
        r@ == o@,
{
    PermissionOverride {
        id: o.id.clone(),
        entity_type: o.entity_type,
        allow: o.allow,
        deny: o.deny,
    }
}

/// The channel overrides that speak about roles this member holds, in list
/// order. The caller orders them by role position before applying them.
pub fn role_overrides_for(overrides: &Vec<PermissionOverride>, member: &Member) -> (r: Vec<
    PermissionOverride,
>)
    ensures
        r@.map_values(|o: PermissionOverride| o@) == overrides@.map_values(
            |o: PermissionOverride| o@,
        ).filter(
            |o: OverrideView| o.entity_type == EntityType::Role && spec_contains_id(
                member.roles@,
                o.id,
            ),
        ),
{
    let ghost p = |o: OverrideView| o.entity_type == EntityType::Role && spec_contains_id(
        member.roles@,
        o.id,
    );
    let ghost full = overrides@.map_values(|o: PermissionOverride| o@);
    let mut picked: Vec<PermissionOverride> = Vec::new();
    let mut i: usize = 0;
    while i < overrides.len()
        invariant
            0 <= i <= overrides@.len(),
            full == overrides@.map_values(|o: PermissionOverride| o@),
            full.len() == overrides@.len(),
            picked@.map_values(|o: PermissionOverride| o@) == full.take(i as int).filter(p),
            p == (|o: OverrideView| o.entity_type == EntityType::Role && spec_contains_id(
                member.roles@,
                o.id,
            )),
        decreases overrides@.len() - i,
    {
        let ghost prefix = full.take(i as int);
        let o = &overrides[i];
        assert(o@ == full[i as int]);
        proof {
            lemma_filter_push(prefix, p, o@);
            assert(full.take(i + 1) =~= prefix.push(o@));
        }
        let is_role = match o.entity_type {
            EntityType::Role => true,
            EntityType::Member => false,
        };
        if is_role && contains_id(&member.roles, &o.id) {
            picked.push(clone_override(o));
            assert(picked@.map_values(|o: PermissionOverride| o@) =~= prefix.filter(p).push(o@));
        }
        i += 1;
    }
    assert(full.take(full.len() as int) =~= full);
    picked
}

impl Member {
    /// Whether this member owns the space.
    pub fn is_owner(&self, space: &Space) -> (r: bool)
        ensures
            r == (space.owner@ == self.id@),
    {
        self.id.eq(&space.owner)
    }

    /// The member's permissions in the space, given this member's role
    /// records ordered by descending position (see
    /// [`crate::roles::sort_roles_desc`]).
    pub fn get_permissions(&self, space: &Space, roles: &Vec<Role>) -> (r: PermissionSet)
        requires
            sorted_desc(roles@),
        ensures
            r.spec_bits() == spec_member_permissions(self.id@, *space, roles@),
    {
        if self.is_owner(space) {
            return PermissionSet::all();
        }
        let base: u64 = #[verifier::truncate] (space.base_permissions as u64);
        let admin_bit = Permission::Administrator.bit();
        let mut cur: u64 = base;
        let mut i: usize = 0;
        assert(roles@.skip(0) =~= roles@);
        while i < roles.len()
            invariant
                0 <= i <= roles@.len(),
                admin_bit == Permission::Administrator.spec_bit(),
                base == space.base_permissions as u64,
                spec_eval_roles(base, base, roles@) == spec_eval_roles(
                    cur,
                    base,
                    roles@.skip(i as int),
                ),
            decreases roles@.len() - i,
        {
            let ghost rest = roles@.skip(i as int);
            assert(rest[0] == roles@[i as int]);
            assert(rest.drop_first() =~= roles@.skip(i + 1));
            let word: u64 = #[verifier::truncate] (roles[i].permissions as u64);
            if word & admin_bit != 0 {
                proof {
                    assert((rest[0].permissions as u64) & Permission::Administrator.spec_bit()
                        != 0);
                    assert(spec_eval_roles(cur, base, rest) == ALL_PERMISSIONS);
                }
                return PermissionSet { permissions: ALL_PERMISSIONS };
            }
            cur = (cur & !(base & !word)) | word;
            i += 1;
        }
        assert(roles@.skip(roles@.len() as int) =~= Seq::<Role>::empty());
        PermissionSet { permissions: cur }
    }

    /// The override phase of a channel permission check: the role overrides
    /// in the given order, then this member's own override with the last
    /// word.
    fn apply_channel_overrides(
        &self,
        base_has: bool,
        all_overrides: &Vec<PermissionOverride>,
        role_overrides: &Vec<PermissionOverride>,
        permission: Permission,
    ) -> (r: bool)
        ensures
            r == ({
                let pbit = permission.spec_bit();
                let ovs = role_overrides@.map_values(|o: PermissionOverride| o@);
                let all_ovs = all_overrides@.map_values(|o: PermissionOverride| o@);
                let after = spec_apply_overrides(base_has, pbit, ovs);
                let mi = spec_member_override(all_ovs, self.id@);
                if mi == -1 {
                    after
                } else {
                    spec_apply_override(after, pbit, all_ovs[mi])
                }
            }),
    {
        let pbit = permission.bit();
        let ghost ovs = role_overrides@.map_values(|o: PermissionOverride| o@);
        let mut has: bool = base_has;
        let mut i: usize = 0;
        assert(ovs.skip(0) =~= ovs);
        while i < role_overrides.len()
            invariant
                0 <= i <= role_overrides@.len(),
                ovs == role_overrides@.map_values(|o: PermissionOverride| o@),
                ovs.len() == role_overrides@.len(),
                pbit == permission.spec_bit(),
                spec_apply_overrides(base_has, pbit, ovs) == spec_apply_overrides(
                    has,
                    pbit,
                    ovs.skip(i as int),
                ),
            decreases role_overrides@.len() - i,
        {
            let ghost rest = ovs.skip(i as int);
            assert(rest[0] == ovs[i as int]);
            assert(rest.drop_first() =~= ovs.skip(i + 1));
            let o = &role_overrides[i];
            assert(o@ == ovs[i as int]);
            if o.deny.has_permission(permission) {
                has = false;
            } else if o.allow.has_permission(permission) {
                has = true;
            }
            i += 1;
        }
        assert(ovs.skip(ovs.len() as int) =~= Seq::<OverrideView>::empty());
        let ghost all_ovs = all_overrides@.map_values(|o: PermissionOverride| o@);
        let ghost mp = |o: OverrideView| o.entity_type == EntityType::Member && o.id == self.id@;
        let mut j: usize = 0;
        while j < all_overrides.len()
            invariant
                0 <= j <= all_overrides@.len(),
                all_ovs == all_overrides@.map_values(|o: PermissionOverride| o@),
                all_ovs.len() == all_overrides@.len(),
                pbit == permission.spec_bit(),
                ovs == role_overrides@.map_values(|o: PermissionOverride| o@),
                has == spec_apply_overrides(base_has, pbit, ovs),
                forall|k: int| 0 <= k < j ==> !mp(#[trigger] all_ovs[k]),
                mp == (|o: OverrideView| o.entity_type == EntityType::Member && o.id == self.id@),
            decreases all_overrides@.len() - j,
        {
            let o = &all_overrides[j];
            assert(o@ == all_ovs[j as int]);
            let is_member = match o.entity_type {
                EntityType::Member => true,
                EntityType::Role => false,
            };
            if is_member && o.id.eq(&self.id) {
                proof {
                    assert(mp(all_ovs[j as int]));
                    lemma_first_where(all_ovs, mp);
                    let r = first_where(all_ovs, mp);
                    assert(r != -1);
                    if r < j as int {
                        assert(!mp(all_ovs[r]));
                        assert(false);
                    }
                    if r > j as int {
                        assert(!mp(all_ovs[j as int]));
                        assert(false);
                    }
                    assert(spec_member_override(all_ovs, self.id@) == j as int);
                }
                if o.deny.has_permission(permission) {
                    return false;
                } else if o.allow.has_permission(permission) {
                    return true;
                } else {
                    return has;
                }
            }
            j += 1;
        }
        proof {
            lemma_first_where(all_ovs, mp);
            let r = first_where(all_ovs, mp);
            if r != -1 {
                assert(!mp(all_ovs[r]));
                assert(false);
            }
        }
        has
    }

    /// What this member may do in a channel of the space. `roles` are the
    /// member's role records and `role_overrides` the channel's overrides
    /// for those roles, both ordered by descending position.
    pub fn get_permission_in_channel(
        &self,
        space: &Space,
        roles: &Vec<Role>,
        channel: &Channel,
        role_overrides: &Vec<PermissionOverride>,
        permission: Permission,
    ) -> (r: bool)
        requires
            sorted_desc(roles@),
        ensures
            r == spec_channel_permission(
                *self,
                *space,
                roles@,
                *channel,
                role_overrides@.map_values(|o: PermissionOverride| o@),
                permission,
            ),
    {
        if self.is_owner(space) {
            return true;
        }
        let permissions = self.get_permissions(space, roles);
        let has: bool = permissions.has_permission(permission);
        match channel {
            Channel::InformationChannel { permissions: all_overrides, .. } => self
                .apply_channel_overrides(has, all_overrides, role_overrides, permission),
            Channel::AnnouncementChannel { permissions: all_overrides, .. } => self
                .apply_channel_overrides(has, all_overrides, role_overrides, permission),
            Channel::ChatChannel { permissions: all_overrides, .. } => self
                .apply_channel_overrides(has, all_overrides, role_overrides, permission),
            _ => false,
        }
    }
}

/// Whether a member may change a role: the owner always may; anyone else
/// needs `ManageRoles` and a rank strictly above the role's. `roles` are the
/// member's role records ordered by descending position, so the first one is
/// the member's rank.
pub fn can_modify_role(member: &Member, role: &Role, space: &Space, roles: &Vec<Role>) -> (r:
    bool)
    requires
        sorted_desc(roles@),
        space.owner@ != member.id@ ==> roles@.len() > 0,
    ensures
        r == {
            if space.owner@ == member.id@ {
                true
            } else if spec_member_permissions(member.id@, *space, roles@)
                & Permission::ManageRoles.spec_bit() == 0 {
                false
            } else {
                role.position < roles@[0].position
            }
        },
{
    if member.is_owner(space) {
        return true;
    }
    let permissions = member.get_permissions(space, roles);
    if !permissions.has_permission(Permission::ManageRoles) {
        return false;
    }
    role.position < roles[0].position
}

} // verus!
