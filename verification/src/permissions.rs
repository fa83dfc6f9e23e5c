//! Permission bits and permission sets.
//!
//! A `PermissionSet` is a word of flags, one bit per `Permission`; role and
//! channel-override arithmetic elsewhere is built on the exact bit-level
//! contracts given here.
use vstd::prelude::*;

verus! {

#[derive(Clone, Copy, Debug, PartialEq, Eq, Structural)]
pub enum Permission {
    Administrator,
    ViewChannels,
    CreateInvite,
    SuspendMembers,
    KickMembers,
    BanMembers,
    ManageChannels,
    ManageChannelPermissions,
    ManageInvites,
    ManageRoles,
    ManageSpace,
    SendMessages,
    SendMultimediaMessages,
    EmbedMessages,
    ManageMessages,
    MentionAll,
    UseReactions,
    StartCalls,
    JoinCalls,
    ManageCalls,
    Speak,
    Video,
    Screenshare,
}

impl Permission {
    /// Position of this permission's flag inside the word.
    pub open spec fn spec_shift(self) -> u64 {
        match self {
            Permission::Administrator => 0,
            Permission::ViewChannels => 1,
            Permission::CreateInvite => 2,
            Permission::SuspendMembers => 3,
            Permission::KickMembers => 4,
            Permission::BanMembers => 5,
            Permission::ManageChannels => 6,
            Permission::ManageChannelPermissions => 7,
            Permission::ManageInvites => 8,
            Permission::ManageRoles => 9,
            Permission::ManageSpace => 10,
            Permission::SendMessages => 11,
            Permission::SendMultimediaMessages => 12,
            Permission::EmbedMessages => 13,
            Permission::ManageMessages => 14,
            Permission::MentionAll => 15,
            Permission::UseReactions => 16,
            Permission::StartCalls => 17,
            Permission::JoinCalls => 18,
            Permission::ManageCalls => 19,
            Permission::Speak => 20,
            Permission::Video => 21,
            Permission::Screenshare => 22,
        }
    }

    /// The single-bit mask of this permission.
    pub open spec fn spec_bit(self) -> u64 {
        1u64 << self.spec_shift()
    }

    pub fn shift(self) -> (r: u64)
        ensures
            r == self.spec_shift(),
    {
        match self {
            Permission::Administrator => 0,
            Permission::ViewChannels => 1,
            Permission::CreateInvite => 2,
            Permission::SuspendMembers => 3,
            Permission::KickMembers => 4,
            Permission::BanMembers => 5,
            Permission::ManageChannels => 6,
            Permission::ManageChannelPermissions => 7,
            Permission::ManageInvites => 8,
            Permission::ManageRoles => 9,
            Permission::ManageSpace => 10,
            Permission::SendMessages => 11,
            Permission::SendMultimediaMessages => 12,
            Permission::EmbedMessages => 13,
            Permission::ManageMessages => 14,
            Permission::MentionAll => 15,
            Permission::UseReactions => 16,
            Permission::StartCalls => 17,
            Permission::JoinCalls => 18,
            Permission::ManageCalls => 19,
            Permission::Speak => 20,
            Permission::Video => 21,
            Permission::Screenshare => 22,
        }
    }

    /// The single-bit mask of this permission.
    pub fn bit(self) -> (r: u64)
        ensures
            r == self.spec_bit(),
    {
        let s = self.shift();
        assert(s < 64) by {
            lemma_shift_range(self);
        }
        1u64 << s
    }

    /// All permissions, in flag order.
    pub fn iter() -> (r: Vec<Permission>)
        ensures
            r@ == all_permissions(),
    {
        let v = vec![
            Permission::Administrator,
            Permission::ViewChannels,
            Permission::CreateInvite,
            Permission::SuspendMembers,
            Permission::KickMembers,
            Permission::BanMembers,
            Permission::ManageChannels,
            Permission::ManageChannelPermissions,
            Permission::ManageInvites,
            Permission::ManageRoles,
            Permission::ManageSpace,
            Permission::SendMessages,
            Permission::SendMultimediaMessages,
            Permission::EmbedMessages,
            Permission::ManageMessages,
            Permission::MentionAll,
            Permission::UseReactions,
            Permission::StartCalls,
            Permission::JoinCalls,
            Permission::ManageCalls,
            Permission::Speak,
            Permission::Video,
            Permission::Screenshare,
        ];
        assert(v@ =~= all_permissions());
        v
    }

    /// The permissions that can be overridden per channel.
    pub fn iter_channel() -> (r: Vec<Permission>)
        ensures
            r@ == channel_permissions(),
    {
        let v = vec![
            Permission::ViewChannels,
            Permission::ManageChannels,
            Permission::ManageChannelPermissions,
            Permission::SendMessages,
            Permission::SendMultimediaMessages,
            Permission::EmbedMessages,
            Permission::ManageMessages,
            Permission::MentionAll,
            Permission::UseReactions,
            Permission::StartCalls,
            Permission::JoinCalls,
            Permission::ManageCalls,
            Permission::Speak,
            Permission::Video,
            Permission::Screenshare,
        ];
        assert(v@ =~= channel_permissions());
        v
    }
}

pub open spec fn all_permissions() -> Seq<Permission> {
    seq![
        Permission::Administrator,
        Permission::ViewChannels,
        Permission::CreateInvite,
        Permission::SuspendMembers,
        Permission::KickMembers,
        Permission::BanMembers,
        Permission::ManageChannels,
        Permission::ManageChannelPermissions,
        Permission::ManageInvites,
        Permission::ManageRoles,
        Permission::ManageSpace,
        Permission::SendMessages,
        Permission::SendMultimediaMessages,
        Permission::EmbedMessages,
        Permission::ManageMessages,
        Permission::MentionAll,
        Permission::UseReactions,
        Permission::StartCalls,
        Permission::JoinCalls,
        Permission::ManageCalls,
        Permission::Speak,
        Permission::Video,
        Permission::Screenshare,
    ]
}

pub open spec fn channel_permissions() -> Seq<Permission> {
    seq![
        Permission::ViewChannels,
        Permission::ManageChannels,
        Permission::ManageChannelPermissions,
        Permission::SendMessages,
        Permission::SendMultimediaMessages,
        Permission::EmbedMessages,
        Permission::ManageMessages,
        Permission::MentionAll,
        Permission::UseReactions,
        Permission::StartCalls,
        Permission::JoinCalls,
        Permission::ManageCalls,
        Permission::Speak,
        Permission::Video,
        Permission::Screenshare,
    ]
}

/// Every permission's flag position fits in the word, below the sign bit of
/// the wire representation.
pub proof fn lemma_shift_range(p: Permission)
    ensures
        p.spec_shift() < 63,
{
}

/// Distinct permissions occupy distinct flag positions.
pub proof fn lemma_shift_injective(p: Permission, q: Permission)
    ensures
        p.spec_shift() == q.spec_shift() ==> p == q,
{
}

proof fn lemma_or_bit(x: u64, b: u64, c: u64)
    ensures
        ((x | b) & c != 0) == ((x & c != 0) || (b & c != 0)),
    decreases 0int,
{
    assert(((x | b) & c != 0) == ((x & c != 0) || (b & c != 0))) by (bit_vector);
}

proof fn lemma_and_bit(x: u64, b: u64, s: u64)
    requires
        s < 64,
    ensures
        ((x & !b) & (1u64 << s) != 0) == ((x & (1u64 << s) != 0) && (b & (1u64 << s)
            == 0)),
{
    assert(s < 64 ==> (((x & !b) & (1u64 << s) != 0) == ((x & (1u64 << s) != 0) && (b & (1u64 << s)
        == 0)))) by (bit_vector);
}

proof fn lemma_single_bits(s: u64, t: u64)
    requires
        s < 64,
        t < 64,
    ensures
        ((1u64 << s) & (1u64 << t) != 0) == (s == t),
{
    assert((s < 64 && t < 64) ==> (((1u64 << s) & (1u64 << t) != 0) == (s == t))) by (bit_vector);
}

proof fn lemma_zero_bit(c: u64)
    ensures
        0u64 & c == 0,
{
    assert(0u64 & c == 0) by (bit_vector);
}

proof fn lemma_full_bit(s: u64)
    requires
        s < 63,
    ensures
        0x7fff_ffff_ffff_ffffu64 & (1u64 << s) != 0,
{
    assert(s < 63 ==> 0x7fff_ffff_ffff_ffffu64 & (1u64 << s) != 0) by (bit_vector);
}

/// A set of permissions, stored as one flag word. On the wire the word
/// travels as a signed 64-bit integer whose bit pattern is the same.
#[derive(Clone, Copy, Debug)]
pub struct PermissionSet {
    pub permissions: u64,
}

impl PermissionSet {
    /// The raw flag word.
    pub open spec fn spec_bits(self) -> u64 {
        self.permissions
    }

    /// Whether the flag of `p` is set.
    pub open spec fn spec_has(self, p: Permission) -> bool {
        self.permissions & p.spec_bit() != 0
    }

    /// The empty set.
    pub fn new() -> (r: PermissionSet)
        ensures
            forall|p: Permission| !r.spec_has(p),
            r.spec_bits() == 0,
    {
        let r = PermissionSet { permissions: 0 };
        assert forall|p: Permission| !r.spec_has(p) by {
            lemma_zero_bit(p.spec_bit());
        }
        r
    }

    /// The set that grants everything.
    pub fn all() -> (r: PermissionSet)
        ensures
            forall|p: Permission| r.spec_has(p),
            r.spec_bits() == 0x7fff_ffff_ffff_ffffu64,
    {
        let r = PermissionSet { permissions: 0x7fff_ffff_ffff_ffff };
        assert forall|p: Permission| r.spec_has(p) by {
            lemma_shift_range(p);
            lemma_full_bit(p.spec_shift());
        }
        r
    }

    /// The wire representation: the flag word reinterpreted as signed.
    pub fn to_i64(&self) -> (r: i64)
        ensures
            r == self.permissions as i64,
    {
        self.permissions as i64
    }

    pub fn has_permission(&self, permission: Permission) -> (r: bool)
        ensures
            r == self.spec_has(permission),
    {
        self.permissions & permission.bit() != 0
    }

    pub fn add_permission(&mut self, permission: Permission)
        ensures
            forall|q: Permission|
                final(self).spec_has(q) == (old(self).spec_has(q) || q == permission),
    {
        self.permissions = self.permissions | permission.bit();
        assert forall|q: Permission|
            self.spec_has(q) == (old(self).spec_has(q) || q == permission) by {
            lemma_or_bit(old(self).permissions, permission.spec_bit(), q.spec_bit());
            lemma_shift_range(permission);
            lemma_shift_range(q);
            lemma_single_bits(permission.spec_shift(), q.spec_shift());
            lemma_shift_injective(permission, q);
        }
    }

    pub fn remove_permission(&mut self, permission: Permission)
        ensures
            forall|q: Permission|
                final(self).spec_has(q) == (old(self).spec_has(q) && q != permission),
    {
        self.permissions = self.permissions & !permission.bit();
        assert forall|q: Permission|
            self.spec_has(q) == (old(self).spec_has(q) && q != permission) by {
            lemma_shift_range(permission);
            lemma_shift_range(q);
            lemma_and_bit(old(self).permissions, permission.spec_bit(), q.spec_shift());
            lemma_single_bits(permission.spec_shift(), q.spec_shift());
            lemma_shift_injective(permission, q);
        }
    }

    /// Union with another set.
    pub fn combine(&mut self, other: PermissionSet)
        ensures
            final(self).spec_bits() == (old(self).spec_bits() | other.spec_bits()),
            forall|q: Permission|
                #[trigger] final(self).spec_has(q) == (old(self).spec_has(q) || other.spec_has(
                    q,
                )),
    {
        self.permissions = self.permissions | other.permissions;
        assert forall|q: Permission| #[trigger]
            self.spec_has(q) == (old(self).spec_has(q) || other.spec_has(q)) by {
            lemma_or_bit(old(self).permissions, other.permissions, q.spec_bit());
        }
    }

    /// The permissions present, in flag order.
    pub fn to_vec(&self) -> (r: Vec<Permission>)
        ensures
            forall|p: Permission| #[trigger] r@.contains(p) == self.spec_has(p),
            r@.no_duplicates(),
    {
        let order = Permission::iter();
        let mut permissions: Vec<Permission> = Vec::new();
        let mut i: usize = 0;
        while i < order.len()
            invariant
                order@ == all_permissions(),
                0 <= i <= order@.len(),
                forall|p: Permission|
                    #[trigger] permissions@.contains(p) == (self.spec_has(p) && exists|j: int|
                        0 <= j < i && order@[j] == p),
                permissions@.no_duplicates(),
            decreases order@.len() - i,
        {
            let ghost prev = permissions@;
            let p = order[i];
            if self.has_permission(p) {
                proof {
                    lemma_all_permissions_no_dup();
                    if permissions@.contains(p) {
                        let j = choose|j: int| 0 <= j < i && order@[j] == p;
                        assert(order@[j] == order@[i as int]);
                        assert(false);
                    }
                }
                permissions.push(p);
                assert forall|q: Permission|
                    #[trigger] permissions@.contains(q) == (self.spec_has(q) && exists|j: int|
                        0 <= j < i + 1 && order@[j] == q) by {
                    if q == p {
                        assert(permissions@[permissions@.len() - 1] == q);
                        assert(order@[i as int] == q);
                    } else {
                        assert(permissions@.contains(q) == prev.contains(q)) by {
                            if prev.contains(q) {
                                let k = choose|k: int| 0 <= k < prev.len() && prev[k] == q;
                                assert(permissions@[k] == q);
                            }
                            if permissions@.contains(q) {
                                let k = choose|k: int|
                                    0 <= k < permissions@.len() && permissions@[k] == q;
                                assert(k < prev.len());
                                assert(prev[k] == q);
                            }
                        }
                        assert((exists|j: int| 0 <= j < i + 1 && order@[j] == q) == (exists|j: int|
                            0 <= j < i && order@[j] == q));
                    }
                }
                assert(permissions@.no_duplicates()) by {
                    assert(forall|k: int|
                        0 <= k < prev.len() ==> permissions@[k] == prev[k]);
                    assert(permissions@[prev.len() as int] == p);
                    assert(forall|k: int| 0 <= k < prev.len() ==> prev[k] != p);
                }
            } else {
                assert forall|q: Permission|
                    #[trigger] permissions@.contains(q) == (self.spec_has(q) && exists|j: int|
                        0 <= j < i + 1 && order@[j] == q) by {
                    if q == p {
                    } else {
                        assert((exists|j: int| 0 <= j < i + 1 && order@[j] == q) == (exists|j: int|
                            0 <= j < i && order@[j] == q));
                    }
                }
            }
            i += 1;
        }
        assert forall|p: Permission| #[trigger] permissions@.contains(p) == self.spec_has(p) by {
            lemma_permission_listed(p);
            if self.spec_has(p) {
                let j = choose|j: int|
                    0 <= j < all_permissions().len() && all_permissions()[j] == p;
                assert(order@[j] == p);
            }
        }
        permissions
    }
}

/// The catalogue of permissions lists each one exactly once.
pub proof fn lemma_all_permissions_no_dup()
    ensures
        all_permissions().no_duplicates(),
{
    assert(all_permissions().no_duplicates());
}

/// Every permission appears in the catalogue.
pub proof fn lemma_permission_listed(p: Permission)
    ensures
        all_permissions().contains(p),
{
    let s = all_permissions();
    match p {
        Permission::Administrator => assert(s[0] == p),
        Permission::ViewChannels => assert(s[1] == p),
        Permission::CreateInvite => assert(s[2] == p),
        Permission::SuspendMembers => assert(s[3] == p),
        Permission::KickMembers => assert(s[4] == p),
        Permission::BanMembers => assert(s[5] == p),
        Permission::ManageChannels => assert(s[6] == p),
        Permission::ManageChannelPermissions => assert(s[7] == p),
        Permission::ManageInvites => assert(s[8] == p),
        Permission::ManageRoles => assert(s[9] == p),
        Permission::ManageSpace => assert(s[10] == p),
        Permission::SendMessages => assert(s[11] == p),
        Permission::SendMultimediaMessages => assert(s[12] == p),
        Permission::EmbedMessages => assert(s[13] == p),
        Permission::ManageMessages => assert(s[14] == p),
        Permission::MentionAll => assert(s[15] == p),
        Permission::UseReactions => assert(s[16] == p),
        Permission::StartCalls => assert(s[17] == p),
        Permission::JoinCalls => assert(s[18] == p),
        Permission::ManageCalls => assert(s[19] == p),
        Permission::Speak => assert(s[20] == p),
        Permission::Video => assert(s[21] == p),
        Permission::Screenshare => assert(s[22] == p),
    }
}

impl Default for PermissionSet {
    /// The default set is empty.
    fn default() -> (r: Self)
        ensures
            r.spec_bits() == 0,
    {
        PermissionSet::new()
    }
}

impl From<i64> for PermissionSet {
    /// A wire word becomes the set with the same bit pattern.
    fn from(permissions: i64) -> (r: Self) {
        PermissionSet { permissions: permissions as u64 }
    }
}

impl vstd::std_specs::convert::FromSpecImpl<i64> for PermissionSet {
    open spec fn obeys_from_spec() -> bool {
        true
    }

    open spec fn from_spec(permissions: i64) -> Self {
        PermissionSet { permissions: permissions as u64 }
    }
}

} // verus!
