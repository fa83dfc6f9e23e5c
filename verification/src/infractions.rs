//! Moderation records: suspensions, kicks and bans.
use vstd::prelude::*;

verus! {

#[derive(Clone, Debug)]
pub struct Infraction {
    pub id: String,
    pub infraction_type: InfractionType,
    pub space_id: String,
    pub member_id: String,
    pub reason: String,
    /// A ban without an expiry holds forever.
    pub expires_at: Option<u64>,
    pub created_at: u64,
    pub created_by: String,
}

#[derive(Clone, Copy, Debug, PartialEq, Eq, Structural)]
pub enum InfractionType {
    Suspend,
    Kick,
    Ban,
}

/// Whether one infraction bans the user from the space at time `now`.
pub open spec fn spec_ban_applies(
    inf: Infraction,
    user_id: Seq<char>,
    space_id: Seq<char>,
    now: u64,
) -> bool {
    &&& inf.infraction_type == InfractionType::Ban
    &&& inf.member_id@ == user_id
    &&& inf.space_id@ == space_id
    &&& match inf.expires_at {
        Some(e) => e > now,
        None => true,
    }
}

/// Whether the user is banned from the space: some ban names them and has
/// not expired.
pub fn is_banned(infractions: &Vec<Infraction>, user_id: &String, space_id: &String, now: u64) -> (r:
    bool)
    ensures
        r == exists|i: int|
            0 <= i < infractions@.len() && spec_ban_applies(
                #[trigger] infractions@[i],
                user_id@,
                space_id@,
                now,
            ),
{
    let mut i: usize = 0;
    while i < infractions.len()
        invariant
            0 <= i <= infractions@.len(),
            forall|j: int|
                0 <= j < i ==> !spec_ban_applies(
                    #[trigger] infractions@[j],
                    user_id@,
                    space_id@,
                    now,
                ),
        decreases infractions@.len() - i,
    {
        let inf = &infractions[i];
        let is_ban = match inf.infraction_type {
            InfractionType::Ban => true,
            _ => false,
        };
        let unexpired = match inf.expires_at {
            Some(e) => e > now,
            None => true,
        };
        if is_ban && unexpired && inf.member_id.eq(user_id) && inf.space_id.eq(space_id) {
            assert(spec_ban_applies(infractions@[i as int], user_id@, space_id@, now));
            return true;
        }
        i += 1;
    }
    false
}

} // verus!
