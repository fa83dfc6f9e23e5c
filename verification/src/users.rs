//! User records, presence and the friendship graph.
use vstd::prelude::*;

use crate::channels::Channel;
use crate::errors::Error;
use crate::{contains_id, spec_contains_id};

verus! {

#[derive(Clone, Copy, Debug, PartialEq, Eq, Structural)]
pub enum Status {
    Online,
    Idle,
    Busy,
    Invisible,
}

#[derive(Clone, Debug)]
pub struct Presence {
    pub status: Status,
    pub message: String,
}

#[derive(Clone, Copy, Debug, PartialEq, Eq, Structural)]
pub enum Relationship {
    Friend,
    Blocked,
    Requested,
    Pending,
}

/// One edge of the friendship graph, as stored on a user.
#[derive(Clone, Debug)]
pub struct Affinity {
    pub id: String,
    pub relationship: Relationship,
}

/// A user of the platform.
#[derive(Clone, Debug)]
pub struct User {
    pub id: String,
    pub profile_banner: String,
    pub profile_description: String,
    pub presence: Presence,
    pub online: bool,
    pub platform_administrator: bool,
    pub affinities: Vec<Affinity>,
}

/// What a friend request must do to the two users' affinity lists.
#[derive(Clone, Copy, Debug, PartialEq, Eq, Structural)]
pub enum FriendAction {
    /// Both sides move to `Friend`: the other user had already asked.
    AcceptExisting,
    /// A fresh request: `Requested` on the caller, `Pending` on the friend.
    CreateRequest,
}

/// The position of the affinity toward `friend_id`, if any.
pub open spec fn spec_affinity_of(affinities: Seq<Affinity>, friend_id: Seq<char>) -> Option<int> {
    let i = crate::first_where(affinities, |a: Affinity| a.id@ == friend_id);
    if i == -1 {
        None
    } else {
        Some(i)
    }
}

impl User {
    /// Whether this user takes part in a channel: one end of a direct
    /// channel, or a listed member of a group. Space channels are decided by
    /// space membership instead, which this does not see.
    pub fn in_channel(&self, channel: &Channel) -> (r: Option<bool>)
        ensures
            r == match *channel {
                Channel::PrivateChannel { initiator_id, target_id, .. } => Some(
                    initiator_id@ == self.id@ || target_id@ == self.id@,
                ),
                Channel::GroupChannel { members, .. } => Some(
                    spec_contains_id(members@, self.id@),
                ),
                _ => None::<bool>,
            },
    {
        match channel {
            Channel::PrivateChannel { initiator_id, target_id, .. } => Some(
                initiator_id.eq(&self.id) || target_id.eq(&self.id),
            ),
            Channel::GroupChannel { members, .. } => Some(contains_id(members, &self.id)),
            _ => None,
        }
    }

    /// What a friend request toward `friend_id` must do, from this user's
    /// side of the graph: refuse when already related, accept a pending
    /// request, or open a fresh one.
    pub fn add_friend_action(&self, friend_id: &String) -> (r: Result<FriendAction, Error>)
        ensures
            match spec_affinity_of(self.affinities@, friend_id@) {
                Some(i) => match self.affinities@[i].relationship {
                    Relationship::Friend => r matches Err(Error::AlreadyFriends),
                    Relationship::Blocked => r matches Err(Error::Blocked),
                    Relationship::Requested => r matches Err(Error::AlreadyRequested),
                    Relationship::Pending => r matches Ok(FriendAction::AcceptExisting),
                },
                None => r matches Ok(FriendAction::CreateRequest),
            },
    {
        let ghost p = |a: Affinity| a.id@ == friend_id@;
        let mut i: usize = 0;
        while i < self.affinities.len()
            invariant
                0 <= i <= self.affinities@.len(),
                forall|j: int| 0 <= j < i ==> !p(#[trigger] self.affinities@[j]),
                p == (|a: Affinity| a.id@ == friend_id@),
            decreases self.affinities@.len() - i,
        {
            let a = &self.affinities[i];
            if a.id.eq(friend_id) {
                proof {
                    crate::lemma_first_where(self.affinities@, p);
                    let r = crate::first_where(self.affinities@, p);
                    assert(r != -1);
                    if r < i as int {
                        assert(!p(self.affinities@[r]));
                        assert(false);
                    }
                    if r > i as int {
                        assert(!p(self.affinities@[i as int]));
                        assert(false);
                    }
                }
                return match a.relationship {
                    Relationship::Friend => Err(Error::AlreadyFriends),
                    Relationship::Blocked => Err(Error::Blocked),
                    Relationship::Requested => Err(Error::AlreadyRequested),
                    Relationship::Pending => Ok(FriendAction::AcceptExisting),
                };
            }
            i += 1;
        }
        proof {
            crate::lemma_first_where(self.affinities@, p);
            let r = crate::first_where(self.affinities@, p);
            if r != -1 {
                assert(!p(self.affinities@[r]));
                assert(false);
            }
        }
        Ok(FriendAction::CreateRequest)
    }
}

} // verus!
