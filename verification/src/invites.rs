//! Invite records and invite codes.
use vstd::prelude::*;

use crate::encryption::{generate, random_number, spec_id_alphabet};

verus! {

/// An invite to a channel or a space.
#[derive(Clone, Debug)]
pub struct Invite {
    pub id: String,
    pub code: String,
    pub channel_id: String,
    pub creator: String,
    pub created_at: u64,
    pub expires_at: Option<u64>,
    pub max_uses: Option<i32>,
    /// The users that have redeemed the invite.
    pub uses: Vec<String>,
    pub authorized_users: Option<Vec<String>>,
    pub space_id: Option<String>,
    pub scope_id: String,
}

/// A fresh seven-character alphanumeric invite code.
pub fn generate_code() -> (r: String)
    ensures
        r@.len() == 7,
        forall|i: int| 0 <= i < r@.len() ==> spec_id_alphabet().contains(#[trigger] r@[i]),
{
    let alphabet = crate::encryption::id_alphabet();
    proof {
        reveal_strlit("0123456789abcdefghijklmnopqrstuvwxyzABCDEFGHIJKLMNOPQRSTUVWXYZ");
    }
    generate(random_number, alphabet.as_slice(), 7)
}

} // verus!
