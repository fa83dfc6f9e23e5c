//! The lasting record of a call, kept for accounting after the live call
//! is gone.
use vstd::prelude::*;

verus! {

/// A call's history record. While the call is alive, `ended_at` is the
/// time of the last refresh heartbeat; when it ends, the final value says
/// when.
#[derive(Clone, Debug)]
pub struct Call {
    pub id: String,
    pub name: Option<String>,
    pub channel_id: String,
    /// Everyone that was in the call at the last refresh.
    pub joined_members: Vec<String>,
    pub ended_at: u64,
}

impl Call {
    /// The record as a refresh heartbeat leaves it: the member list as the
    /// live call has it, and the clock moved to now.
    pub fn refreshed(&self, members: Vec<String>, now: u64) -> (r: Call)
        ensures
            r.id@ == self.id@,
            r.name == self.name,
            r.channel_id@ == self.channel_id@,
            r.joined_members@ == members@,
            r.ended_at == now,
    {
        Call {
            id: self.id.clone(),
            name: self.name.clone(),
            channel_id: self.channel_id.clone(),
            joined_members: members,
            ended_at: now,
        }
    }
}

} // verus!
