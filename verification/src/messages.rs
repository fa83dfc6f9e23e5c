//! Message records.
use vstd::prelude::*;

verus! {

/// One chat message. The body is kept as the bytes of its text.
#[derive(Clone, Debug)]
pub struct Message {
    pub id: String,
    pub content: Vec<u8>,
    pub author_id: String,
    pub created_at: u64,
    pub edited: bool,
    pub edited_at: Option<u64>,
    pub channel_id: String,
}

impl Message {
    /// The record as it stands after an edit of its body.
    pub fn with_edit(&self, content: Vec<u8>, now: u64) -> (r: Message)
        ensures
            r.id@ == self.id@,
            r.content@ == content@,
            r.author_id@ == self.author_id@,
            r.created_at == self.created_at,
            r.edited,
            r.edited_at == Some(now),
            r.channel_id@ == self.channel_id@,
    {
        Message {
            id: self.id.clone(),
            content,
            author_id: self.author_id.clone(),
            created_at: self.created_at,
            edited: true,
            edited_at: Some(now),
            channel_id: self.channel_id.clone(),
        }
    }
}

} // verus!
