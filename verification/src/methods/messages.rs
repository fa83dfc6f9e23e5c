//! Reading and sending chat messages.
use vstd::prelude::*;

use crate::errors::Error;
use crate::messages::Message;
use crate::users::User;
use crate::{spec_trim, trim_bytes};

verus! {

#[derive(Clone, Debug)]
pub struct GetMessagesMethod {
    pub channel_id: String,
    pub limit: Option<i64>,
    pub latest: Option<bool>,
    pub before: Option<String>,
    pub after: Option<String>,
}

#[derive(Clone, Debug)]
pub struct GetMessagesResponse {
    pub messages: Vec<Message>,
}

#[derive(Clone, Debug)]
pub struct SendMessageMethod {
    pub channel_id: String,
    /// The body, as the bytes of its text.
    pub content: Vec<u8>,
}

#[derive(Clone, Debug)]
pub struct SendMessageResponse {
    pub message_id: String,
}

/// The longest message body accepted, in bytes of its trimmed text.
pub const MAX_MESSAGE_LENGTH: usize = 4096;

impl SendMessageMethod {
    /// Validate and shape the message: the trimmed body must not be empty
    /// nor over the limit; the stored record carries the trimmed body. The
    /// caller persists the record and fans the event out.
    pub fn respond(&self, user: Option<&User>, new_message_id: String, now: u64) -> (r: Result<
        (Message, SendMessageResponse),
        Error,
    >)
        ensures
            ({
                let trimmed = spec_trim(self.content@);
                match r {
                    Err(e) => {
                        if user is None {
                            e matches Error::NotAuthenticated
                        } else if trimmed.len() > MAX_MESSAGE_LENGTH {
                            e matches Error::MessageTooLong
                        } else {
                            (e matches Error::MessageEmpty) && trimmed.len() == 0
                        }
                    },
                    Ok((message, response)) => {
                        &&& user is Some
                        &&& 0 < trimmed.len() <= MAX_MESSAGE_LENGTH
                        &&& message.id@ == new_message_id@
                        &&& message.content@ == trimmed
                        &&& message.author_id@ == user.unwrap().id@
                        &&& message.created_at == now
                        &&& !message.edited
                        &&& message.edited_at is None
                        &&& message.channel_id@ == self.channel_id@
                        &&& response.message_id@ == new_message_id@
                    },
                }
            }),
    {
        let Some(user) = user else { return Err(Error::NotAuthenticated) };
        let trimmed = trim_bytes(&self.content);
        if trimmed.len() > MAX_MESSAGE_LENGTH {
            return Err(Error::MessageTooLong);
        }
        if trimmed.len() == 0 {
            return Err(Error::MessageEmpty);
        }
        let response = SendMessageResponse { message_id: new_message_id.clone() };
        let message = Message {
            id: new_message_id,
            content: trimmed,
            author_id: user.id.clone(),
            created_at: now,
            edited: false,
            edited_at: None,
            channel_id: self.channel_id.clone(),
        };
        Ok((message, response))
    }
}

} // verus!
