//! The closed set of errors the control plane surfaces, and the tag each one
//! carries on the wire.
use vstd::prelude::*;

use crate::permissions::Permission;

verus! {

/// Every error a request can end in. The wire tag of each variant is given
/// by [`Error::tag`].
#[derive(Clone, Debug)]
pub enum Error {
    DatabaseError { message: String },
    NotFound,
    Unimplemented,
    InvalidMethod,
    InvalidRequestId,
    InternalError,
    MissingPermission { permission: Permission },
    InvalidToken,
    NotAuthenticated,
    MessageTooLong,
    MessageEmpty,
    NameTooLong,
    NameEmpty,
    InvalidInvite,
    InviteExpired,
    InviteAlreadyUsed,
    ChannelFull,
    AlreadyExists,
    NoVoiceNodesAvailable,
    Blocked,
    AlreadyFriends,
    AlreadyRequested,
    NotFriends,
}

/// The wire tag of each error.
pub open spec fn error_tag(e: Error) -> Seq<char> {
    match e {
        Error::DatabaseError { .. } => "DATABASE_ERROR"@,
        Error::NotFound => "NOT_FOUND"@,
        Error::Unimplemented => "UNIMPLEMENTED"@,
        Error::InvalidMethod => "INVALID_METHOD"@,
        Error::InvalidRequestId => "INVALID_REQUEST_ID"@,
        Error::InternalError => "INTERNAL_ERROR"@,
        Error::MissingPermission { .. } => "MISSING_PERMISSION"@,
        Error::InvalidToken => "INVALID_TOKEN"@,
        Error::NotAuthenticated => "NOT_AUTHENTICATED"@,
        Error::MessageTooLong => "MESSAGE_TOO_LONG"@,
        Error::MessageEmpty => "MESSAGE_EMPTY"@,
        Error::NameTooLong => "NAME_TOO_LONG"@,
        Error::NameEmpty => "NAME_EMPTY"@,
        Error::InvalidInvite => "INVALID_INVITE"@,
        Error::InviteExpired => "INVITE_EXPIRED"@,
        Error::InviteAlreadyUsed => "INVITE_ALREADY_USED"@,
        Error::ChannelFull => "CHANNEL_FULL"@,
        Error::AlreadyExists => "ALREADY_EXISTS"@,
        Error::NoVoiceNodesAvailable => "NO_VOICE_NODES_AVAILABLE"@,
        Error::Blocked => "BLOCKED"@,
        Error::AlreadyFriends => "ALREADY_FRIENDS"@,
        Error::AlreadyRequested => "ALREADY_REQUESTED"@,
        Error::NotFriends => "NOT_FRIENDS"@,
    }
}

impl Error {
    /// The tag this error travels under.
    pub fn tag(&self) -> (r: &'static str)
        ensures
            r@ == error_tag(*self),
    {
        match self {
            Error::DatabaseError { .. } => "DATABASE_ERROR",
            Error::NotFound => "NOT_FOUND",
            Error::Unimplemented => "UNIMPLEMENTED",
            Error::InvalidMethod => "INVALID_METHOD",
            Error::InvalidRequestId => "INVALID_REQUEST_ID",
            Error::InternalError => "INTERNAL_ERROR",
            Error::MissingPermission { .. } => "MISSING_PERMISSION",
            Error::InvalidToken => "INVALID_TOKEN",
            Error::NotAuthenticated => "NOT_AUTHENTICATED",
            Error::MessageTooLong => "MESSAGE_TOO_LONG",
            Error::MessageEmpty => "MESSAGE_EMPTY",
            Error::NameTooLong => "NAME_TOO_LONG",
            Error::NameEmpty => "NAME_EMPTY",
            Error::InvalidInvite => "INVALID_INVITE",
            Error::InviteExpired => "INVITE_EXPIRED",
            Error::InviteAlreadyUsed => "INVITE_ALREADY_USED",
            Error::ChannelFull => "CHANNEL_FULL",
            Error::AlreadyExists => "ALREADY_EXISTS",
            Error::NoVoiceNodesAvailable => "NO_VOICE_NODES_AVAILABLE",
            Error::Blocked => "BLOCKED",
            Error::AlreadyFriends => "ALREADY_FRIENDS",
            Error::AlreadyRequested => "ALREADY_REQUESTED",
            Error::NotFriends => "NOT_FRIENDS",
        }
    }
}

} // verus!
