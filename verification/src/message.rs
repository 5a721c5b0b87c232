//! Messages: the record, its creation rules, and its update fan-out.

use vstd::prelude::*;
use vstd::utf8::encode_utf8;
use crate::bus::Bus;
use crate::channel::ChannelId;
use crate::error::ServerErr;
use crate::server::ServerId;
use crate::snapshot::Update;
use crate::user::UserId;

verus! {

pub type MessageId = i64;

/// Longest accepted message text, in bytes of its UTF-8 encoding.
pub const MESSAGE_MAX_LEN: usize = 512;

/// A message record, as the store holds it. `ts` is the moment the store
/// accepted the message, as a Unix timestamp in milliseconds.
#[derive(Debug, PartialEq, Eq)]
pub struct Message {
    pub user_id: UserId,
    pub channel_id: ChannelId,
    pub server_id: ServerId,
    pub ts: i64,
    pub id: MessageId,
    pub text: String,
}

impl Clone for Message {
    fn clone(&self) -> (r: Self)
        ensures
            r == *self,
    {
        Message {
            user_id: self.user_id,
            channel_id: self.channel_id,
            server_id: self.server_id,
            ts: self.ts,
            id: self.id,
            text: self.text.clone(),
        }
    }
}

impl Message {
    /// The decision half of inserting a message: whether the store may be
    /// asked to insert a row with this text.
    pub fn validate_text(text: &String) -> (r: Result<(), ServerErr>)
        requires
            encode_utf8(text@).len() <= usize::MAX,
        ensures
            r is Ok <==> encode_utf8(text@).len() <= MESSAGE_MAX_LEN,
            r matches Err(e) ==> (e matches ServerErr::MessageTooLong(n) && n == encode_utf8(
                text@,
            ).len()),
    {
        let len = text.as_str().len();
        if len > MESSAGE_MAX_LEN {
            Err(ServerErr::MessageTooLong(len))
        } else {
            Ok(())
        }
    }

    /// The decision half of the create-message route's reference checks. The
    /// route asks the store whether the user, the channel and the server
    /// named by the request exist, in that order, and the first missing one
    /// decides the error.
    pub fn check_refs(
        user_exists: bool,
        channel_exists: bool,
        server_exists: bool,
        user_id: UserId,
        channel_id: ChannelId,
        server_id: ServerId,
    ) -> (r: Result<(), ServerErr>)
        ensures
            r is Ok <==> (user_exists && channel_exists && server_exists),
            !user_exists ==> (r matches Err(e) && e matches ServerErr::NoUserId(id) && id
                == user_id),
            user_exists && !channel_exists ==> (r matches Err(e) && e matches ServerErr::NoChannelId(
                id,
            ) && id == channel_id),
            user_exists && channel_exists && !server_exists ==> (r matches Err(e) && e matches
                ServerErr::NoServerId(id) && id == server_id),
    {
        if !user_exists {
            Err(ServerErr::NoUserId(user_id))
        } else if !channel_exists {
            Err(ServerErr::NoChannelId(channel_id))
        } else if !server_exists {
            Err(ServerErr::NoServerId(server_id))
        } else {
            Ok(())
        }
    }
}

/// Query parameters of the create-message route.
#[derive(Debug, PartialEq, Eq)]
pub struct CreateMessageParams {
    pub text: String,
    pub user_id: UserId,
    pub channel_id: ChannelId,
    pub server_id: ServerId,
}

impl Clone for CreateMessageParams {
    fn clone(&self) -> (r: Self)
        ensures
            r == *self,
    {
        CreateMessageParams {
            text: self.text.clone(),
            user_id: self.user_id,
            channel_id: self.channel_id,
            server_id: self.server_id,
        }
    }
}

/// The fan-out half of the create-message route: once the store has
/// committed the row, wrap it in an update event and broadcast it.
pub fn publish_message_created(bus: &mut Bus<Update>, message: Message)
    requires
        old(bus).wf(),
        old(bus).history().len() < usize::MAX,
    ensures
        final(bus).wf(),
        final(bus).capacity() == old(bus).capacity(),
        final(bus).history() == old(bus).history().push(Update::Message(message)),
        old(bus).window_after_publish(*final(bus)),
{
    bus.publish(Update::Message(message));
}

} // verus!
