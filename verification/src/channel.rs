//! Channels: the record, its creation rules, and its update fan-out.

use vstd::prelude::*;
use vstd::utf8::encode_utf8;
use crate::bus::Bus;
use crate::error::ServerErr;
use crate::server::ServerId;
use crate::snapshot::Update;

verus! {

pub type ChannelId = i32;

/// Longest accepted channel name, in bytes of its UTF-8 encoding.
pub const CHANNEL_NAME_MAX_LEN: usize = 32;

/// A channel record, as the store holds it.
#[derive(Debug, PartialEq, Eq)]
pub struct Channel {
    pub server_id: ServerId,
    pub id: ChannelId,
    pub name: String,
}

impl Clone for Channel {
    fn clone(&self) -> (r: Self)
        ensures
            r == *self,
    {
        Channel { server_id: self.server_id, id: self.id, name: self.name.clone() }
    }
}

impl Channel {
    /// The decision half of inserting a channel: whether the store may be
    /// asked to insert a row with this name.
    pub fn validate_name(name: &String) -> (r: Result<(), ServerErr>)
        requires
            encode_utf8(name@).len() <= usize::MAX,
        ensures
            r is Ok <==> encode_utf8(name@).len() <= CHANNEL_NAME_MAX_LEN,
            r matches Err(e) ==> (e matches ServerErr::ChannelNameTooLong(n) && n == encode_utf8(
                name@,
            ).len()),
    {
        let len = name.as_str().len();
        if len > CHANNEL_NAME_MAX_LEN {
            Err(ServerErr::ChannelNameTooLong(len))
        } else {
            Ok(())
        }
    }

    /// The decision half of the create-channel route's reference check: the
    /// route may only proceed when the named server exists in the store.
    pub fn check_server_ref(server_exists: bool, server_id: ServerId) -> (r: Result<(), ServerErr>)
        ensures
            r is Ok <==> server_exists,
            !server_exists ==> (r matches Err(e) && e matches ServerErr::NoServerId(id) && id
                == server_id),
    {
        if server_exists {
            Ok(())
        } else {
            Err(ServerErr::NoServerId(server_id))
        }
    }
}

/// Query parameters of the create-channel route.
#[derive(Debug, PartialEq, Eq)]
pub struct CreateChannelParams {
    pub name: String,
    pub server_id: ServerId,
}

impl Clone for CreateChannelParams {
    fn clone(&self) -> (r: Self)
        ensures
            r == *self,
    {
        CreateChannelParams { name: self.name.clone(), server_id: self.server_id }
    }
}

/// The fan-out half of the create-channel route: once the store has
/// committed the row, wrap it in an update event and broadcast it.
pub fn publish_channel_created(bus: &mut Bus<Update>, channel: Channel)
    requires
        old(bus).wf(),
        old(bus).history().len() < usize::MAX,
    ensures
        final(bus).wf(),
        final(bus).capacity() == old(bus).capacity(),
        final(bus).history() == old(bus).history().push(Update::Channel(channel)),
        old(bus).window_after_publish(*final(bus)),
{
    bus.publish(Update::Channel(channel));
}

} // verus!
