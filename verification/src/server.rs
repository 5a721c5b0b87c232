//! Servers: the record, its creation rules, and its update fan-out.

use vstd::prelude::*;
use vstd::utf8::encode_utf8;
use crate::bus::Bus;
use crate::channel::Channel;
use crate::error::ServerErr;
use crate::snapshot::Update;

verus! {

pub type ServerId = i32;

/// Longest accepted server name, in bytes of its UTF-8 encoding.
pub const SERVER_NAME_MAX_LEN: usize = 32;

/// A server record, as the store holds it.
#[derive(Debug, PartialEq, Eq)]
pub struct Server {
    pub id: ServerId,
    pub name: String,
}

impl Clone for Server {
    fn clone(&self) -> (r: Self)
        ensures
            r == *self,
    {
        Server { id: self.id, name: self.name.clone() }
    }
}

impl Server {
    /// The decision half of inserting a server: whether the store may be
    /// asked to insert a row with this name.
    pub fn validate_name(name: &String) -> (r: Result<(), ServerErr>)
        requires
            encode_utf8(name@).len() <= usize::MAX,
        ensures
            r is Ok <==> encode_utf8(name@).len() <= SERVER_NAME_MAX_LEN,
            r matches Err(e) ==> (e matches ServerErr::ServerNameTooLong(n) && n == encode_utf8(
                name@,
            ).len()),
    {
        let len = name.as_str().len();
        if len > SERVER_NAME_MAX_LEN {
            Err(ServerErr::ServerNameTooLong(len))
        } else {
            Ok(())
        }
    }
}

/// Query parameters of the create-server route.
#[derive(Debug, PartialEq, Eq)]
pub struct CreateServerParams {
    pub name: String,
}

impl Clone for CreateServerParams {
    fn clone(&self) -> (r: Self)
        ensures
            r == *self,
    {
        CreateServerParams { name: self.name.clone() }
    }
}

/// The fan-out half of the create-server route: a new server comes with its
/// first channel, and both records are broadcast, server first. Best-effort
/// by design — a committed row is reported to the caller even if nobody
/// listens to the bus.
pub fn publish_server_created(bus: &mut Bus<Update>, server: Server, channel: Channel)
    requires
        old(bus).wf(),
        old(bus).history().len() + 1 < usize::MAX,
    ensures
        final(bus).wf(),
        final(bus).capacity() == old(bus).capacity(),
        final(bus).history() == old(bus).history().push(Update::Server(server)).push(
            Update::Channel(channel),
        ),
        old(bus).oldest() <= final(bus).oldest() <= old(bus).oldest() + 2,
        old(bus).history().len() + 2 - old(bus).oldest() <= old(bus).capacity()
            ==> final(bus).oldest() == old(bus).oldest(),
{
    proof {
        bus.lemma_wf();
    }
    bus.publish(Update::Server(server));
    proof {
        bus.lemma_wf();
    }
    bus.publish(Update::Channel(channel));
}

} // verus!
