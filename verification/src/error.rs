//! Error type shared by the request-handling functions.

use vstd::prelude::*;

verus! {

/// Everything a request handler can fail with. Variants that carry a length
/// report the offending size in bytes; variants that carry an id report the
/// id that was not found.
#[derive(Debug)]
pub enum ServerErr {
    UsernameTooLong(usize),
    MessageTooLong(usize),
    ChannelNameTooLong(usize),
    ServerNameTooLong(usize),
    NoServerId(i32),
    NoChannelId(i32),
    NoUserId(i32),
    NoMessageId(i64),
    BadRequest(String),
}

impl ServerErr {
    /// Whether the error is the caller's fault (a reference to a record that
    /// does not exist, or an otherwise bad request) rather than an internal
    /// failure; the HTTP layer turns this into the response status.
    pub fn is_bad_request(&self) -> (r: bool)
        ensures
            r == (self matches ServerErr::NoServerId(_)
                || self matches ServerErr::NoChannelId(_)
                || self matches ServerErr::NoUserId(_)
                || self matches ServerErr::NoMessageId(_)
                || self matches ServerErr::BadRequest(_)),
    {
        match self {
            ServerErr::NoServerId(_) => true,
            ServerErr::NoChannelId(_) => true,
            ServerErr::NoUserId(_) => true,
            ServerErr::NoMessageId(_) => true,
            ServerErr::BadRequest(_) => true,
            _ => false,
        }
    }
}

} // verus!
