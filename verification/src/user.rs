//! Users: the record, its creation rules, and its update fan-out.

use vstd::prelude::*;
use vstd::utf8::encode_utf8;
use crate::bus::Bus;
use crate::error::ServerErr;
use crate::snapshot::Update;

verus! {

pub type UserId = i32;

/// Longest accepted user name, in bytes of its UTF-8 encoding.
pub const USERNAME_MAX_LEN: usize = 32;

/// A user record, as the store holds it.
#[derive(Debug, PartialEq, Eq)]
pub struct User {
    pub id: UserId,
    pub name: String,
}

impl Clone for User {
    fn clone(&self) -> (r: Self)
        ensures
            r == *self,
    {
        User { id: self.id, name: self.name.clone() }
    }
}

impl User {
    /// The decision half of inserting a user: whether the store may be asked
    /// to insert a row with this name. Accepts exactly the names of at most
    /// [`USERNAME_MAX_LEN`] bytes; anything longer is reported with its size.
    pub fn validate_name(name: &String) -> (r: Result<(), ServerErr>)
        requires
            encode_utf8(name@).len() <= usize::MAX,
        ensures
            r is Ok <==> encode_utf8(name@).len() <= USERNAME_MAX_LEN,
            r matches Err(e) ==> (e matches ServerErr::UsernameTooLong(n) && n == encode_utf8(
                name@,
            ).len()),
    {
        let len = name.as_str().len();
        if len > USERNAME_MAX_LEN {
            Err(ServerErr::UsernameTooLong(len))
        } else {
            Ok(())
        }
    }
}

/// Query parameters of the create-user route.
#[derive(Debug, PartialEq, Eq)]
pub struct CreateUserParams {
    pub name: String,
}

impl Clone for CreateUserParams {
    fn clone(&self) -> (r: Self)
        ensures
            r == *self,
    {
        CreateUserParams { name: self.name.clone() }
    }
}

/// The fan-out half of the create-user route: once the store has committed
/// the row, wrap it in an update event and broadcast it. Best-effort by
/// design — the bus accepts the event whether or not anyone listens.
pub fn publish_user_created(bus: &mut Bus<Update>, user: User)
    requires
        old(bus).wf(),
        old(bus).history().len() < usize::MAX,
    ensures
        final(bus).wf(),
        final(bus).capacity() == old(bus).capacity(),
        final(bus).history() == old(bus).history().push(Update::User(user)),
        old(bus).window_after_publish(*final(bus)),
{
    bus.publish(Update::User(user));
}

} // verus!
