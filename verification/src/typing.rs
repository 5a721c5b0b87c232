//! Typing indicators: a transient state change broadcast to listeners.

use vstd::prelude::*;
use crate::bus::Bus;
use crate::snapshot::Update;
use crate::user::UserId;

verus! {

/// A user started or stopped typing.
#[derive(Debug, PartialEq, Eq)]
pub enum Typing {
    Start(UserId),
    Stop(UserId),
}

impl Clone for Typing {
    fn clone(&self) -> (r: Self)
        ensures
            r == *self,
    {
        match self {
            Typing::Start(user_id) => Typing::Start(*user_id),
            Typing::Stop(user_id) => Typing::Stop(*user_id),
        }
    }
}

/// Query parameters of the typing route: `typing` says whether the user
/// started (true) or stopped (false).
#[derive(Debug, PartialEq, Eq)]
pub struct TypingParams {
    pub typing: bool,
    pub user_id: i32,
}

impl Clone for TypingParams {
    fn clone(&self) -> (r: Self)
        ensures
            r == *self,
    {
        TypingParams { typing: self.typing, user_id: self.user_id }
    }
}

/// The typing route: turn the request into the matching typing event and
/// broadcast it. Nothing is stored; the event is the whole effect.
pub fn typing(bus: &mut Bus<Update>, params: TypingParams)
    requires
        old(bus).wf(),
        old(bus).history().len() < usize::MAX,
    ensures
        final(bus).wf(),
        final(bus).capacity() == old(bus).capacity(),
        final(bus).history() == old(bus).history().push(
            Update::Typing(
                if params.typing {
                    Typing::Start(params.user_id)
                } else {
                    Typing::Stop(params.user_id)
                },
            ),
        ),
        old(bus).window_after_publish(*final(bus)),
{
    let event = if params.typing {
        Typing::Start(params.user_id)
    } else {
        Typing::Stop(params.user_id)
    };
    bus.publish(Update::Typing(event));
}

} // verus!
