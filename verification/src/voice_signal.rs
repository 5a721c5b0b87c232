//! Voice signaling: the wire messages peers exchange, the presence table of
//! who is in which voice channel, and the dispatch rules every connection
//! handler applies to an inbound signal.

use vstd::prelude::*;
use crate::bus::{Bus, BusItem};
use crate::channel::ChannelId;
use crate::snapshot::Update;
use crate::user::UserId;

verus! {

/// One peer-signaling message, as exchanged over a voice connection.
/// Transient: relayed to every connected peer, never stored. `Offer`,
/// `Answer` and `IceCandidate` address a single peer through `to`, but the
/// relay broadcasts them regardless; receivers discard what is not theirs.
#[derive(Debug, PartialEq, Eq)]
pub enum VoiceSignal {
    Join { user_id: UserId, channel_id: ChannelId },
    Leave { user_id: UserId, channel_id: ChannelId },
    Offer { from: UserId, to: UserId, channel_id: ChannelId, sdp: String },
    Answer { from: UserId, to: UserId, channel_id: ChannelId, sdp: String },
    IceCandidate { from: UserId, to: UserId, channel_id: ChannelId, candidate: String },
}

impl Clone for VoiceSignal {
    fn clone(&self) -> (r: Self)
        ensures
            r == *self,
    {
        match self {
            VoiceSignal::Join { user_id, channel_id } => VoiceSignal::Join {
                user_id: *user_id,
                channel_id: *channel_id,
            },
            VoiceSignal::Leave { user_id, channel_id } => VoiceSignal::Leave {
                user_id: *user_id,
                channel_id: *channel_id,
            },
            VoiceSignal::Offer { from, to, channel_id, sdp } => VoiceSignal::Offer {
                from: *from,
                to: *to,
                channel_id: *channel_id,
                sdp: sdp.clone(),
            },
            VoiceSignal::Answer { from, to, channel_id, sdp } => VoiceSignal::Answer {
                from: *from,
                to: *to,
                channel_id: *channel_id,
                sdp: sdp.clone(),
            },
            VoiceSignal::IceCandidate { from, to, channel_id, candidate } => {
                VoiceSignal::IceCandidate {
                    from: *from,
                    to: *to,
                    channel_id: *channel_id,
                    candidate: candidate.clone(),
                }
            },
        }
    }
}

impl BusItem for VoiceSignal {
    fn dup(&self) -> (r: Self)
        ensures
            r == *self,
    {
        self.clone()
    }
}

/// What joining does to a presence table: the user is added to the channel's
/// member set, creating the channel entry if it was absent.
pub open spec fn spec_add_user(m: Map<i32, Set<i32>>, channel_id: i32, user_id: i32) -> Map<
    i32,
    Set<i32>,
> {
    let members = if m.contains_key(channel_id) {
        m[channel_id]
    } else {
        Set::empty()
    };
    m.insert(channel_id, members.insert(user_id))
}

/// What leaving does to a presence table: the user is dropped from the
/// channel's member set; if that empties the set, the channel entry itself
/// is deleted, so the table never accumulates empty entries. Leaving a
/// channel one is not in, or an absent channel, changes nothing.
pub open spec fn spec_remove_user(m: Map<i32, Set<i32>>, channel_id: i32, user_id: i32) -> Map<
    i32,
    Set<i32>,
> {
    if m.contains_key(channel_id) {
        let members = m[channel_id].remove(user_id);
        if members.is_empty() {
            m.remove(channel_id)
        } else {
            m.insert(channel_id, members)
        }
    } else {
        m
    }
}

/// A presence table never holds a channel with an empty member set: a
/// channel key is present exactly as long as someone is in the channel.
pub open spec fn no_empty_channels(m: Map<i32, Set<i32>>) -> bool {
    forall|c: i32| #[trigger] m.contains_key(c) ==> !m[c].is_empty()
}

/// The presence table: which users are currently joined to which voice
/// channel. Held as the set of (channel, user) pairs currently present, so
/// a channel exists exactly as long as it has a member. All mutation goes
/// through [`VoiceState::add_user`] and [`VoiceState::remove_user`]; callers
/// that share the table across connections serialize access around it.
pub struct VoiceState {
    present: Vec<(i32, i32)>,
}

impl View for VoiceState {
    type V = Map<i32, Set<i32>>;

    /// The table as a map from channel id to the set of joined user ids.
    closed spec fn view(&self) -> Map<i32, Set<i32>> {
        Map::new(|c: i32| self.has_channel(c), |c: i32| self.members(c))
    }
}

impl VoiceState {
    /// Some pair in the table names this channel.
    pub closed spec fn has_channel(&self, channel_id: i32) -> bool {
        exists|i: int| 0 <= i < self.present@.len() && self.present@[i].0 == channel_id
    }

    /// This (channel, user) pair is in the table.
    pub closed spec fn has_pair(&self, channel_id: i32, user_id: i32) -> bool {
        exists|i: int|
            0 <= i < self.present@.len() && self.present@[i] == (channel_id, user_id)
    }

    /// The member set of a channel.
    pub closed spec fn members(&self, channel_id: i32) -> Set<i32> {
        Set::new(|u: i32| self.has_pair(channel_id, u))
    }

    /// No (channel, user) pair is recorded twice.
    pub closed spec fn wf(&self) -> bool {
        forall|i: int, j: int|
            0 <= i < j < self.present@.len() ==> self.present@[i] != self.present@[j]
    }

    /// The view never shows a channel without members, and shows a channel
    /// exactly when it shows a pair in it.
    pub proof fn lemma_view_no_empty(&self)
        ensures
            no_empty_channels(self@),
    {
        assert forall|c: i32| #[trigger] self@.contains_key(c) implies !self@[c].is_empty() by {
            let i = choose|i: int|
                0 <= i < self.present@.len() && self.present@[i].0 == c;
            let u = self.present@[i].1;
            assert(self.present@[i] == (c, u));
            assert(self.has_pair(c, u));
            assert(self@[c].contains(u));
        }
    }

    /// An empty presence table.
    pub fn new() -> (s: VoiceState)
        ensures
            s.wf(),
            s@ == Map::<i32, Set<i32>>::empty(),
    {
        let s = VoiceState { present: Vec::new() };
        proof {
            assert(s@ =~= Map::<i32, Set<i32>>::empty());
        }
        s
    }

    /// Whether a user is currently joined to a channel.
    pub fn contains(&self, channel_id: i32, user_id: i32) -> (r: bool)
        ensures
            r == (self@.contains_key(channel_id) && self@[channel_id].contains(user_id)),
    {
        let mut i: usize = 0;
        let n = self.present.len();
        while i < n
            invariant
                0 <= i <= n,
                n == self.present@.len(),
                forall|k: int| 0 <= k < i ==> self.present@[k] != (channel_id, user_id),
            decreases n - i,
        {
            let p = self.present[i];
            if p.0 == channel_id && p.1 == user_id {
                proof {
                    assert(self.has_pair(channel_id, user_id));
                    assert(self.has_channel(channel_id));
                    assert(self@[channel_id].contains(user_id));
                }
                return true;
            }
            i = i + 1;
        }
        proof {
            assert(!self.has_pair(channel_id, user_id));
            if self@.contains_key(channel_id) && self@[channel_id].contains(user_id) {
                assert(self.has_pair(channel_id, user_id));
            }
        }
        false
    }

    /// Whether any user is currently joined to a channel; equivalently,
    /// whether the channel has an entry at all.
    pub fn has_members(&self, channel_id: i32) -> (r: bool)
        ensures
            r == self@.contains_key(channel_id),
    {
        let mut i: usize = 0;
        let n = self.present.len();
        while i < n
            invariant
                0 <= i <= n,
                n == self.present@.len(),
                forall|k: int| 0 <= k < i ==> self.present@[k].0 != channel_id,
            decreases n - i,
        {
            if self.present[i].0 == channel_id {
                proof {
                    assert(self.has_channel(channel_id));
                }
                return true;
            }
            i = i + 1;
        }
        proof {
            assert(!self.has_channel(channel_id));
        }
        false
    }

    /// Join: record the user as present in the channel. Idempotent — adding
    /// a user who is already in the channel changes nothing. Never fails.
    pub fn add_user(&mut self, channel_id: i32, user_id: i32)
        requires
            old(self).wf(),
        ensures
            final(self).wf(),
            final(self)@ == spec_add_user(old(self)@, channel_id, user_id),
    {
        let already = self.contains(channel_id, user_id);
        if !already {
            self.present.push((channel_id, user_id));
        }
        proof {
            if already {
                assert(old(self)@[channel_id].insert(user_id) =~= old(self)@[channel_id]);
                assert(self@ =~= spec_add_user(old(self)@, channel_id, user_id));
            } else {
                let pre = old(self).present@;
                let post = self.present@;
                assert(post == pre.push((channel_id, user_id)));
                // the pair relation after the push
                assert forall|c: i32, u: i32| #[trigger] self.has_pair(c, u) == (old(self).has_pair(
                    c,
                    u,
                ) || (c == channel_id && u == user_id)) by {
                    if self.has_pair(c, u) {
                        let i = choose|i: int| 0 <= i < post.len() && post[i] == (c, u);
                        if i < pre.len() {
                            assert(pre[i] == (c, u));
                            assert(old(self).has_pair(c, u));
                        } else {
                            assert(post[i] == (channel_id, user_id));
                        }
                    }
                    if old(self).has_pair(c, u) {
                        let i = choose|i: int| 0 <= i < pre.len() && pre[i] == (c, u);
                        assert(post[i] == (c, u));
                        assert(self.has_pair(c, u));
                    }
                    if c == channel_id && u == user_id {
                        assert(post[post.len() - 1] == (c, u));
                        assert(self.has_pair(c, u));
                    }
                }
                // the channel relation after the push
                assert forall|c: i32| #[trigger] self.has_channel(c) == (old(self).has_channel(c)
                    || c == channel_id) by {
                    if self.has_channel(c) {
                        let i = choose|i: int| 0 <= i < post.len() && post[i].0 == c;
                        if i < pre.len() {
                            assert(pre[i].0 == c);
                            assert(old(self).has_channel(c));
                        } else {
                            assert(post[i] == (channel_id, user_id));
                        }
                    }
                    if old(self).has_channel(c) {
                        let i = choose|i: int| 0 <= i < pre.len() && pre[i].0 == c;
                        assert(post[i].0 == c);
                        assert(self.has_channel(c));
                    }
                    if c == channel_id {
                        assert(post[post.len() - 1].0 == c);
                        assert(self.has_channel(c));
                    }
                }
                assert(self@ =~~= spec_add_user(old(self)@, channel_id, user_id));
            }
        }
    }

    /// Leave: drop the user from the channel. Idempotent — removing a user
    /// who is not in the channel, or from an absent channel, changes
    /// nothing; and removing a channel's last member deletes the channel
    /// entry entirely. Never fails.
    pub fn remove_user(&mut self, channel_id: i32, user_id: i32)
        requires
            old(self).wf(),
        ensures
            final(self).wf(),
            final(self)@ == spec_remove_user(old(self)@, channel_id, user_id),
    {
        let n = self.present.len();
        let mut i: usize = 0;
        while i < n
            invariant
                0 <= i <= n,
                *self == *old(self),
                old(self).wf(),
                n == self.present@.len(),
                forall|k: int| 0 <= k < i ==> self.present@[k] != (channel_id, user_id),
            decreases n - i,
        {
            let p = self.present[i];
            if p.0 == channel_id && p.1 == user_id {
                self.present.remove(i);
                proof {
                    let pre = old(self).present@;
                    let post = self.present@;
                    let at: int = i as int;
                    pre.remove_ensures(at);
                    assert(post == pre.remove(at));
                    assert(pre[at] == (channel_id, user_id));
                    assert(old(self).has_pair(channel_id, user_id));
                    // well-formedness survives deleting one pair
                    assert forall|a: int, b: int|
                        0 <= a < b < post.len() implies post[a] != post[b] by {
                        let a0 = if a < at { a } else { a + 1 };
                        let b0 = if b < at { b } else { b + 1 };
                        assert(post[a] == pre[a0]);
                        assert(post[b] == pre[b0]);
                    }
                    // the pair relation after the removal: exactly the
                    // removed pair is gone, since pairs are unique
                    assert forall|c: i32, u: i32| #[trigger] self.has_pair(c, u) == (old(
                        self,
                    ).has_pair(c, u) && !(c == channel_id && u == user_id)) by {
                        if self.has_pair(c, u) {
                            let j = choose|j: int| 0 <= j < post.len() && post[j] == (c, u);
                            let j0 = if j < at { j } else { j + 1 };
                            assert(pre[j0] == (c, u));
                            assert(old(self).has_pair(c, u));
                            if c == channel_id && u == user_id {
                                assert(pre[j0] == pre[at]);
                                assert(j0 != at);
                                assert(false);
                            }
                        }
                        if old(self).has_pair(c, u) && !(c == channel_id && u == user_id) {
                            let j0 = choose|j0: int| 0 <= j0 < pre.len() && pre[j0] == (c, u);
                            assert(j0 != at);
                            let j = if j0 < at { j0 } else { j0 - 1 };
                            assert(post[j] == (c, u));
                            assert(self.has_pair(c, u));
                        }
                    }
                    // the channel relation after the removal
                    assert forall|c: i32| #[trigger] self.has_channel(c) implies (old(
                        self,
                    ).has_channel(c)) by {
                        let j = choose|j: int| 0 <= j < post.len() && post[j].0 == c;
                        let j0 = if j < at { j } else { j + 1 };
                        assert(pre[j0].0 == c);
                    }
                    assert forall|c: i32| c != channel_id && old(self).has_channel(c) implies #[trigger] self.has_channel(
                        c,
                    ) by {
                        let j0 = choose|j0: int| 0 <= j0 < pre.len() && pre[j0].0 == c;
                        assert(pre[j0] != (channel_id, user_id));
                        assert(j0 != at);
                        let j = if j0 < at { j0 } else { j0 - 1 };
                        assert(post[j].0 == c);
                    }
                    // a surviving member of the removed user's channel keeps
                    // the channel alive; otherwise the channel is gone
                    let m0 = old(self)@;
                    if m0[channel_id].remove(user_id).is_empty() {
                        assert forall|u: i32| !(#[trigger] self.has_pair(channel_id, u)) by {
                            if self.has_pair(channel_id, u) {
                                assert(old(self).has_pair(channel_id, u) && u != user_id);
                                assert(m0[channel_id].contains(u));
                                assert(m0[channel_id].remove(user_id).contains(u));
                            }
                        }
                        assert(!self.has_channel(channel_id)) by {
                            if self.has_channel(channel_id) {
                                let j = choose|j: int|
                                    0 <= j < post.len() && post[j].0 == channel_id;
                                let u = post[j].1;
                                assert(post[j] == (channel_id, u));
                                assert(self.has_pair(channel_id, u));
                            }
                        }
                        assert(self@ =~~= spec_remove_user(m0, channel_id, user_id));
                    } else {
                        let u2 = m0[channel_id].remove(user_id).choose();
                        assert(m0[channel_id].remove(user_id).contains(u2));
                        assert(old(self).has_pair(channel_id, u2) && u2 != user_id);
                        assert(self.has_pair(channel_id, u2));
                        assert(self.has_channel(channel_id));
                        assert(self@ =~~= spec_remove_user(m0, channel_id, user_id));
                    }
                }
                return ;
            }
            i = i + 1;
        }
        proof {
            assert(!old(self).has_pair(channel_id, user_id));
            let m0 = old(self)@;
            if m0.contains_key(channel_id) {
                assert(m0[channel_id].remove(user_id) =~= m0[channel_id]);
                old(self).lemma_view_no_empty();
                assert(!m0[channel_id].is_empty());
                assert(self@ =~~= spec_remove_user(m0, channel_id, user_id));
            } else {
                assert(self@ =~~= spec_remove_user(m0, channel_id, user_id));
            }
        }
    }
}

impl Default for VoiceState {
    /// An empty presence table, as the process starts with.
    fn default() -> (s: Self)
        ensures
            s.wf(),
            s@ == Map::<i32, Set<i32>>::empty(),
    {
        VoiceState::new()
    }
}

/// The full effect one inbound signal has on the shared state, relating the
/// presence table, the update-bus history and the relay history before and
/// after dispatch. Every signal is republished on the relay, last, so every
/// connected handler (the sender's own included) forwards it; only `Join`
/// and `Leave` touch the presence table and emit a derived update event.
/// `Offer`, `Answer` and `IceCandidate` are relayed verbatim and have no
/// other effect.
pub open spec fn signal_effect(
    presence0: Map<i32, Set<i32>>,
    presence1: Map<i32, Set<i32>>,
    updates0: Seq<Update>,
    updates1: Seq<Update>,
    relay0: Seq<VoiceSignal>,
    relay1: Seq<VoiceSignal>,
    signal: VoiceSignal,
) -> bool {
    &&& relay1 == relay0.push(signal)
    &&& match signal {
        VoiceSignal::Join { user_id, channel_id } => {
            &&& presence1 == spec_add_user(presence0, channel_id, user_id)
            &&& updates1 == updates0.push(Update::VoiceJoin { user_id, channel_id })
        },
        VoiceSignal::Leave { user_id, channel_id } => {
            &&& presence1 == spec_remove_user(presence0, channel_id, user_id)
            &&& updates1 == updates0.push(Update::VoiceLeave { user_id, channel_id })
        },
        VoiceSignal::Offer { .. } => {
            &&& presence1 == presence0
            &&& updates1 == updates0
        },
        VoiceSignal::Answer { .. } => {
            &&& presence1 == presence0
            &&& updates1 == updates0
        },
        VoiceSignal::IceCandidate { .. } => {
            &&& presence1 == presence0
            &&& updates1 == updates0
        },
    }
}

/// Dispatch one well-formed inbound signal, exactly as a connection handler
/// does: on `Join` and `Leave`, update the presence table, then broadcast
/// the derived update event, then republish the raw signal on the relay; on
/// anything else, republish the raw signal verbatim and touch nothing.
pub fn handle_signal(
    state: &mut VoiceState,
    updates: &mut Bus<Update>,
    relay: &mut Bus<VoiceSignal>,
    signal: VoiceSignal,
)
    requires
        old(state).wf(),
        old(updates).wf(),
        old(updates).history().len() < usize::MAX,
        old(relay).wf(),
        old(relay).history().len() < usize::MAX,
    ensures
        final(state).wf(),
        final(updates).wf(),
        final(relay).wf(),
        final(updates).capacity() == old(updates).capacity(),
        final(relay).capacity() == old(relay).capacity(),
        signal_effect(
            old(state)@,
            final(state)@,
            old(updates).history(),
            final(updates).history(),
            old(relay).history(),
            final(relay).history(),
            signal,
        ),
        old(relay).window_after_publish(*final(relay)),
        (signal matches VoiceSignal::Join { .. } || signal matches VoiceSignal::Leave { .. })
            ==> old(updates).window_after_publish(*final(updates)),
        !(signal matches VoiceSignal::Join { .. } || signal matches VoiceSignal::Leave { .. })
            ==> *final(updates) == *old(updates),
{
    match &signal {
        VoiceSignal::Join { user_id, channel_id } => {
            state.add_user(*channel_id, *user_id);
            updates.publish(Update::VoiceJoin { user_id: *user_id, channel_id: *channel_id });
        },
        VoiceSignal::Leave { user_id, channel_id } => {
            state.remove_user(*channel_id, *user_id);
            updates.publish(Update::VoiceLeave { user_id: *user_id, channel_id: *channel_id });
        },
        // deliberately no catch-all: a new signal variant must be handled
        // here before the crate builds again
        VoiceSignal::Offer { .. } => {},
        VoiceSignal::Answer { .. } => {},
        VoiceSignal::IceCandidate { .. } => {},
    }
    relay.publish(signal);
}

/// One step of a connection handler's inbound duty, after framing: a frame
/// that parsed to a signal is dispatched; a non-text or malformed frame —
/// anything that did not parse — is silently discarded and has no effect at
/// all.
pub fn handle_frame(
    state: &mut VoiceState,
    updates: &mut Bus<Update>,
    relay: &mut Bus<VoiceSignal>,
    frame: Option<VoiceSignal>,
)
    requires
        old(state).wf(),
        old(updates).wf(),
        old(updates).history().len() < usize::MAX,
        old(relay).wf(),
        old(relay).history().len() < usize::MAX,
    ensures
        final(state).wf(),
        final(updates).wf(),
        final(relay).wf(),
        final(updates).capacity() == old(updates).capacity(),
        final(relay).capacity() == old(relay).capacity(),
        frame matches Some(signal) ==> (signal_effect(
            old(state)@,
            final(state)@,
            old(updates).history(),
            final(updates).history(),
            old(relay).history(),
            final(relay).history(),
            signal,
        ) && old(relay).window_after_publish(*final(relay)) && ((signal matches VoiceSignal::Join {
            ..
        } || signal matches VoiceSignal::Leave { .. }) ==> old(updates).window_after_publish(
            *final(updates),
        )) && (!(signal matches VoiceSignal::Join { .. } || signal matches VoiceSignal::Leave {
            ..
        }) ==> *final(updates) == *old(updates))),
        frame is None ==> (*final(state) == *old(state) && *final(updates) == *old(updates)
            && *final(relay) == *old(relay)),
{
    match frame {
        Some(signal) => handle_signal(state, updates, relay, signal),
        None => {},
    }
}

/// Joining a channel twice is the same as joining it once: the member set,
/// and with it the whole presence table, is unchanged by the second join.
pub proof fn lemma_add_user_idempotent(m: Map<i32, Set<i32>>, channel_id: i32, user_id: i32)
    ensures
        spec_add_user(spec_add_user(m, channel_id, user_id), channel_id, user_id) == spec_add_user(
            m,
            channel_id,
            user_id,
        ),
{
    let once = spec_add_user(m, channel_id, user_id);
    assert(once[channel_id].insert(user_id) =~= once[channel_id]);
    assert(spec_add_user(once, channel_id, user_id) =~= once);
}

/// Removing a channel's sole member deletes the channel key entirely: no
/// empty member set is left behind.
pub proof fn lemma_remove_sole_member(m: Map<i32, Set<i32>>, channel_id: i32, user_id: i32)
    requires
        m.contains_key(channel_id),
        m[channel_id] == set![user_id],
    ensures
        spec_remove_user(m, channel_id, user_id) == m.remove(channel_id),
        !spec_remove_user(m, channel_id, user_id).contains_key(channel_id),
{
    assert(m[channel_id].remove(user_id) =~= Set::<i32>::empty());
}

/// Removing a user who is not in the channel, or from a channel that has no
/// entry, is a no-op. (The proviso that a present channel has members is
/// exactly the shape every reachable presence table has.)
pub proof fn lemma_remove_user_absent_noop(m: Map<i32, Set<i32>>, channel_id: i32, user_id: i32)
    requires
        no_empty_channels(m),
        !(m.contains_key(channel_id) && m[channel_id].contains(user_id)),
    ensures
        spec_remove_user(m, channel_id, user_id) == m,
{
    if m.contains_key(channel_id) {
        assert(m[channel_id].remove(user_id) =~= m[channel_id]);
        assert(m.insert(channel_id, m[channel_id]) =~= m);
    }
}

/// A join immediately undone by a leave restores the presence table to its
/// state before the join, provided the user was not already in the channel
/// (a join of a user already present is absorbed, so the following leave
/// would remove more than the join added).
pub proof fn lemma_join_then_leave_restores(m: Map<i32, Set<i32>>, channel_id: i32, user_id: i32)
    requires
        no_empty_channels(m),
        !(m.contains_key(channel_id) && m[channel_id].contains(user_id)),
    ensures
        spec_remove_user(spec_add_user(m, channel_id, user_id), channel_id, user_id) == m,
{
    let joined = spec_add_user(m, channel_id, user_id);
    if m.contains_key(channel_id) {
        assert(joined[channel_id].remove(user_id) =~= m[channel_id]);
        assert(!joined[channel_id].remove(user_id).is_empty());
        assert(spec_remove_user(joined, channel_id, user_id) =~= m);
    } else {
        assert(joined[channel_id].remove(user_id) =~= Set::<i32>::empty());
        assert(spec_remove_user(joined, channel_id, user_id) =~= m);
    }
}

/// Fan-out of a join: once a handler has dispatched `Join { user_id,
/// channel_id }`, (a) the presence table shows the user in the channel, (b)
/// the derived `VoiceJoin` update event sits in the update-bus history right
/// where every subscriber attached before the join will read next, and (c)
/// the raw `Join` signal likewise sits at the end of the relay history, to
/// be forwarded by every connected handler — the sender's own included.
pub proof fn lemma_join_fans_out(
    presence0: Map<i32, Set<i32>>,
    presence1: Map<i32, Set<i32>>,
    updates0: Seq<Update>,
    updates1: Seq<Update>,
    relay0: Seq<VoiceSignal>,
    relay1: Seq<VoiceSignal>,
    user_id: i32,
    channel_id: i32,
)
    requires
        signal_effect(
            presence0,
            presence1,
            updates0,
            updates1,
            relay0,
            relay1,
            VoiceSignal::Join { user_id, channel_id },
        ),
    ensures
        presence1.contains_key(channel_id) && presence1[channel_id].contains(user_id),
        updates1.len() == updates0.len() + 1,
        updates1[updates0.len() as int] == (Update::VoiceJoin { user_id, channel_id }),
        relay1.len() == relay0.len() + 1,
        relay1[relay0.len() as int] == (VoiceSignal::Join { user_id, channel_id }),
{
}

} // verus!
