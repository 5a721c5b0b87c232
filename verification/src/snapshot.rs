//! The update event type carried by the event bus, and the snapshot a
//! freshly connected client fetches before listening for updates.

use vstd::prelude::*;
use crate::bus::BusItem;
use crate::channel::{Channel, ChannelId};
use crate::message::Message;
use crate::server::{Server, ServerId};
use crate::typing::Typing;
use crate::user::{User, UserId};

verus! {

/// How many rows of each kind a snapshot fetch asks the store for.
pub const SNAPSHOT_DEPTH: i64 = 128;

/// One domain change, as broadcast to every listener. Each variant carries a
/// full copy of the created or changed record, so a listener never needs to
/// re-query the store.
#[derive(Debug, PartialEq, Eq)]
pub enum Update {
    User(User),
    Server(Server),
    Channel(Channel),
    Message(Message),
    Typing(Typing),
    VoiceJoin { user_id: UserId, channel_id: ChannelId },
    VoiceLeave { user_id: UserId, channel_id: ChannelId },
}

impl Clone for Update {
    fn clone(&self) -> (r: Self)
        ensures
            r == *self,
    {
        match self {
            Update::User(user) => Update::User(user.clone()),
            Update::Server(server) => Update::Server(server.clone()),
            Update::Channel(channel) => Update::Channel(channel.clone()),
            Update::Message(message) => Update::Message(message.clone()),
            Update::Typing(typing) => Update::Typing(typing.clone()),
            Update::VoiceJoin { user_id, channel_id } => Update::VoiceJoin {
                user_id: *user_id,
                channel_id: *channel_id,
            },
            Update::VoiceLeave { user_id, channel_id } => Update::VoiceLeave {
                user_id: *user_id,
                channel_id: *channel_id,
            },
        }
    }
}

impl BusItem for Update {
    fn dup(&self) -> (r: Self)
        ensures
            r == *self,
    {
        self.clone()
    }
}

/// The channel rows that belong to one server, in the order the store
/// returned them.
pub open spec fn channels_of_server(rows: Seq<Channel>, server_id: ServerId) -> Seq<Channel> {
    rows.filter(|c: Channel| c.server_id == server_id)
}

/// The message rows of one channel, in the order the store returned them —
/// newest first.
pub open spec fn messages_newest_first(rows: Seq<Message>, channel_id: ChannelId) -> Seq<Message> {
    rows.filter(|m: Message| m.channel_id == channel_id)
}

/// The message rows of one channel, oldest first. The store hands the rows
/// over newest first, so the filtered rows are reversed.
pub open spec fn messages_of_channel(rows: Seq<Message>, channel_id: ChannelId) -> Seq<Message> {
    messages_newest_first(rows, channel_id).reverse()
}

/// Some channel row at an index below `bound` belongs to this server.
pub open spec fn server_appears_before(rows: Seq<Channel>, server_id: ServerId, bound: int) -> bool {
    exists|k: int| 0 <= k < bound && rows[k].server_id == server_id
}

/// Some channel row belongs to this server.
pub open spec fn server_appears(rows: Seq<Channel>, server_id: ServerId) -> bool {
    server_appears_before(rows, server_id, rows.len() as int)
}

/// The grouping has an entry keyed by this server.
pub open spec fn server_keyed(out: Seq<(ServerId, Vec<Channel>)>, server_id: ServerId) -> bool {
    exists|g: int| 0 <= g < out.len() && out[g].0 == server_id
}

/// Some message row at an index below `bound` belongs to this server.
pub open spec fn msg_server_appears_before(
    rows: Seq<Message>,
    server_id: ServerId,
    bound: int,
) -> bool {
    exists|k: int| 0 <= k < bound && rows[k].server_id == server_id
}

/// Some message row belongs to this server.
pub open spec fn msg_server_appears(rows: Seq<Message>, server_id: ServerId) -> bool {
    msg_server_appears_before(rows, server_id, rows.len() as int)
}

/// The grouping has an entry keyed by this server.
pub open spec fn msg_server_keyed(
    out: Seq<(ServerId, Vec<(ChannelId, Vec<Message>)>)>,
    server_id: ServerId,
) -> bool {
    exists|g: int| 0 <= g < out.len() && out[g].0 == server_id
}

/// Some message row at an index below `bound` belongs to this server and
/// this channel.
pub open spec fn msg_channel_appears_before(
    rows: Seq<Message>,
    server_id: ServerId,
    channel_id: ChannelId,
    bound: int,
) -> bool {
    exists|k: int|
        0 <= k < bound && rows[k].server_id == server_id && rows[k].channel_id == channel_id
}

/// Some message row belongs to this server and this channel.
pub open spec fn msg_channel_appears(
    rows: Seq<Message>,
    server_id: ServerId,
    channel_id: ChannelId,
) -> bool {
    msg_channel_appears_before(rows, server_id, channel_id, rows.len() as int)
}

/// A server's entry list has an entry keyed by this channel.
pub open spec fn channel_keyed(
    inner: Seq<(ChannelId, Vec<Message>)>,
    channel_id: ChannelId,
) -> bool {
    exists|t: int| 0 <= t < inner.len() && inner[t].0 == channel_id
}

/// What it means for `out` to group the channel rows by server: one entry
/// per server that appears among the rows, no server twice, and each entry
/// carrying exactly that server's rows in their original order.
pub open spec fn channels_grouped(rows: Seq<Channel>, out: Seq<(ServerId, Vec<Channel>)>) -> bool {
    &&& forall|g: int, h: int| 0 <= g < h < out.len() ==> out[g].0 != out[h].0
    &&& forall|g: int|
        0 <= g < out.len() ==> (#[trigger] out[g]).1@ == channels_of_server(rows, out[g].0)
    &&& forall|g: int| 0 <= g < out.len() ==> server_appears(rows, (#[trigger] out[g]).0)
    &&& forall|i: int|
        0 <= i < rows.len() ==> server_keyed(out, (#[trigger] rows[i]).server_id)
}

/// What it means for `out` to group the message rows by server and then by
/// channel: one entry per server that appears among the rows, under it one
/// entry per channel that appears among that server's rows, no key twice at
/// either level, and each channel entry carrying that channel's messages
/// oldest first.
pub open spec fn messages_grouped(
    rows: Seq<Message>,
    out: Seq<(ServerId, Vec<(ChannelId, Vec<Message>)>)>,
) -> bool {
    &&& forall|g: int, h: int| 0 <= g < h < out.len() ==> out[g].0 != out[h].0
    &&& forall|g: int| 0 <= g < out.len() ==> msg_server_appears(rows, (#[trigger] out[g]).0)
    &&& forall|i: int|
        0 <= i < rows.len() ==> msg_server_keyed(out, (#[trigger] rows[i]).server_id)
    &&& forall|g: int|
        0 <= g < out.len() ==> channel_entries_grouped(rows, (#[trigger] out[g]).0, out[g].1@)
}

/// The per-server half of [`messages_grouped`]: `inner` keys exactly the
/// channels that appear among `rows` under `server_id`, each once, each with
/// that channel's messages oldest first.
pub open spec fn channel_entries_grouped(
    rows: Seq<Message>,
    server_id: ServerId,
    inner: Seq<(ChannelId, Vec<Message>)>,
) -> bool {
    &&& forall|t: int, u: int| 0 <= t < u < inner.len() ==> inner[t].0 != inner[u].0
    &&& forall|t: int|
        0 <= t < inner.len() ==> (#[trigger] inner[t]).1@ == messages_of_channel(
            rows,
            inner[t].0,
        )
    &&& forall|t: int|
        0 <= t < inner.len() ==> msg_channel_appears(rows, server_id, (#[trigger] inner[t]).0)
    &&& forall|i: int|
        0 <= i < rows.len() && (#[trigger] rows[i]).server_id == server_id ==> channel_keyed(
            inner,
            rows[i].channel_id,
        )
}

/// Everything a freshly connected client needs before it starts listening
/// for updates: the most recent users, servers, channels and messages, the
/// latter two grouped the way the wire format nests them.
#[derive(Debug, PartialEq, Eq)]
pub struct Snapshot {
    pub users: Vec<User>,
    pub servers: Vec<Server>,
    pub channels: Vec<(ServerId, Vec<Channel>)>,
    pub messages: Vec<(ServerId, Vec<(ChannelId, Vec<Message>)>)>,
}

/// One row's worth of growth of a by-server filter.
proof fn lemma_channels_of_server_push(s: Seq<Channel>, server_id: ServerId, x: Channel)
    ensures
        channels_of_server(s.push(x), server_id) == (if x.server_id == server_id {
            channels_of_server(s, server_id).push(x)
        } else {
            channels_of_server(s, server_id)
        }),
{
    reveal(Seq::filter);
    assert(s.push(x).drop_last() =~= s);
}

/// One row's worth of growth of a by-channel filter.
proof fn lemma_messages_newest_first_push(s: Seq<Message>, channel_id: ChannelId, x: Message)
    ensures
        messages_newest_first(s.push(x), channel_id) == (if x.channel_id == channel_id {
            messages_newest_first(s, channel_id).push(x)
        } else {
            messages_newest_first(s, channel_id)
        }),
{
    reveal(Seq::filter);
    assert(s.push(x).drop_last() =~= s);
}

/// A server that appears below one bound appears below any larger bound.
proof fn lemma_server_appears_weaken(rows: Seq<Channel>, server_id: ServerId, b1: int, b2: int)
    requires
        server_appears_before(rows, server_id, b1),
        b1 <= b2,
    ensures
        server_appears_before(rows, server_id, b2),
{
    let k = choose|k: int| 0 <= k < b1 && rows[k].server_id == server_id;
    assert(0 <= k < b2 && rows[k].server_id == server_id);
}

/// A message server that appears below one bound appears below any larger
/// bound.
proof fn lemma_msg_server_appears_weaken(rows: Seq<Message>, server_id: ServerId, b1: int, b2: int)
    requires
        msg_server_appears_before(rows, server_id, b1),
        b1 <= b2,
    ensures
        msg_server_appears_before(rows, server_id, b2),
{
    let k = choose|k: int| 0 <= k < b1 && rows[k].server_id == server_id;
    assert(0 <= k < b2 && rows[k].server_id == server_id);
}

/// A channel that appears below one bound appears below any larger bound.
proof fn lemma_msg_channel_appears_weaken(
    rows: Seq<Message>,
    server_id: ServerId,
    channel_id: ChannelId,
    b1: int,
    b2: int,
)
    requires
        msg_channel_appears_before(rows, server_id, channel_id, b1),
        b1 <= b2,
    ensures
        msg_channel_appears_before(rows, server_id, channel_id, b2),
{
    let k = choose|k: int|
        0 <= k < b1 && rows[k].server_id == server_id && rows[k].channel_id == channel_id;
    assert(0 <= k < b2 && rows[k].server_id == server_id && rows[k].channel_id == channel_id);
}

/// Appending an id to a duplicate-free list only when it is absent keeps
/// the list duplicate-free and makes it contain the id; existing entries
/// stay in place.
proof fn lemma_fresh_key_extends(keys0: Seq<i32>, keys1: Seq<i32>, x: i32)
    requires
        forall|a: int, b: int| 0 <= a < b < keys0.len() ==> keys0[a] != keys0[b],
        keys1 == (if keys0.contains(x) {
            keys0
        } else {
            keys0.push(x)
        }),
    ensures
        forall|a: int, b: int| 0 <= a < b < keys1.len() ==> keys1[a] != keys1[b],
        keys1.contains(x),
        keys0.len() <= keys1.len(),
        forall|a: int| 0 <= a < keys0.len() ==> keys1[a] == keys0[a],
{
    if !keys0.contains(x) {
        assert(keys1.contains(x)) by {
            assert(keys1[keys1.len() - 1] == x);
        }
        assert forall|a: int, b: int| 0 <= a < b < keys1.len() implies keys1[a] != keys1[b] by {
            if b == keys1.len() - 1 {
                assert(keys1[a] == keys0[a]);
                if keys0[a] == x {
                    assert(keys0.contains(x));
                }
            }
        }
    }
}

/// Linear membership scan over a vector of ids.
fn contains_id(v: &Vec<i32>, x: i32) -> (r: bool)
    ensures
        r == v@.contains(x),
{
    let mut i: usize = 0;
    let n = v.len();
    while i < n
        invariant
            0 <= i <= n,
            n == v@.len(),
            forall|k: int| 0 <= k < i ==> v@[k] != x,
        decreases n - i,
    {
        if v[i] == x {
            return true;
        }
        i = i + 1;
    }
    false
}

/// Reverse a vector of messages.
fn reverse_messages(v: Vec<Message>) -> (out: Vec<Message>)
    ensures
        out@ == v@.reverse(),
{
    let ghost orig = v@;
    let mut v = v;
    let mut out: Vec<Message> = Vec::new();
    while v.len() > 0
        invariant
            v@.len() + out@.len() == orig.len(),
            v@ == orig.subrange(0, v@.len() as int),
            out@ == orig.subrange(v@.len() as int, orig.len() as int).reverse(),
        decreases v@.len(),
    {
        let ghost vpre = v@;
        let x = v.pop().unwrap();
        out.push(x);
        proof {
            assert(v@ == vpre.subrange(0, vpre.len() - 1));
            assert(v@ =~= orig.subrange(0, v@.len() as int));
            assert(x == orig[v@.len() as int]);
            assert(out@ =~= orig.subrange(v@.len() as int, orig.len() as int).reverse());
        }
    }
    proof {
        assert(orig.subrange(0, orig.len() as int) =~= orig);
    }
    out
}

/// Group the channel rows by server, keying each server once, in order of
/// first appearance, with its rows in their fetched order. This is the
/// assembly half of the snapshot's channel listing; the store's fetch is
/// outside.
pub fn group_channels(rows: &Vec<Channel>) -> (out: Vec<(ServerId, Vec<Channel>)>)
    ensures
        channels_grouped(rows@, out@),
{
    let n = rows.len();
    // pass one: the distinct server ids, in order of first appearance
    let mut keys: Vec<ServerId> = Vec::new();
    let mut i: usize = 0;
    while i < n
        invariant
            n == rows@.len(),
            0 <= i <= n,
            forall|a: int, b: int| 0 <= a < b < keys@.len() ==> keys@[a] != keys@[b],
            forall|k: int| 0 <= k < i ==> keys@.contains((#[trigger] rows@[k]).server_id),
            forall|a: int|
                0 <= a < keys@.len() ==> server_appears_before(
                    rows@,
                    #[trigger] keys@[a],
                    i as int,
                ),
        decreases n - i,
    {
        let ghost keys0 = keys@;
        let sid = rows[i].server_id;
        if !contains_id(&keys, sid) {
            keys.push(sid);
        }
        proof {
            lemma_fresh_key_extends(keys0, keys@, sid);
            assert forall|k: int| 0 <= k < i + 1 implies keys@.contains(
                (#[trigger] rows@[k]).server_id,
            ) by {
                if k < i {
                    let a = choose|a: int| 0 <= a < keys0.len() && keys0[a] == rows@[k].server_id;
                    assert(keys@[a] == rows@[k].server_id);
                }
            }
            assert forall|a: int| 0 <= a < keys@.len() implies server_appears_before(
                rows@,
                #[trigger] keys@[a],
                i + 1,
            ) by {
                if a < keys0.len() {
                    assert(keys@[a] == keys0[a]);
                    lemma_server_appears_weaken(rows@, keys@[a], i as int, i + 1);
                } else {
                    assert(keys@[a] == sid);
                    assert(0 <= i < i + 1 && rows@[i as int].server_id == keys@[a]);
                }
            }
        }
        i = i + 1;
    }
    proof {
        assert forall|a: int| 0 <= a < keys@.len() implies server_appears(
            rows@,
            #[trigger] keys@[a],
        ) by {
            assert(server_appears_before(rows@, keys@[a], i as int));
            assert(i as int == rows@.len() as int);
        }
    }
    // pass two: collect each keyed server's rows
    let mut out: Vec<(ServerId, Vec<Channel>)> = Vec::new();
    let mut g: usize = 0;
    while g < keys.len()
        invariant
            n == rows@.len(),
            0 <= g <= keys@.len(),
            out@.len() == g,
            forall|a: int, b: int| 0 <= a < b < keys@.len() ==> keys@[a] != keys@[b],
            forall|k: int| 0 <= k < n ==> keys@.contains((#[trigger] rows@[k]).server_id),
            forall|a: int| 0 <= a < keys@.len() ==> server_appears(rows@, #[trigger] keys@[a]),
            forall|t: int| 0 <= t < g ==> (#[trigger] out@[t]).0 == keys@[t],
            forall|t: int|
                0 <= t < g ==> (#[trigger] out@[t]).1@ == channels_of_server(rows@, keys@[t]),
        decreases keys@.len() - g,
    {
        let sid = keys[g];
        let mut group: Vec<Channel> = Vec::new();
        let mut j: usize = 0;
        while j < n
            invariant
                n == rows@.len(),
                0 <= j <= n,
                group@ == channels_of_server(rows@.subrange(0, j as int), sid),
            decreases n - j,
        {
            proof {
                lemma_channels_of_server_push(
                    rows@.subrange(0, j as int),
                    sid,
                    rows@[j as int],
                );
                assert(rows@.subrange(0, j + 1) =~= rows@.subrange(0, j as int).push(
                    rows@[j as int],
                ));
            }
            if rows[j].server_id == sid {
                group.push(rows[j].clone());
            }
            j = j + 1;
        }
        proof {
            assert(rows@.subrange(0, n as int) =~= rows@);
        }
        out.push((sid, group));
        g = g + 1;
    }
    proof {
        assert forall|i2: int| 0 <= i2 < rows@.len() implies server_keyed(
            out@,
            (#[trigger] rows@[i2]).server_id,
        ) by {
            assert(keys@.contains(rows@[i2].server_id));
            let a = choose|a: int| 0 <= a < keys@.len() && keys@[a] == rows@[i2].server_id;
            assert(0 <= a < out@.len() && out@[a].0 == rows@[i2].server_id);
        }
    }
    out
}

/// The per-server assembly step of [`group_messages`]: the entries for the
/// channels that appear among one server's rows, each channel keyed once in
/// order of first appearance, its messages oldest first.
fn channel_entries_for(rows: &Vec<Message>, sid: ServerId) -> (inner: Vec<
    (ChannelId, Vec<Message>),
>)
    ensures
        channel_entries_grouped(rows@, sid, inner@),
{
    let n = rows.len();
    // the distinct channel ids among this server's rows
    let mut chans: Vec<ChannelId> = Vec::new();
    let mut j: usize = 0;
    while j < n
        invariant
            n == rows@.len(),
            0 <= j <= n,
            forall|a: int, b: int| 0 <= a < b < chans@.len() ==> chans@[a] != chans@[b],
            forall|k: int|
                0 <= k < j && (#[trigger] rows@[k]).server_id == sid ==> chans@.contains(
                    rows@[k].channel_id,
                ),
            forall|a: int|
                0 <= a < chans@.len() ==> msg_channel_appears_before(
                    rows@,
                    sid,
                    #[trigger] chans@[a],
                    j as int,
                ),
        decreases n - j,
    {
        let ghost chans0 = chans@;
        let is_this_server = rows[j].server_id == sid;
        if is_this_server {
            let cid = rows[j].channel_id;
            if !contains_id(&chans, cid) {
                chans.push(cid);
            }
            proof {
                lemma_fresh_key_extends(chans0, chans@, cid);
            }
        }
        proof {
            assert forall|k: int|
                0 <= k < j + 1 && (#[trigger] rows@[k]).server_id == sid implies chans@.contains(
                rows@[k].channel_id,
            ) by {
                if k < j {
                    let a = choose|a: int|
                        0 <= a < chans0.len() && chans0[a] == rows@[k].channel_id;
                    assert(chans@[a] == chans0[a]);
                    assert(chans@[a] == rows@[k].channel_id);
                }
            }
            assert forall|a: int| 0 <= a < chans@.len() implies msg_channel_appears_before(
                rows@,
                sid,
                #[trigger] chans@[a],
                j + 1,
            ) by {
                if a < chans0.len() {
                    assert(chans@[a] == chans0[a]);
                    lemma_msg_channel_appears_weaken(rows@, sid, chans@[a], j as int, j + 1);
                } else {
                    assert(chans@[a] == rows@[j as int].channel_id);
                    assert(0 <= j < j + 1 && rows@[j as int].server_id == sid
                        && rows@[j as int].channel_id == chans@[a]);
                }
            }
        }
        j = j + 1;
    }
    proof {
        assert forall|a: int| 0 <= a < chans@.len() implies msg_channel_appears(
            rows@,
            sid,
            #[trigger] chans@[a],
        ) by {
            assert(msg_channel_appears_before(rows@, sid, chans@[a], j as int));
            assert(j as int == rows@.len() as int);
        }
    }
    // one entry per keyed channel, its messages oldest first
    let mut inner: Vec<(ChannelId, Vec<Message>)> = Vec::new();
    let mut t: usize = 0;
    while t < chans.len()
        invariant
            n == rows@.len(),
            0 <= t <= chans@.len(),
            inner@.len() == t,
            forall|a: int, b: int| 0 <= a < b < chans@.len() ==> chans@[a] != chans@[b],
            forall|k: int|
                0 <= k < n && (#[trigger] rows@[k]).server_id == sid ==> chans@.contains(
                    rows@[k].channel_id,
                ),
            forall|a: int|
                0 <= a < chans@.len() ==> msg_channel_appears(rows@, sid, #[trigger] chans@[a]),
            forall|u: int| 0 <= u < t ==> (#[trigger] inner@[u]).0 == chans@[u],
            forall|u: int|
                0 <= u < t ==> (#[trigger] inner@[u]).1@ == messages_of_channel(rows@, chans@[u]),
        decreases chans@.len() - t,
    {
        let cid = chans[t];
        let mut msgs: Vec<Message> = Vec::new();
        let mut j2: usize = 0;
        while j2 < n
            invariant
                n == rows@.len(),
                0 <= j2 <= n,
                msgs@ == messages_newest_first(rows@.subrange(0, j2 as int), cid),
            decreases n - j2,
        {
            proof {
                lemma_messages_newest_first_push(
                    rows@.subrange(0, j2 as int),
                    cid,
                    rows@[j2 as int],
                );
                assert(rows@.subrange(0, j2 + 1) =~= rows@.subrange(0, j2 as int).push(
                    rows@[j2 as int],
                ));
            }
            if rows[j2].channel_id == cid {
                msgs.push(rows[j2].clone());
            }
            j2 = j2 + 1;
        }
        proof {
            assert(rows@.subrange(0, n as int) =~= rows@);
        }
        let msgs = reverse_messages(msgs);
        inner.push((cid, msgs));
        t = t + 1;
    }
    proof {
        assert forall|i2: int|
            0 <= i2 < rows@.len() && (#[trigger] rows@[i2]).server_id == sid implies channel_keyed(
            inner@,
            rows@[i2].channel_id,
        ) by {
            assert(chans@.contains(rows@[i2].channel_id));
            let a = choose|a: int| 0 <= a < chans@.len() && chans@[a] == rows@[i2].channel_id;
            assert(0 <= a < inner@.len() && inner@[a].0 == rows@[i2].channel_id);
        }
    }
    inner
}

/// Group the message rows by server and, under each server, by channel,
/// keying each exactly once; each channel entry holds that channel's
/// messages oldest first, reversing the store's newest-first fetch order.
/// This is the assembly half of the snapshot's message listing.
pub fn group_messages(rows: &Vec<Message>) -> (out: Vec<
    (ServerId, Vec<(ChannelId, Vec<Message>)>),
>)
    ensures
        messages_grouped(rows@, out@),
{
    let n = rows.len();
    // pass one: the distinct server ids, in order of first appearance
    let mut keys: Vec<ServerId> = Vec::new();
    let mut i: usize = 0;
    while i < n
        invariant
            n == rows@.len(),
            0 <= i <= n,
            forall|a: int, b: int| 0 <= a < b < keys@.len() ==> keys@[a] != keys@[b],
            forall|k: int| 0 <= k < i ==> keys@.contains((#[trigger] rows@[k]).server_id),
            forall|a: int|
                0 <= a < keys@.len() ==> msg_server_appears_before(
                    rows@,
                    #[trigger] keys@[a],
                    i as int,
                ),
        decreases n - i,
    {
        let ghost keys0 = keys@;
        let sid = rows[i].server_id;
        if !contains_id(&keys, sid) {
            keys.push(sid);
        }
        proof {
            lemma_fresh_key_extends(keys0, keys@, sid);
            assert forall|k: int| 0 <= k < i + 1 implies keys@.contains(
                (#[trigger] rows@[k]).server_id,
            ) by {
                if k < i {
                    let a = choose|a: int| 0 <= a < keys0.len() && keys0[a] == rows@[k].server_id;
                    assert(keys@[a] == rows@[k].server_id);
                }
            }
            assert forall|a: int| 0 <= a < keys@.len() implies msg_server_appears_before(
                rows@,
                #[trigger] keys@[a],
                i + 1,
            ) by {
                if a < keys0.len() {
                    assert(keys@[a] == keys0[a]);
                    lemma_msg_server_appears_weaken(rows@, keys@[a], i as int, i + 1);
                } else {
                    assert(keys@[a] == sid);
                    assert(0 <= i < i + 1 && rows@[i as int].server_id == keys@[a]);
                }
            }
        }
        i = i + 1;
    }
    proof {
        assert forall|a: int| 0 <= a < keys@.len() implies msg_server_appears(
            rows@,
            #[trigger] keys@[a],
        ) by {
            assert(msg_server_appears_before(rows@, keys@[a], i as int));
            assert(i as int == rows@.len() as int);
        }
    }
    // pass two: one entry per keyed server
    let mut out: Vec<(ServerId, Vec<(ChannelId, Vec<Message>)>)> = Vec::new();
    let mut g: usize = 0;
    while g < keys.len()
        invariant
            n == rows@.len(),
            0 <= g <= keys@.len(),
            out@.len() == g,
            forall|a: int, b: int| 0 <= a < b < keys@.len() ==> keys@[a] != keys@[b],
            forall|k: int| 0 <= k < n ==> keys@.contains((#[trigger] rows@[k]).server_id),
            forall|a: int|
                0 <= a < keys@.len() ==> msg_server_appears(rows@, #[trigger] keys@[a]),
            forall|t: int| 0 <= t < g ==> (#[trigger] out@[t]).0 == keys@[t],
            forall|t: int|
                0 <= t < g ==> channel_entries_grouped(rows@, keys@[t], (#[trigger] out@[t]).1@),
        decreases keys@.len() - g,
    {
        let sid = keys[g];
        let inner = channel_entries_for(rows, sid);
        out.push((sid, inner));
        g = g + 1;
    }
    proof {
        assert forall|i2: int| 0 <= i2 < rows@.len() implies msg_server_keyed(
            out@,
            (#[trigger] rows@[i2]).server_id,
        ) by {
            assert(keys@.contains(rows@[i2].server_id));
            let a = choose|a: int| 0 <= a < keys@.len() && keys@[a] == rows@[i2].server_id;
            assert(0 <= a < out@.len() && out@[a].0 == rows@[i2].server_id);
        }
    }
    out
}

impl Snapshot {
    /// Assemble a snapshot from the rows the store returned: users and
    /// servers as fetched, channels grouped by server, messages grouped by
    /// server and channel.
    pub fn new(
        users: Vec<User>,
        servers: Vec<Server>,
        channel_rows: Vec<Channel>,
        message_rows: Vec<Message>,
    ) -> (s: Snapshot)
        ensures
            s.users == users,
            s.servers == servers,
            channels_grouped(channel_rows@, s.channels@),
            messages_grouped(message_rows@, s.messages@),
    {
        let channels = group_channels(&channel_rows);
        let messages = group_messages(&message_rows);
        Snapshot { users, servers, channels, messages }
    }
}

} // verus!
