//! Snapshot assembly: grouping channels and messages the way the wire
//! format nests them.

use chat_core::channel::Channel;
use chat_core::message::Message;
use chat_core::server::Server;
use chat_core::snapshot::{group_channels, group_messages, Snapshot};
use chat_core::user::User;

fn channel(server_id: i32, id: i32, name: &str) -> Channel {
    Channel { server_id, id, name: name.to_string() }
}

fn message(server_id: i32, channel_id: i32, id: i64, text: &str) -> Message {
    Message { user_id: 1, channel_id, server_id, ts: 1_000 + id, id, text: text.to_string() }
}

#[test]
fn channels_are_grouped_by_server_in_fetched_order() {
    let rows = vec![
        channel(1, 10, "a"),
        channel(2, 20, "b"),
        channel(1, 11, "c"),
    ];
    let grouped = group_channels(&rows);
    assert_eq!(grouped.len(), 2);
    assert_eq!(grouped[0].0, 1);
    assert_eq!(grouped[0].1, vec![channel(1, 10, "a"), channel(1, 11, "c")]);
    assert_eq!(grouped[1].0, 2);
    assert_eq!(grouped[1].1, vec![channel(2, 20, "b")]);
}

#[test]
fn grouping_no_channels_yields_no_entries() {
    let grouped = group_channels(&Vec::new());
    assert!(grouped.is_empty());
}

#[test]
fn messages_are_grouped_by_server_then_channel_oldest_first() {
    // the store returns newest first
    let rows = vec![
        message(1, 10, 4, "latest in 10"),
        message(1, 11, 3, "only in 11"),
        message(1, 10, 2, "older in 10"),
        message(2, 20, 1, "other server"),
    ];
    let grouped = group_messages(&rows);
    assert_eq!(grouped.len(), 2);

    let (first_server, first_entries) = &grouped[0];
    assert_eq!(*first_server, 1);
    assert_eq!(first_entries.len(), 2);
    assert_eq!(first_entries[0].0, 10);
    // within a channel the order is reversed: oldest first
    assert_eq!(
        first_entries[0].1,
        vec![message(1, 10, 2, "older in 10"), message(1, 10, 4, "latest in 10")]
    );
    assert_eq!(first_entries[1].0, 11);
    assert_eq!(first_entries[1].1, vec![message(1, 11, 3, "only in 11")]);

    let (second_server, second_entries) = &grouped[1];
    assert_eq!(*second_server, 2);
    assert_eq!(second_entries.len(), 1);
    assert_eq!(second_entries[0].0, 20);
    assert_eq!(second_entries[0].1, vec![message(2, 20, 1, "other server")]);
}

#[test]
fn snapshot_keeps_users_and_servers_and_groups_the_rest() {
    let users = vec![User { id: 1, name: "ada".to_string() }];
    let servers = vec![Server { id: 1, name: "mine".to_string() }];
    let channel_rows = vec![channel(1, 10, "general")];
    let message_rows = vec![message(1, 10, 1, "hi")];
    let snapshot = Snapshot::new(users.clone(), servers.clone(), channel_rows, message_rows);
    assert_eq!(snapshot.users, users);
    assert_eq!(snapshot.servers, servers);
    assert_eq!(snapshot.channels.len(), 1);
    assert_eq!(snapshot.messages.len(), 1);
    assert_eq!(snapshot.channels[0].0, 1);
    assert_eq!(snapshot.messages[0].1[0].1[0].text, "hi");
}
