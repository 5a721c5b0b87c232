//! Record validation, reference checks, error mapping and update fan-out of
//! the request handlers.

use chat_core::bus::Bus;
use chat_core::channel::{publish_channel_created, Channel, CHANNEL_NAME_MAX_LEN};
use chat_core::error::ServerErr;
use chat_core::message::{publish_message_created, Message, MESSAGE_MAX_LEN};
use chat_core::server::{publish_server_created, Server, SERVER_NAME_MAX_LEN};
use chat_core::snapshot::Update;
use chat_core::typing::{typing, Typing, TypingParams};
use chat_core::user::{publish_user_created, User, USERNAME_MAX_LEN};
use chat_core::MAX_BROADCAST;

#[test]
fn username_at_the_limit_is_accepted() {
    let name = "a".repeat(USERNAME_MAX_LEN);
    assert!(User::validate_name(&name).is_ok());
}

#[test]
fn username_over_the_limit_is_rejected_with_its_size() {
    let name = "a".repeat(USERNAME_MAX_LEN + 1);
    match User::validate_name(&name) {
        Err(ServerErr::UsernameTooLong(size)) => assert_eq!(size, USERNAME_MAX_LEN + 1),
        _ => panic!("expected the name to be rejected"),
    }
}

#[test]
fn username_limit_counts_bytes_not_characters() {
    // seventeen two-byte characters: 17 characters, 34 bytes
    let name = "\u{e9}".repeat(17);
    match User::validate_name(&name) {
        Err(ServerErr::UsernameTooLong(size)) => assert_eq!(size, 34),
        _ => panic!("expected the name to be rejected"),
    }
}

#[test]
fn server_name_validation_mirrors_the_limit() {
    assert!(Server::validate_name(&"s".repeat(SERVER_NAME_MAX_LEN)).is_ok());
    match Server::validate_name(&"s".repeat(SERVER_NAME_MAX_LEN + 1)) {
        Err(ServerErr::ServerNameTooLong(size)) => assert_eq!(size, SERVER_NAME_MAX_LEN + 1),
        _ => panic!("expected the name to be rejected"),
    }
}

#[test]
fn channel_name_validation_mirrors_the_limit() {
    assert!(Channel::validate_name(&"c".repeat(CHANNEL_NAME_MAX_LEN)).is_ok());
    match Channel::validate_name(&"c".repeat(CHANNEL_NAME_MAX_LEN + 1)) {
        Err(ServerErr::ChannelNameTooLong(size)) => assert_eq!(size, CHANNEL_NAME_MAX_LEN + 1),
        _ => panic!("expected the name to be rejected"),
    }
}

#[test]
fn message_text_validation_mirrors_the_limit() {
    assert!(Message::validate_text(&"m".repeat(MESSAGE_MAX_LEN)).is_ok());
    match Message::validate_text(&"m".repeat(MESSAGE_MAX_LEN + 1)) {
        Err(ServerErr::MessageTooLong(size)) => assert_eq!(size, MESSAGE_MAX_LEN + 1),
        _ => panic!("expected the text to be rejected"),
    }
}

#[test]
fn message_reference_checks_report_the_first_missing_record() {
    assert!(matches!(
        Message::check_refs(false, true, true, 7, 8, 9),
        Err(ServerErr::NoUserId(7))
    ));
    assert!(matches!(
        Message::check_refs(true, false, true, 7, 8, 9),
        Err(ServerErr::NoChannelId(8))
    ));
    assert!(matches!(
        Message::check_refs(true, true, false, 7, 8, 9),
        Err(ServerErr::NoServerId(9))
    ));
    assert!(matches!(
        Message::check_refs(false, false, false, 7, 8, 9),
        Err(ServerErr::NoUserId(7))
    ));
    assert!(Message::check_refs(true, true, true, 7, 8, 9).is_ok());
}

#[test]
fn channel_creation_requires_an_existing_server() {
    assert!(matches!(
        Channel::check_server_ref(false, 4),
        Err(ServerErr::NoServerId(4))
    ));
    assert!(Channel::check_server_ref(true, 4).is_ok());
}

#[test]
fn bad_request_errors_are_told_apart_from_internal_ones() {
    assert!(ServerErr::NoServerId(1).is_bad_request());
    assert!(ServerErr::NoChannelId(1).is_bad_request());
    assert!(ServerErr::NoUserId(1).is_bad_request());
    assert!(ServerErr::NoMessageId(1).is_bad_request());
    assert!(ServerErr::BadRequest("nope".to_string()).is_bad_request());
    assert!(!ServerErr::UsernameTooLong(40).is_bad_request());
    assert!(!ServerErr::MessageTooLong(600).is_bad_request());
    assert!(!ServerErr::ChannelNameTooLong(40).is_bad_request());
    assert!(!ServerErr::ServerNameTooLong(40).is_bad_request());
}

#[test]
fn created_records_are_broadcast_as_update_events() {
    let mut bus: Bus<Update> = Bus::new(MAX_BROADCAST);
    let mut sub = bus.subscribe();
    publish_user_created(&mut bus, User { id: 1, name: "ada".to_string() });
    publish_channel_created(
        &mut bus,
        Channel { server_id: 2, id: 3, name: "general".to_string() },
    );
    publish_message_created(
        &mut bus,
        Message {
            user_id: 1,
            channel_id: 3,
            server_id: 2,
            ts: 1_700_000_000_000,
            id: 10,
            text: "hi".to_string(),
        },
    );
    let got = bus.drain(&mut sub);
    assert_eq!(got.len(), 3);
    assert_eq!(got[0], Update::User(User { id: 1, name: "ada".to_string() }));
    assert_eq!(
        got[1],
        Update::Channel(Channel { server_id: 2, id: 3, name: "general".to_string() })
    );
    assert!(matches!(&got[2], Update::Message(m) if m.id == 10 && m.text == "hi"));
}

#[test]
fn a_new_server_is_broadcast_with_its_first_channel_server_first() {
    let mut bus: Bus<Update> = Bus::new(MAX_BROADCAST);
    let mut sub = bus.subscribe();
    publish_server_created(
        &mut bus,
        Server { id: 2, name: "mine".to_string() },
        Channel { server_id: 2, id: 3, name: "Home".to_string() },
    );
    let got = bus.drain(&mut sub);
    assert_eq!(
        got,
        vec![
            Update::Server(Server { id: 2, name: "mine".to_string() }),
            Update::Channel(Channel { server_id: 2, id: 3, name: "Home".to_string() }),
        ]
    );
}

#[test]
fn typing_request_maps_to_start_or_stop() {
    let mut bus: Bus<Update> = Bus::new(MAX_BROADCAST);
    let mut sub = bus.subscribe();
    typing(&mut bus, TypingParams { typing: true, user_id: 4 });
    typing(&mut bus, TypingParams { typing: false, user_id: 4 });
    assert_eq!(
        bus.drain(&mut sub),
        vec![
            Update::Typing(Typing::Start(4)),
            Update::Typing(Typing::Stop(4)),
        ]
    );
}
