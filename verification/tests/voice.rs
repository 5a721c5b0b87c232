//! Voice signaling dispatch: fan-out, verbatim relay, presence effects.

use chat_core::bus::Bus;
use chat_core::snapshot::Update;
use chat_core::voice_signal::{handle_frame, handle_signal, VoiceSignal, VoiceState};
use chat_core::MAX_BROADCAST;

#[test]
fn join_fans_out_to_presence_update_bus_and_every_relay_subscriber() {
    let mut state = VoiceState::new();
    let mut updates: Bus<Update> = Bus::new(MAX_BROADCAST);
    let mut relay: Bus<VoiceSignal> = Bus::new(MAX_BROADCAST);
    // three concurrently connected voice handlers A, B, C
    let mut handler_a = relay.subscribe();
    let mut handler_b = relay.subscribe();
    let mut handler_c = relay.subscribe();
    let mut sse_listener = updates.subscribe();

    // A's inbound duty dispatches Join{user:1, channel:5}
    handle_signal(
        &mut state,
        &mut updates,
        &mut relay,
        VoiceSignal::Join { user_id: 1, channel_id: 5 },
    );

    // (a) the shared presence store now reads {5: {1}}
    assert!(state.contains(5, 1));
    assert!(state.has_members(5));
    assert!(!state.contains(5, 2));
    assert!(!state.has_members(6));

    // (b) every current update-bus subscriber is handed the derived event
    assert_eq!(
        updates.drain(&mut sse_listener),
        vec![Update::VoiceJoin { user_id: 1, channel_id: 5 }]
    );

    // (c) the raw Join reaches B and C — and loops back to A itself
    let expected = vec![VoiceSignal::Join { user_id: 1, channel_id: 5 }];
    assert_eq!(relay.drain(&mut handler_b), expected);
    assert_eq!(relay.drain(&mut handler_c), expected);
    assert_eq!(relay.drain(&mut handler_a), expected);
}

#[test]
fn offer_is_relayed_verbatim_with_no_side_effects() {
    let mut state = VoiceState::new();
    let mut updates: Bus<Update> = Bus::new(MAX_BROADCAST);
    let mut relay: Bus<VoiceSignal> = Bus::new(MAX_BROADCAST);
    let mut handler_a = relay.subscribe();
    let mut handler_b = relay.subscribe();
    let mut handler_c = relay.subscribe();
    let mut sse_listener = updates.subscribe();

    let offer = VoiceSignal::Offer { from: 1, to: 2, channel_id: 5, sdp: "x".to_string() };
    handle_signal(&mut state, &mut updates, &mut relay, offer);

    // every connected handler receives the identical payload
    let expected = vec![VoiceSignal::Offer { from: 1, to: 2, channel_id: 5, sdp: "x".to_string() }];
    assert_eq!(relay.drain(&mut handler_a), expected);
    assert_eq!(relay.drain(&mut handler_b), expected);
    assert_eq!(relay.drain(&mut handler_c), expected);

    // neither the presence store nor the update bus was touched
    assert!(!state.has_members(5));
    assert!(updates.drain(&mut sse_listener).is_empty());
}

#[test]
fn answer_and_ice_candidate_are_relayed_verbatim() {
    let mut state = VoiceState::new();
    let mut updates: Bus<Update> = Bus::new(MAX_BROADCAST);
    let mut relay: Bus<VoiceSignal> = Bus::new(MAX_BROADCAST);
    let mut handler = relay.subscribe();
    let mut sse_listener = updates.subscribe();

    let answer = VoiceSignal::Answer { from: 2, to: 1, channel_id: 5, sdp: "a".to_string() };
    let ice = VoiceSignal::IceCandidate {
        from: 1,
        to: 2,
        channel_id: 5,
        candidate: "c".to_string(),
    };
    handle_signal(&mut state, &mut updates, &mut relay, answer);
    handle_signal(&mut state, &mut updates, &mut relay, ice);

    assert_eq!(
        relay.drain(&mut handler),
        vec![
            VoiceSignal::Answer { from: 2, to: 1, channel_id: 5, sdp: "a".to_string() },
            VoiceSignal::IceCandidate {
                from: 1,
                to: 2,
                channel_id: 5,
                candidate: "c".to_string(),
            },
        ]
    );
    assert!(!state.has_members(5));
    assert!(updates.drain(&mut sse_listener).is_empty());
}

#[test]
fn join_then_leave_restores_presence_and_emits_both_updates_in_order() {
    let mut state = VoiceState::new();
    let mut updates: Bus<Update> = Bus::new(MAX_BROADCAST);
    let mut relay: Bus<VoiceSignal> = Bus::new(MAX_BROADCAST);
    let mut sse_listener = updates.subscribe();

    handle_signal(
        &mut state,
        &mut updates,
        &mut relay,
        VoiceSignal::Join { user_id: 1, channel_id: 5 },
    );
    handle_signal(
        &mut state,
        &mut updates,
        &mut relay,
        VoiceSignal::Leave { user_id: 1, channel_id: 5 },
    );

    // the presence store is back to its pre-join state: no leaked entries
    assert!(!state.contains(5, 1));
    assert!(!state.has_members(5));

    // the update bus observes the join immediately followed by the leave
    assert_eq!(
        updates.drain(&mut sse_listener),
        vec![
            Update::VoiceJoin { user_id: 1, channel_id: 5 },
            Update::VoiceLeave { user_id: 1, channel_id: 5 },
        ]
    );
}

#[test]
fn disconnect_without_leave_keeps_stale_presence() {
    let mut state = VoiceState::new();
    let mut updates: Bus<Update> = Bus::new(MAX_BROADCAST);
    let mut relay: Bus<VoiceSignal> = Bus::new(MAX_BROADCAST);
    let handler_sub = relay.subscribe();

    handle_signal(
        &mut state,
        &mut updates,
        &mut relay,
        VoiceSignal::Join { user_id: 1, channel_id: 5 },
    );
    // the connection drops without an explicit Leave: its subscription goes
    // away, but nothing touches the presence store
    drop(handler_sub);

    // documented limitation: the stale membership persists
    assert!(state.contains(5, 1));
    assert!(state.has_members(5));
}

#[test]
fn malformed_frame_is_discarded_without_any_effect() {
    let mut state = VoiceState::new();
    let mut updates: Bus<Update> = Bus::new(MAX_BROADCAST);
    let mut relay: Bus<VoiceSignal> = Bus::new(MAX_BROADCAST);
    let mut handler = relay.subscribe();
    let mut sse_listener = updates.subscribe();

    // a frame that did not parse reaches the dispatcher as None
    handle_frame(&mut state, &mut updates, &mut relay, None);

    assert!(!state.has_members(5));
    assert!(updates.drain(&mut sse_listener).is_empty());
    assert!(relay.drain(&mut handler).is_empty());
}

#[test]
fn parsed_frame_is_dispatched_like_the_signal_itself() {
    let mut state = VoiceState::new();
    let mut updates: Bus<Update> = Bus::new(MAX_BROADCAST);
    let mut relay: Bus<VoiceSignal> = Bus::new(MAX_BROADCAST);
    let mut handler = relay.subscribe();

    handle_frame(
        &mut state,
        &mut updates,
        &mut relay,
        Some(VoiceSignal::Join { user_id: 3, channel_id: 7 }),
    );

    assert!(state.contains(7, 3));
    assert_eq!(
        relay.drain(&mut handler),
        vec![VoiceSignal::Join { user_id: 3, channel_id: 7 }]
    );
}
