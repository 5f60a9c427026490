use scene_core::comms::{
    decide_realm_comms, split_descriptor, Adapter, AdapterAction, ChatData,
    CommunicationManager, OfflineAdapter, Packet, PacketMessage, RealmCommsDecision,
    SignedLoginPollStatus, UserProfile,
};

/// A transport that accepts everything and records how much it saw.
struct CountingAdapter {
    sent: usize,
    alive: bool,
}

impl Adapter for CountingAdapter {
    fn poll(&mut self) -> bool {
        self.alive
    }

    fn clean(&mut self) {
        self.alive = false;
    }

    fn consume_chats(&mut self) -> Vec<(String, String, ChatData)> {
        vec![(
            String::from("0xabc"),
            String::from("alice"),
            ChatData { message: String::from("hi"), timestamp_ms: 1 },
        )]
    }

    fn change_profile(&mut self, _new_profile: UserProfile) {}

    fn send_rfc4(&mut self, _packet: Packet, _unreliable: bool) -> bool {
        self.sent += 1;
        true
    }

    fn broadcast_voice(&mut self, _frame: Vec<i16>) {}

    fn support_voice_chat(&self) -> bool {
        false
    }
}

#[test]
fn descriptor_splits_at_the_first_colon() {
    let parts = split_descriptor(&String::from("ws-room:wss://host/room:7")).expect("has colon");
    assert_eq!(parts.0, "ws-room");
    assert_eq!(parts.1, "wss://host/room:7");
    assert!(split_descriptor(&String::from("no colon here")).is_none());
}

#[test]
fn unrecognised_descriptor_changes_nothing() {
    let mut manager: CommunicationManager<OfflineAdapter> = CommunicationManager::new();
    let action =
        manager.change_adapter(String::from("garbage"), true, &String::from("http://realm"));
    assert!(matches!(action, AdapterAction::UnrecognisedDescriptor));
    assert_eq!(manager.get_current_adapter_conn_str(), "");
}

#[test]
fn descriptor_waits_for_identity() {
    let mut manager: CommunicationManager<OfflineAdapter> = CommunicationManager::new();
    let action =
        manager.change_adapter(String::from("ws-room:addr"), false, &String::from("http://realm"));
    assert!(matches!(action, AdapterAction::WaitIdentity));
    assert_eq!(manager.on_identity_connected().expect("waiting"), "ws-room:addr");
}

#[test]
fn socket_room_and_media_room_are_host_built() {
    let mut manager: CommunicationManager<OfflineAdapter> = CommunicationManager::new();
    match manager.change_adapter(String::from("ws-room:addr"), true, &String::from("http://r")) {
        AdapterAction::ConnectSocketRoom(address) => assert_eq!(address, "addr"),
        other => panic!("expected a socket-room connect, got {:?}", other),
    }
    assert_eq!(manager.get_current_adapter_conn_str(), "ws-room:addr");
    match manager.change_adapter(String::from("livekit:room-7"), true, &String::from("http://r")) {
        AdapterAction::ConnectMediaRoom(address) => assert_eq!(address, "room-7"),
        other => panic!("expected a media-room connect, got {:?}", other),
    }
}

#[test]
fn offline_and_unknown_protocols() {
    let mut manager: CommunicationManager<OfflineAdapter> = CommunicationManager::new();
    assert!(matches!(
        manager.change_adapter(String::from("offline:"), true, &String::from("http://r")),
        AdapterAction::SetOffline,
    ));
    match manager.change_adapter(String::from("carrier-pigeon:x"), true, &String::from("http://r"))
    {
        AdapterAction::UnknownProtocol(protocol) => assert_eq!(protocol, "carrier-pigeon"),
        other => panic!("expected an unknown protocol, got {:?}", other),
    }
}

#[test]
fn signed_login_validates_both_uris() {
    let mut manager: CommunicationManager<OfflineAdapter> = CommunicationManager::new();
    let action = manager.change_adapter(
        String::from("signed-login:https://login.test/start"),
        true,
        &String::from("https://realm.test"),
    );
    assert!(matches!(action, AdapterAction::BeginSignedLogin));
    // A login address that is no URI is rejected.
    let mut manager: CommunicationManager<OfflineAdapter> = CommunicationManager::new();
    let action = manager.change_adapter(
        String::from("signed-login:not a uri at all"),
        true,
        &String::from("https://realm.test"),
    );
    assert!(matches!(action, AdapterAction::InvalidUri));
}

#[test]
fn signed_login_poll_completion_picks_the_fixed_adapter_or_offline() {
    let mut manager: CommunicationManager<OfflineAdapter> = CommunicationManager::new();
    assert!(manager.on_signed_login_poll(SignedLoginPollStatus::Pending).is_none());
    assert_eq!(
        manager
            .on_signed_login_poll(SignedLoginPollStatus::Complete(Some(String::from(
                "ws-room:a"
            ))))
            .expect("complete"),
        "ws-room:a",
    );
    assert_eq!(
        manager
            .on_signed_login_poll(SignedLoginPollStatus::Complete(None))
            .expect("complete without a fixed adapter"),
        "offline",
    );
    assert!(manager
        .on_signed_login_poll(SignedLoginPollStatus::Error(String::from("denied")))
        .is_none());
}

#[test]
fn position_broadcast_advances_the_index_only_when_sent() {
    let mut manager: CommunicationManager<CountingAdapter> = CommunicationManager::new();
    // Not connected: nothing sent, index unchanged.
    assert!(!manager.broadcast_position_and_rotation([1, 2, 3], [0, 0, 0, 1000]));
    manager.set_connected(CountingAdapter { sent: 0, alive: true });
    assert!(manager.broadcast_position_and_rotation([1, 2, 3], [0, 0, 0, 1000]));
    assert!(manager.broadcast_position_and_rotation([4, 5, 6], [0, 0, 0, 1000]));
    // The packet carries the pre-increment index; the third broadcast sees 2.
    let packet = manager.position_packet([0, 0, 0], [0, 0, 0, 1000]);
    match packet.message {
        Some(PacketMessage::Position(p)) => {
            assert_eq!(p.index, 2);
            assert_eq!(p.position_mm, [0, 0, 0]);
            assert_eq!(p.rotation_milli, [0, 0, 0, -1000]);
        },
        other => panic!("expected a position packet, got {:?}", other),
    }
}

#[test]
fn chat_needs_a_connection() {
    let mut manager: CommunicationManager<CountingAdapter> = CommunicationManager::new();
    assert!(!manager.send_chat(String::from("anyone there?")));
    manager.set_connected(CountingAdapter { sent: 0, alive: true });
    assert!(manager.send_chat(String::from("hello")));
}

#[test]
fn a_dead_transport_disconnects_on_poll() {
    let mut manager: CommunicationManager<CountingAdapter> = CommunicationManager::new();
    manager.set_connected(CountingAdapter { sent: 0, alive: false });
    let (polling_ok, chats) = manager.process();
    assert!(!polling_ok);
    assert_eq!(chats.len(), 1);
    assert_eq!(chats[0].2.message, "hi");
    // The transport reported itself gone: further sends fail.
    assert!(!manager.send_chat(String::from("lost")));
}

#[test]
fn a_live_transport_stays_connected_across_polls() {
    let mut manager: CommunicationManager<CountingAdapter> = CommunicationManager::new();
    // Disconnected: a poll does nothing.
    let (polling_ok, chats) = manager.process();
    assert!(polling_ok);
    assert!(chats.is_empty());
    manager.set_connected(CountingAdapter { sent: 0, alive: true });
    let (polling_ok, chats) = manager.process();
    assert!(polling_ok);
    assert_eq!(chats.len(), 1);
    assert!(manager.send_chat(String::from("still here")));
}

#[test]
fn chat_packet_carries_the_text_at_timestamp_zero() {
    let packet = CommunicationManager::<CountingAdapter>::chat_packet(String::from("hello"));
    match packet.message {
        Some(PacketMessage::Chat(chat)) => {
            assert_eq!(chat.message, "hello");
            assert_eq!(chat.timestamp_ms, 0);
        },
        other => panic!("expected a chat packet, got {:?}", other),
    }
}

#[test]
fn disconnect_cleans_and_reports_the_sign_out_choice() {
    let mut manager: CommunicationManager<CountingAdapter> = CommunicationManager::new();
    manager.set_connected(CountingAdapter { sent: 0, alive: true });
    assert!(manager.disconnect(true));
    assert_eq!(manager.get_current_adapter_conn_str(), "");
    assert!(!manager.send_chat(String::from("gone")));
    let mut manager: CommunicationManager<CountingAdapter> = CommunicationManager::new();
    assert!(!manager.disconnect(false));
}

#[test]
fn offline_adapter_moves_nothing() {
    let mut offline = OfflineAdapter;
    assert!(offline.poll());
    assert!(!offline.support_voice_chat());
    assert!(!offline.send_rfc4(Packet { message: None }, true));
    assert!(offline.consume_chats().is_empty());
}

#[test]
fn realm_comms_decisions() {
    assert!(matches!(decide_realm_comms(None), RealmCommsDecision::Invalid));
    assert!(matches!(
        decide_realm_comms(Some((String::from("v2"), Some(String::from("ws-room:a"))))),
        RealmCommsDecision::UnsupportedProtocol,
    ));
    assert!(matches!(
        decide_realm_comms(Some((String::from("v3"), None))),
        RealmCommsDecision::NoFixedAdapter,
    ));
    match decide_realm_comms(Some((String::from("v3"), Some(String::from("ws-room:a"))))) {
        RealmCommsDecision::Change(descriptor) => assert_eq!(descriptor, "ws-room:a"),
        other => panic!("expected a change, got {:?}", other),
    }
}
