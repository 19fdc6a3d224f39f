use speech2prompt_desktop::ble_constants::StatusCode;
use speech2prompt_desktop::connection::{
    message_text, ConnectionEvent, ConnectionState, DropReason, PairingError, Reaction,
    ServerState,
};
use speech2prompt_desktop::crypto::{CryptoContext, CryptoError};
use speech2prompt_desktop::ecdh::{EcdhKeypair, KeyExchangeError};
use speech2prompt_desktop::protocol::{
    Message, MessageError, MessageType, PairRequestPayload, PairStatus, WordPayload,
};
use speech2prompt_desktop::reassembler::{chunk_message, MessageReassembler};

struct Phone {
    keypair: Option<EcdhKeypair>,
    public_key: String,
}

fn phone() -> Phone {
    let keypair = EcdhKeypair::generate().expect("random bytes");
    let public_key = keypair.public_key_base64();
    Phone { keypair: Some(keypair), public_key }
}

fn paired() -> (ServerState, CryptoContext) {
    let mut state = ServerState::new();
    let mut phone = phone();
    let request = PairRequestPayload::new("android-1").with_name("Pixel").with_public_key(&phone.public_key);
    state.on_pair_request(request, 10);
    let approved = state.approve_pairing("linux-1").unwrap();
    let desktop_key = approved.ack.public_key.unwrap();
    let shared = phone.keypair.take().unwrap().compute_shared_secret_base64(&desktop_key).unwrap();
    (state, CryptoContext::from_ecdh(&shared, "android-1", "linux-1"))
}

#[test]
fn test_fresh_connection() {
    let state = ServerState::new();
    assert_eq!(state.state(), ConnectionState::AwaitingPair);
    assert_eq!(state.status_code(), StatusCode::Idle);
    assert_eq!(state.negotiated_mtu(), 23);
    assert!(!state.has_pending_pairing());
}

#[test]
fn test_packets_reassemble_and_mtu_only_grows() {
    let mut state = ServerState::new();
    let packets = chunk_message(b"{\"v\":3}\n and some more bytes to fill packets", 23);
    assert!(packets.len() > 1);
    let mut complete = None;
    for (i, packet) in packets.iter().enumerate() {
        let mtu = if i == 0 { 185 } else { 100 };
        if let Some(bytes) = state.on_packet(packet, mtu) {
            complete = Some(bytes);
        }
    }
    assert_eq!(complete, Some(b"{\"v\":3}\n and some more bytes to fill packets".to_vec()));
    assert_eq!(state.negotiated_mtu(), 185);
    assert!(state.on_packet(&[0x04, 0x00, 1], 20).is_none());
    assert_eq!(state.negotiated_mtu(), 185);
}

#[test]
fn test_sensitive_messages_before_pairing_are_dropped() {
    let state = ServerState::new();
    for kind in [MessageType::Text, MessageType::Word, MessageType::Command] {
        match state.on_message(Message::at(kind, "x", 1)) {
            Reaction::Drop(DropReason::NotAuthenticated) => {}
            other => panic!("unexpected {:?}", other),
        }
    }
    assert_eq!(state.state(), ConnectionState::AwaitingPair);
}

#[test]
fn test_heartbeat_is_acknowledged_in_every_state() {
    let mut state = ServerState::new();
    match state.on_message(Message::at(MessageType::Heartbeat, "", 77)) {
        Reaction::Acknowledge { acknowledge } => assert_eq!(acknowledge, 77),
        other => panic!("unexpected {:?}", other),
    }
    let ack = state.acknowledgment(77);
    assert_eq!(ack.message_type, MessageType::Ack);
    assert_eq!(ack.payload, "77");
    assert_eq!(ack.checksum, "");

    let (paired_state, ctx) = paired();
    match paired_state.on_message(Message::at(MessageType::Heartbeat, "", 78)) {
        Reaction::Acknowledge { acknowledge } => assert_eq!(acknowledge, 78),
        other => panic!("unexpected {:?}", other),
    }
    let signed = paired_state.acknowledgment(78);
    assert_eq!(signed.payload, "78");
    assert!(signed.verify(&ctx));

    state.on_disconnect();
    match state.on_message(Message::at(MessageType::Heartbeat, "", 79)) {
        Reaction::Acknowledge { acknowledge } => assert_eq!(acknowledge, 79),
        other => panic!("unexpected {:?}", other),
    }
}

#[test]
fn test_ack_and_pair_ack_are_ignored() {
    let state = ServerState::new();
    for kind in [MessageType::Ack, MessageType::PairAck] {
        match state.on_message(Message::at(kind, "1", 1)) {
            Reaction::Drop(DropReason::Ignored) => {}
            other => panic!("unexpected {:?}", other),
        }
    }
}

#[test]
fn test_pair_request_is_kept_reported_and_acknowledged() {
    let mut state = ServerState::new();
    match state.on_message(Message::at(MessageType::PairReq, "{json}", 5)) {
        Reaction::DecodePairRequest { payload, timestamp } => {
            assert_eq!(payload, "{json}");
            assert_eq!(timestamp, 5);
        }
        other => panic!("unexpected {:?}", other),
    }
    let phone = phone();
    let request = PairRequestPayload::new("android-1").with_name("Pixel").with_public_key(&phone.public_key);
    match state.on_pair_request(request, 5) {
        Reaction::Deliver { event: ConnectionEvent::PairRequested { device_id, device_name }, acknowledge } => {
            assert_eq!(device_id, "android-1");
            assert_eq!(device_name, Some("Pixel".to_string()));
            assert_eq!(acknowledge, 5);
        }
        other => panic!("unexpected {:?}", other),
    }
    assert!(state.has_pending_pairing());
    assert_eq!(state.status_code(), StatusCode::AwaitingPairing);
    assert_eq!(state.state(), ConnectionState::AwaitingPair);
}

#[test]
fn test_pair_request_without_key_is_dropped() {
    let mut state = ServerState::new();
    match state.on_pair_request(PairRequestPayload::new("android-1"), 5) {
        Reaction::Drop(DropReason::MissingPublicKey) => {}
        other => panic!("unexpected {:?}", other),
    }
    assert!(!state.has_pending_pairing());
    assert_eq!(state.status_code(), StatusCode::Idle);
    assert_eq!(state.approve_pairing("linux-1").unwrap_err(), PairingError::NoPendingPairing);
}

#[test]
fn test_approval_authenticates_and_both_sides_share_the_key() {
    let (state, ctx) = paired();
    assert_eq!(state.state(), ConnectionState::Authenticated);
    assert_eq!(state.status_code(), StatusCode::Paired);
    assert!(!state.has_pending_pairing());

    let mut from_phone = Message::at(MessageType::Text, "hello desktop", 100);
    from_phone.sign_and_encrypt(&ctx).unwrap();
    match state.on_message(from_phone) {
        Reaction::Deliver { event: ConnectionEvent::TextReceived(text), acknowledge } => {
            assert_eq!(text, "hello desktop");
            assert_eq!(acknowledge, 100);
        }
        other => panic!("unexpected {:?}", other),
    }

    let mut command = Message::at(MessageType::Command, "ENTER", 101);
    command.sign_and_encrypt(&ctx).unwrap();
    match state.on_message(command) {
        Reaction::Deliver { event: ConnectionEvent::CommandReceived(code), acknowledge } => {
            assert_eq!(code, "ENTER");
            assert_eq!(acknowledge, 101);
        }
        other => panic!("unexpected {:?}", other),
    }

    let mut word = Message::at(MessageType::Word, "{\"word\":\"hi\"}", 102);
    word.sign_and_encrypt(&ctx).unwrap();
    match state.on_message(word) {
        Reaction::DecodeWord { payload, timestamp } => {
            assert_eq!(payload, "{\"word\":\"hi\"}");
            assert_eq!(timestamp, 102);
        }
        other => panic!("unexpected {:?}", other),
    }
}

#[test]
fn test_approval_result() {
    let mut state = ServerState::new();
    let phone = phone();
    state.on_pair_request(PairRequestPayload::new("android-7").with_public_key(&phone.public_key), 1);
    let approved = state.approve_pairing("linux-9").unwrap();
    assert_eq!(approved.status, StatusCode::Paired);
    assert_eq!(approved.ack.device_id, "linux-9");
    assert_eq!(approved.ack.status, PairStatus::Success);
    assert_eq!(approved.ack.error, None);
    assert_eq!(approved.ack.protocol_version, Some(3));
    assert_eq!(approved.ack.public_key.as_ref().unwrap().len(), 44);
    match approved.event {
        ConnectionEvent::Connected { device_name } => assert_eq!(device_name, "android-7"),
        other => panic!("unexpected {:?}", other),
    }
    assert_eq!(state.approve_pairing("linux-9").unwrap_err(), PairingError::NoPendingPairing);
    assert_eq!(state.state(), ConnectionState::Authenticated);
}

#[test]
fn test_tampered_and_foreign_messages_are_rejected() {
    let (state, ctx) = paired();
    let mut tampered = Message::at(MessageType::Text, "hello", 100);
    tampered.sign_and_encrypt(&ctx).unwrap();
    tampered.timestamp = 101;
    match state.on_message(tampered) {
        Reaction::Drop(DropReason::Rejected(MessageError::ChecksumMismatch)) => {}
        other => panic!("unexpected {:?}", other),
    }
    let mut foreign = Message::at(MessageType::Text, "hello", 100);
    foreign.sign_and_encrypt(&CryptoContext::new([1u8; 32])).unwrap();
    match state.on_message(foreign) {
        Reaction::Drop(DropReason::Rejected(MessageError::ChecksumMismatch)) => {}
        other => panic!("unexpected {:?}", other),
    }
    let mut clear = Message::at(MessageType::Command, "ENTER", 100);
    clear.sign(&ctx);
    match state.on_message(clear) {
        Reaction::Drop(DropReason::Rejected(MessageError::Decrypt(CryptoError::Base64DecodeFailed))) => {}
        other => panic!("unexpected {:?}", other),
    }
    assert_eq!(state.state(), ConnectionState::Authenticated);
}

#[test]
fn test_second_pair_request_supersedes_first() {
    let mut state = ServerState::new();
    let first = phone();
    let mut second = phone();
    state.on_pair_request(PairRequestPayload::new("android-a").with_public_key(&first.public_key), 1);
    state.on_pair_request(
        PairRequestPayload::new("android-b").with_name("Second").with_public_key(&second.public_key),
        2,
    );
    let approved = state.approve_pairing("linux-1").unwrap();
    match approved.event {
        ConnectionEvent::Connected { device_name } => assert_eq!(device_name, "Second"),
        other => panic!("unexpected {:?}", other),
    }
    let desktop_key = approved.ack.public_key.unwrap();
    let shared = second.keypair.take().unwrap().compute_shared_secret_base64(&desktop_key).unwrap();
    let ctx = CryptoContext::from_ecdh(&shared, "android-b", "linux-1");
    assert!(state.acknowledgment(3).verify(&ctx));
}

#[test]
fn test_approval_with_bad_key_fails_and_uses_request_up() {
    let mut state = ServerState::new();
    state.on_pair_request(PairRequestPayload::new("android-1").with_public_key("not base64"), 1);
    assert!(state.has_pending_pairing());
    assert_eq!(
        state.approve_pairing("linux-1").unwrap_err(),
        PairingError::KeyExchange(KeyExchangeError::InvalidBase64)
    );
    assert!(!state.has_pending_pairing());
    assert_eq!(state.state(), ConnectionState::AwaitingPair);

    state.on_pair_request(PairRequestPayload::new("android-1").with_public_key("AAECAwQF"), 2);
    assert_eq!(
        state.approve_pairing("linux-1").unwrap_err(),
        PairingError::KeyExchange(KeyExchangeError::InvalidKeySize)
    );
    assert_eq!(state.state(), ConnectionState::AwaitingPair);
}

#[test]
fn test_rejection_clears_pending_and_answers_with_error() {
    let mut state = ServerState::new();
    let phone = phone();
    state.on_pair_request(PairRequestPayload::new("android-1").with_public_key(&phone.public_key), 1);
    let ack = state.reject_pairing("linux-1", "User rejected");
    assert_eq!(ack.device_id, "linux-1");
    assert_eq!(ack.status, PairStatus::Error);
    assert_eq!(ack.error, Some("User rejected".to_string()));
    assert_eq!(ack.public_key, None);
    assert!(!state.has_pending_pairing());
    assert_eq!(state.state(), ConnectionState::AwaitingPair);
    assert_eq!(state.approve_pairing("linux-1").unwrap_err(), PairingError::NoPendingPairing);
    let unsigned = state.outgoing(Message::at(MessageType::PairAck, "{}", 4)).unwrap();
    assert_eq!(unsigned.payload, "{}");
    assert_eq!(unsigned.checksum, "");
}

#[test]
fn test_disconnect_is_final_and_drops_key() {
    let (mut state, ctx) = paired();
    match state.on_disconnect() {
        ConnectionEvent::Disconnected => {}
        other => panic!("unexpected {:?}", other),
    }
    assert_eq!(state.state(), ConnectionState::Disconnected);
    assert_eq!(state.status_code(), StatusCode::Idle);
    let mut text = Message::at(MessageType::Text, "late", 1);
    text.sign_and_encrypt(&ctx).unwrap();
    match state.on_message(text) {
        Reaction::Drop(DropReason::NotAuthenticated) => {}
        other => panic!("unexpected {:?}", other),
    }
    assert_eq!(state.acknowledgment(1).checksum, "");
}

#[test]
fn test_outgoing_messages_are_protected_once_paired() {
    let (state, ctx) = paired();
    let mut out = state.outgoing(Message::at(MessageType::Text, "to phone", 9)).unwrap();
    assert_ne!(out.payload, "to phone");
    out.verify_and_decrypt(&ctx).unwrap();
    assert_eq!(out.payload, "to phone");
    let ack = state.outgoing(Message::ack(9)).unwrap();
    assert_eq!(ack.payload, "9");
    assert!(ack.verify(&ctx));
    let pair_ack = state.pair_ack_message("{\"status\":\"ok\"}");
    assert_eq!(pair_ack.message_type, MessageType::PairAck);
    assert_eq!(pair_ack.payload, "{\"status\":\"ok\"}");
    assert!(pair_ack.verify(&ctx));
}

#[test]
fn test_frame_uses_negotiated_mtu() {
    let mut state = ServerState::new();
    let encoded = vec![b'x'; 300];
    assert_eq!(state.frame(&encoded), chunk_message(&encoded, 23));
    state.on_packet(&[0x00], 512);
    let packets = state.frame(&encoded);
    assert_eq!(packets.len(), 1);
    assert_eq!(packets, chunk_message(&encoded, 512));
    let mut reassembler = MessageReassembler::new();
    assert_eq!(reassembler.process_packet(&packets[0]), Some(encoded));
}

#[test]
fn test_word_payload_becomes_event() {
    let state = ServerState::new();
    let payload = WordPayload {
        word: "hello".to_string(),
        seq: Some(4),
        session: "s1".to_string(),
        timestamp: None,
    };
    match state.on_word(Some(payload), 8) {
        Reaction::Deliver { event: ConnectionEvent::WordReceived { word, seq, session }, acknowledge } => {
            assert_eq!(word, "hello");
            assert_eq!(seq, Some(4));
            assert_eq!(session, "s1");
            assert_eq!(acknowledge, 8);
        }
        other => panic!("unexpected {:?}", other),
    }
    match state.on_word(None, 8) {
        Reaction::Drop(DropReason::MalformedPayload) => {}
        other => panic!("unexpected {:?}", other),
    }
}

#[test]
fn test_message_text_needs_utf8() {
    assert_eq!(message_text(b"{\"p\":\"\xc5\xa1mach\"}".to_vec()), Some("{\"p\":\"šmach\"}".to_string()));
    assert_eq!(message_text(Vec::new()), Some(String::new()));
    assert_eq!(message_text(vec![0xff, 0xfe]), None);
    assert_eq!(message_text(vec![b'a', 0xc5]), None);
    assert_eq!(message_text(vec![0xed, 0xa0, 0x80]), None);
}

#[test]
fn test_pin_pairing_authenticates() {
    let mut state = ServerState::new();
    let phone = phone();
    let request = PairRequestPayload::new("android-1").with_public_key(&phone.public_key);
    state.on_pair_request(request, 10);
    let ack = state.approve_with_pin("123456", "linux-1").unwrap();
    assert_eq!(ack.device_id, "linux-1");
    assert_eq!(ack.status, PairStatus::Success);
    assert_eq!(ack.error, None);
    assert_eq!(ack.public_key, None);
    assert_eq!(ack.protocol_version, Some(3));
    assert_eq!(state.state(), ConnectionState::Authenticated);
    assert_eq!(state.status_code(), StatusCode::Paired);
    assert!(!state.has_pending_pairing());

    let ctx = CryptoContext::from_pin("123456", "android-1", "linux-1");
    let mut message = Message::text("hello");
    message.sign_and_encrypt(&ctx).unwrap();
    match state.on_message(message) {
        Reaction::Deliver { event: ConnectionEvent::TextReceived(text), .. } => {
            assert_eq!(text, "hello");
        }
        other => panic!("unexpected {:?}", other),
    }
    let other = CryptoContext::from_pin("654321", "android-1", "linux-1");
    let mut message = Message::text("hello");
    message.sign_and_encrypt(&other).unwrap();
    match state.on_message(message) {
        Reaction::Drop(DropReason::Rejected(MessageError::ChecksumMismatch)) => {}
        other => panic!("unexpected {:?}", other),
    }
    let answer = state.pair_ack_message("{}");
    assert!(answer.verify(&ctx));
}

#[test]
fn test_pin_pairing_needs_a_device() {
    let mut state = ServerState::new();
    assert_eq!(state.approve_with_pin("123456", "linux-1").unwrap_err(), PairingError::NoDeviceId);
    assert_eq!(state.state(), ConnectionState::AwaitingPair);
    assert_eq!(state.status_code(), StatusCode::Idle);
}

#[test]
fn test_pair_request_with_given_key_pair() {
    let mut state = ServerState::new();
    let mut phone = phone();
    let desktop = EcdhKeypair::of_private_key([0x5au8; 32]);
    let desktop_public = desktop.public_key_base64();
    let request = PairRequestPayload::new("android-1").with_public_key(&phone.public_key);
    match state.on_pair_request_with(request, 7, desktop) {
        Reaction::Deliver { event: ConnectionEvent::PairRequested { device_id, device_name }, acknowledge } => {
            assert_eq!(device_id, "android-1");
            assert_eq!(device_name, None);
            assert_eq!(acknowledge, 7);
        }
        other => panic!("unexpected {:?}", other),
    }
    assert!(state.has_pending_pairing());
    let approved = state.approve_pairing("linux-1").unwrap();
    assert_eq!(approved.ack.public_key, Some(desktop_public.clone()));
    let shared = phone.keypair.take().unwrap().compute_shared_secret_base64(&desktop_public).unwrap();
    let ctx = CryptoContext::from_ecdh(&shared, "android-1", "linux-1");
    assert!(state.acknowledgment(1).verify(&ctx));

    let mut fresh = ServerState::new();
    let unused = EcdhKeypair::of_private_key([1u8; 32]);
    match fresh.on_pair_request_with(PairRequestPayload::new("android-2"), 8, unused) {
        Reaction::Drop(DropReason::MissingPublicKey) => {}
        other => panic!("unexpected {:?}", other),
    }
    assert!(!fresh.has_pending_pairing());
}

#[test]
fn test_pin_pair_request_names_the_phone() {
    let mut state = ServerState::new();
    let request = PairRequestPayload::new("android-9").with_name("Pixel");
    match state.on_pin_pair_request(request, 11) {
        Reaction::Deliver { event: ConnectionEvent::PairRequested { device_id, device_name }, acknowledge } => {
            assert_eq!(device_id, "android-9");
            assert_eq!(device_name, Some("Pixel".to_string()));
            assert_eq!(acknowledge, 11);
        }
        other => panic!("unexpected {:?}", other),
    }
    assert!(!state.has_pending_pairing());
    assert_eq!(state.device_id(), Some("android-9".to_string()));
    assert_eq!(ServerState::new().device_id(), None);
    assert_eq!(state.state(), ConnectionState::AwaitingPair);
    assert_eq!(state.status_code(), StatusCode::Idle);
    state.approve_with_pin("246810", "linux-1").unwrap();
    assert_eq!(state.state(), ConnectionState::Authenticated);
    let ctx = CryptoContext::from_pin("246810", "android-9", "linux-1");
    assert!(state.acknowledgment(3).verify(&ctx));
    let mut command = Message::command("ENTER");
    command.sign_and_encrypt(&ctx).unwrap();
    match state.on_message(command) {
        Reaction::Deliver { event: ConnectionEvent::CommandReceived(code), .. } => {
            assert_eq!(code, "ENTER");
        }
        other => panic!("unexpected {:?}", other),
    }
}
