use speech2prompt_desktop::crypto::{CryptoContext, CryptoError};
use speech2prompt_desktop::protocol::{
    frame_record, unframe_record, CommandCode, Message, MessageError, MessageType,
    PairAckPayload, PairRequestPayload, PairStatus, PROTOCOL_VERSION,
};

#[test]
fn test_message_signing() {
    let ctx = CryptoContext::from_pin("123456", "android-abc", "linux-xyz");

    let mut msg = Message::text("test");
    msg.sign(&ctx);

    assert!(!msg.checksum.is_empty());
    assert!(msg.verify(&ctx));

    msg.payload = "tampered".to_string();
    assert!(!msg.verify(&ctx));
}

#[test]
fn test_message_encryption() {
    let ctx = CryptoContext::from_pin("123456", "android-abc", "linux-xyz");

    let mut msg = Message::text("secret message");
    let original_payload = msg.payload.clone();

    msg.sign_and_encrypt(&ctx).unwrap();
    assert_ne!(msg.payload, original_payload);

    msg.verify_and_decrypt(&ctx).unwrap();
    assert_eq!(msg.payload, original_payload);
}

#[test]
fn test_command_codes() {
    assert_eq!(CommandCode::parse("ENTER"), Some(CommandCode::Enter));
    assert_eq!(CommandCode::parse("enter"), Some(CommandCode::Enter));
    assert_eq!(CommandCode::parse("SELECT_ALL"), Some(CommandCode::SelectAll));
    assert_eq!(CommandCode::parse("invalid"), None);
}

#[test]
fn test_message_type_names() {
    assert_eq!(MessageType::Text.as_str(), "TEXT");
    assert_eq!(MessageType::Word.as_str(), "WORD");
    assert_eq!(MessageType::Command.as_str(), "COMMAND");
    assert_eq!(MessageType::Heartbeat.as_str(), "HEARTBEAT");
    assert_eq!(MessageType::Ack.as_str(), "ACK");
    assert_eq!(MessageType::PairReq.as_str(), "PAIR_REQ");
    assert_eq!(MessageType::PairAck.as_str(), "PAIR_ACK");
    assert!(MessageType::Text.is_sensitive());
    assert!(MessageType::Word.is_sensitive());
    assert!(MessageType::Command.is_sensitive());
    assert!(MessageType::PairReq.is_sensitive());
    assert!(MessageType::PairAck.is_sensitive());
    assert!(!MessageType::Heartbeat.is_sensitive());
    assert!(!MessageType::Ack.is_sensitive());
}

#[test]
fn test_message_constructors() {
    assert_eq!(PROTOCOL_VERSION, 3);
    let text = Message::text("hi");
    assert_eq!(text.version, 3);
    assert_eq!(text.message_type, MessageType::Text);
    assert_eq!(text.payload, "hi");
    assert_eq!(text.checksum, "");
    assert!(text.timestamp > 1_600_000_000_000);
    let command = Message::command("ENTER");
    assert_eq!(command.message_type, MessageType::Command);
    assert_eq!(command.payload, "ENTER");
    let heartbeat = Message::heartbeat();
    assert_eq!(heartbeat.message_type, MessageType::Heartbeat);
    assert_eq!(heartbeat.payload, "");
    let ack = Message::ack(1234567890123);
    assert_eq!(ack.message_type, MessageType::Ack);
    assert_eq!(ack.payload, "1234567890123");
    assert_eq!(Message::ack(0).payload, "0");
    assert_eq!(Message::ack(u64::MAX).payload, "18446744073709551615");
    let fixed = Message::at(MessageType::Word, "w", 42);
    assert_eq!(fixed.timestamp, 42);
    assert_eq!(fixed.version, 3);
}

#[test]
fn test_sign_known_checksum() {
    let ctx = CryptoContext::new([7u8; 32]);
    let mut msg = Message::at(MessageType::Word, "hello", 1234567890);
    msg.sign(&ctx);
    assert_eq!(msg.checksum, "2f2a3393");
    assert!(msg.verify(&ctx));
    assert!(!msg.verify(&CryptoContext::new([8u8; 32])));
}

#[test]
fn test_tampering_with_each_field_is_detected_and_resigning_mends() {
    let ctx = CryptoContext::from_pin("123456", "android-abc", "linux-xyz");
    let mut msg = Message::at(MessageType::Text, "payload", 1000);
    msg.sign(&ctx);
    assert!(msg.verify(&ctx));

    msg.timestamp = 1001;
    assert!(!msg.verify(&ctx));
    msg.sign(&ctx);
    assert!(msg.verify(&ctx));

    msg.message_type = MessageType::Command;
    assert!(!msg.verify(&ctx));
    msg.sign(&ctx);
    assert!(msg.verify(&ctx));

    msg.payload = "other".to_string();
    assert!(!msg.verify(&ctx));
    msg.sign(&ctx);
    assert!(msg.verify(&ctx));

    msg.version = 2;
    assert!(!msg.verify(&ctx));
    msg.sign(&ctx);
    assert!(msg.verify(&ctx));
}

#[test]
fn test_heartbeat_and_ack_are_signed_but_not_encrypted() {
    let ctx = CryptoContext::new([3u8; 32]);
    let mut ack = Message::ack(77);
    ack.sign_and_encrypt(&ctx).unwrap();
    assert_eq!(ack.payload, "77");
    assert!(ack.verify(&ctx));
    ack.verify_and_decrypt(&ctx).unwrap();
    assert_eq!(ack.payload, "77");
    let mut heartbeat = Message::heartbeat();
    heartbeat.sign_and_encrypt(&ctx).unwrap();
    assert_eq!(heartbeat.payload, "");
    assert!(heartbeat.verify(&ctx));
}

#[test]
fn test_checksum_covers_ciphertext() {
    let ctx = CryptoContext::new([3u8; 32]);
    for kind in [
        MessageType::Text,
        MessageType::Word,
        MessageType::Command,
        MessageType::PairReq,
        MessageType::PairAck,
    ] {
        let mut msg = Message::at(kind, "clear", 5);
        msg.sign_and_encrypt(&ctx).unwrap();
        assert_ne!(msg.payload, "clear");
        assert_eq!(msg.checksum, ctx.checksum(3, kind.as_str(), &msg.payload, 5));
        assert_ne!(msg.checksum, ctx.checksum(3, kind.as_str(), "clear", 5));
        msg.verify_and_decrypt(&ctx).unwrap();
        assert_eq!(msg.payload, "clear");
    }
}

#[test]
fn test_verify_and_decrypt_errors_leave_message() {
    let ctx = CryptoContext::new([3u8; 32]);
    let mut msg = Message::at(MessageType::Text, "clear", 5);
    msg.sign_and_encrypt(&ctx).unwrap();
    let sent_payload = msg.payload.clone();

    let mut wrong_sum = Message::at(MessageType::Text, &sent_payload, 6);
    wrong_sum.checksum = msg.checksum.clone();
    assert_eq!(wrong_sum.verify_and_decrypt(&ctx), Err(MessageError::ChecksumMismatch));
    assert_eq!(wrong_sum.payload, sent_payload);

    let mut other_key = Message::at(MessageType::Text, &sent_payload, 5);
    other_key.checksum = msg.checksum.clone();
    assert_eq!(
        other_key.verify_and_decrypt(&CryptoContext::new([4u8; 32])),
        Err(MessageError::ChecksumMismatch)
    );

    let mut not_a_token = Message::at(MessageType::Text, "plain words", 5);
    not_a_token.sign(&ctx);
    assert_eq!(
        not_a_token.verify_and_decrypt(&ctx),
        Err(MessageError::Decrypt(CryptoError::Base64DecodeFailed))
    );
    assert_eq!(not_a_token.payload, "plain words");
    assert_eq!(MessageError::ChecksumMismatch.message(), "Checksum verification failed");
}

#[test]
fn test_command_code_names() {
    for code in [
        CommandCode::Enter,
        CommandCode::SelectAll,
        CommandCode::Copy,
        CommandCode::Paste,
        CommandCode::Cut,
        CommandCode::Cancel,
    ] {
        assert_eq!(CommandCode::parse(code.as_str()), Some(code));
    }
    assert_eq!(CommandCode::parse(" paste "), Some(CommandCode::Paste));
    assert_eq!(CommandCode::Cancel.as_str(), "CANCEL");
    assert_eq!(CommandCode::parse(""), None);
}

#[test]
fn test_pair_payload_builders() {
    let req = PairRequestPayload::new("android-123").with_name("My Phone").with_public_key("a2V5");
    assert_eq!(req.device_id, "android-123");
    assert_eq!(req.device_name, Some("My Phone".to_string()));
    assert_eq!(req.public_key, "a2V5");
    let bare = PairRequestPayload::new("android-9");
    assert_eq!(bare.device_name, None);
    assert_eq!(bare.public_key, "");

    let ack = PairAckPayload::success("linux-456");
    assert_eq!(ack.device_id, "linux-456");
    assert_eq!(ack.status, PairStatus::Success);
    assert_eq!(ack.error, None);
    assert_eq!(ack.public_key, None);
    assert_eq!(ack.protocol_version, Some(3));

    let keyed = PairAckPayload::success_with_key("linux-456", "cHVi".to_string());
    assert_eq!(keyed.status, PairStatus::Success);
    assert_eq!(keyed.public_key, Some("cHVi".to_string()));

    let refused = PairAckPayload::error("linux-456", "User rejected");
    assert_eq!(refused.status, PairStatus::Error);
    assert_eq!(refused.error, Some("User rejected".to_string()));
    assert_eq!(refused.public_key, None);
}

#[test]
fn test_record_framing() {
    assert_eq!(frame_record("{\"v\":3}"), "{\"v\":3}\n");
    assert_eq!(frame_record(""), "\n");
    assert_eq!(unframe_record("{\"v\":3}\n"), "{\"v\":3}");
    assert_eq!(unframe_record("  {\"p\":\"a b\"} \r\n"), "{\"p\":\"a b\"}");
    assert_eq!(unframe_record(&frame_record("x")), "x");
}

#[test]
fn test_checksum_is_four_bytes_and_can_collide() {
    let ctx = CryptoContext::new([7u8; 32]);
    let mut msg = Message::at(MessageType::Text, "note 18033", 1000);
    msg.sign(&ctx);
    assert_eq!(msg.checksum, "a21b4366");
    msg.payload = "note 81822".to_string();
    assert!(msg.verify(&ctx));
    msg.payload = "note 81823".to_string();
    assert!(!msg.verify(&ctx));
}
