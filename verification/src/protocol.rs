//! The messages of the protocol: the envelope with its checksum, and the
//! payloads of pairing and of single words.

use vstd::prelude::*;
use crate::clock::{read_clock, timestamp_of};
use crate::crypto::{checksum_of, opened_token, sealed_token, CryptoContext, CryptoError, NONCE_SIZE};
use crate::text::{same_text, trim, trimmed, uppercase};

verus! {

/// Version of the protocol.
pub const PROTOCOL_VERSION: u8 = 3u8;

/// The kinds of message.
#[derive(Debug, Clone, Copy, PartialEq, Eq, Structural)]
pub enum MessageType {
    /// Dictated text.
    Text,
    /// One dictated word.
    Word,
    /// A command.
    Command,
    /// Sign of life.
    Heartbeat,
    /// Acknowledgment of a message.
    Ack,
    /// Request to pair.
    PairReq,
    /// Answer to a request to pair.
    PairAck,
}

impl MessageType {
    /// The name of the kind on the wire.
    pub open spec fn name(self) -> Seq<char> {
        match self {
            MessageType::Text => "TEXT"@,
            MessageType::Word => "WORD"@,
            MessageType::Command => "COMMAND"@,
            MessageType::Heartbeat => "HEARTBEAT"@,
            MessageType::Ack => "ACK"@,
            MessageType::PairReq => "PAIR_REQ"@,
            MessageType::PairAck => "PAIR_ACK"@,
        }
    }

    /// Whether payloads of this kind are encrypted: all but heartbeats and
    /// acknowledgments.
    pub open spec fn sensitive(self) -> bool {
        !(self is Heartbeat || self is Ack)
    }

    /// The name of the kind on the wire.
    pub fn as_str(&self) -> (name: &'static str)
        ensures
            name@ == self.name(),
    {
        match self {
            MessageType::Text => "TEXT",
            MessageType::Word => "WORD",
            MessageType::Command => "COMMAND",
            MessageType::Heartbeat => "HEARTBEAT",
            MessageType::Ack => "ACK",
            MessageType::PairReq => "PAIR_REQ",
            MessageType::PairAck => "PAIR_ACK",
        }
    }

    /// Whether payloads of this kind are encrypted.
    pub fn is_sensitive(&self) -> (sensitive: bool)
        ensures
            sensitive == self.sensitive(),
    {
        match self {
            MessageType::Heartbeat => false,
            MessageType::Ack => false,
            _ => true,
        }
    }
}

/// What a message holds.
pub struct Envelope {
    /// Version of the protocol.
    pub version: u8,
    /// Kind of the message.
    pub message_type: MessageType,
    /// Payload as it is sent: a token, where the kind is sensitive and the
    /// message is protected.
    pub payload: Seq<char>,
    /// Milliseconds since the Unix epoch.
    pub timestamp: u64,
    /// Checksum: eight hexadecimal digits.
    pub checksum: Seq<char>,
}

/// The checksum that a message's fields call for under a key.
pub open spec fn expected_checksum(message: Envelope, key: Seq<u8>) -> Seq<char> {
    checksum_of(
        message.version,
        message.message_type.name(),
        message.payload,
        message.timestamp,
        key,
    )
}

/// The message with the checksum that its fields call for.
pub open spec fn signed(message: Envelope, key: Seq<u8>) -> Envelope {
    Envelope { checksum: expected_checksum(message, key), ..message }
}

/// Whether the checksum of a message is the one its fields call for.
pub open spec fn verifies(message: Envelope, key: Seq<u8>) -> bool {
    message.checksum == expected_checksum(message, key)
}

/// Why a message was not accepted.
#[derive(Debug, Clone, Copy, PartialEq, Eq, Structural)]
pub enum MessageError {
    /// The checksum is not the one the fields call for.
    ChecksumMismatch,
    /// The checksum is right, but the payload did not decrypt.
    Decrypt(CryptoError),
}

impl MessageError {
    /// The error in words.
    pub fn message(&self) -> (text: &'static str)
        ensures
            text@ == match self {
                MessageError::ChecksumMismatch => "Checksum verification failed"@,
                MessageError::Decrypt(why) => match why {
                    CryptoError::RandomUnavailable => "Random source unavailable"@,
                    CryptoError::EncryptionFailed => "Encryption failed"@,
                    CryptoError::TokenTooLong => "Ciphertext too long"@,
                    CryptoError::Base64DecodeFailed => "Base64 decode failed"@,
                    CryptoError::CiphertextTooShort => "Ciphertext too short"@,
                    CryptoError::DecryptionFailed => "Decryption failed"@,
                    CryptoError::Utf8DecodeFailed => "UTF-8 decode failed"@,
                },
            },
    {
        match self {
            MessageError::ChecksumMismatch => "Checksum verification failed",
            MessageError::Decrypt(why) => why.message(),
        }
    }
}

/// What a receiver makes of a message: the message with its payload in the
/// clear, or the reason to drop it. The checksum is checked first, over
/// the payload as it was sent.
pub open spec fn opened_message(message: Envelope, key: Seq<u8>) -> Result<Envelope, MessageError> {
    if !verifies(message, key) {
        Err(MessageError::ChecksumMismatch)
    } else if message.message_type.sensitive() {
        match opened_token(key, message.payload) {
            Ok(plain) => Ok(Envelope { payload: plain, ..message }),
            Err(why) => Err(MessageError::Decrypt(why)),
        }
    } else {
        Ok(message)
    }
}

/// What a sender makes of a message with a given nonce: the payload
/// encrypted where the kind is sensitive, then the checksum over the
/// payload as it is sent.
pub open spec fn protected_message(message: Envelope, key: Seq<u8>, nonce: Seq<u8>) -> Result<
    Envelope,
    CryptoError,
> {
    if message.message_type.sensitive() {
        match sealed_token(key, nonce, message.payload) {
            Ok(token) => Ok(signed(Envelope { payload: token, ..message }, key)),
            Err(why) => Err(why),
        }
    } else {
        Ok(signed(message, key))
    }
}

/// A message of the protocol.
#[derive(Debug)]
pub struct Message {
    /// Version of the protocol.
    pub version: u8,
    /// Kind of the message.
    pub message_type: MessageType,
    /// Payload; encrypted where the kind is sensitive and the message is
    /// protected.
    pub payload: String,
    /// Milliseconds since the Unix epoch.
    pub timestamp: u64,
    /// Checksum: eight hexadecimal digits.
    pub checksum: String,
}

impl View for Message {
    type V = Envelope;

    open spec fn view(&self) -> Envelope {
        Envelope {
            version: self.version,
            message_type: self.message_type,
            payload: self.payload@,
            timestamp: self.timestamp,
            checksum: self.checksum@,
        }
    }
}

/// A number in decimal digits, as text.
pub open spec fn decimal_text(n: nat) -> Seq<char>
    decreases n,
{
    if n < 10 {
        seq![crate::crypto::hex_digit(n as int)]
    } else {
        decimal_text(n / 10).push(crate::crypto::hex_digit((n % 10) as int))
    }
}

/// Adds a number in decimal digits to a text.
fn push_decimal_text(out: &mut String, n: u64)
    ensures
        final(out)@ == old(out)@ + decimal_text(n as nat),
    decreases n,
{
    if n >= 10 {
        push_decimal_text(out, n / 10);
    }
    let digit: u64 = n % 10;
    let c: char = if digit == 0 {
        '0'
    } else if digit == 1 {
        '1'
    } else if digit == 2 {
        '2'
    } else if digit == 3 {
        '3'
    } else if digit == 4 {
        '4'
    } else if digit == 5 {
        '5'
    } else if digit == 6 {
        '6'
    } else if digit == 7 {
        '7'
    } else if digit == 8 {
        '8'
    } else {
        '9'
    };
    out.push(c);
    assert(out@ =~= old(out)@ + decimal_text(n as nat));
}

impl Message {
    /// A message of the current version with the given timestamp and no
    /// checksum yet.
    pub fn at(message_type: MessageType, payload: &str, timestamp: u64) -> (message: Message)
        ensures
            message@ == (Envelope {
                version: PROTOCOL_VERSION,
                message_type,
                payload: payload@,
                timestamp,
                checksum: Seq::empty(),
            }),
    {
        Message {
            version: PROTOCOL_VERSION,
            message_type,
            payload: String::from_str(payload),
            timestamp,
            checksum: String::new(),
        }
    }

    /// A message of the current version, stamped with the present time,
    /// with no checksum yet.
    pub fn new(message_type: MessageType, payload: &str) -> (message: Message)
        ensures
            message@ == (Envelope {
                version: PROTOCOL_VERSION,
                message_type,
                payload: payload@,
                timestamp: message.timestamp,
                checksum: Seq::empty(),
            }),
    {
        Message::at(message_type, payload, timestamp_of(read_clock()))
    }

    /// A message of dictated text.
    pub fn text(content: &str) -> (message: Message)
        ensures
            message@ == (Envelope {
                version: PROTOCOL_VERSION,
                message_type: MessageType::Text,
                payload: content@,
                timestamp: message.timestamp,
                checksum: Seq::empty(),
            }),
    {
        Message::new(MessageType::Text, content)
    }

    /// A message with a command.
    pub fn command(cmd: &str) -> (message: Message)
        ensures
            message@ == (Envelope {
                version: PROTOCOL_VERSION,
                message_type: MessageType::Command,
                payload: cmd@,
                timestamp: message.timestamp,
                checksum: Seq::empty(),
            }),
    {
        Message::new(MessageType::Command, cmd)
    }

    /// A heartbeat.
    pub fn heartbeat() -> (message: Message)
        ensures
            message@ == (Envelope {
                version: PROTOCOL_VERSION,
                message_type: MessageType::Heartbeat,
                payload: Seq::empty(),
                timestamp: message.timestamp,
                checksum: Seq::empty(),
            }),
    {
        let message = Message::new(MessageType::Heartbeat, "");
        proof {
            reveal_strlit("");
            assert(""@ =~= Seq::<char>::empty());
        }
        message
    }

    /// The acknowledgment of the message with the given timestamp: its
    /// payload is that timestamp in decimal digits.
    pub fn ack(original_timestamp: u64) -> (message: Message)
        ensures
            message@ == (Envelope {
                version: PROTOCOL_VERSION,
                message_type: MessageType::Ack,
                payload: decimal_text(original_timestamp as nat),
                timestamp: message.timestamp,
                checksum: Seq::empty(),
            }),
    {
        let mut digits = String::new();
        push_decimal_text(&mut digits, original_timestamp);
        assert(digits@ =~= decimal_text(original_timestamp as nat));
        Message::new(MessageType::Ack, digits.as_str())
    }

    /// Sets the checksum that the fields call for.
    pub fn sign(&mut self, ctx: &CryptoContext)
        ensures
            final(self)@ == signed(old(self)@, ctx@),
            verifies(final(self)@, ctx@),
    {
        self.checksum = ctx.checksum(
            self.version,
            self.message_type.as_str(),
            self.payload.as_str(),
            self.timestamp,
        );
    }

    /// Protects the message for sending: encrypts the payload where the
    /// kind is sensitive, then signs. The receiver's check and decryption
    /// give the message back. Where encryption fails, the message stays
    /// as it was.
    pub fn sign_and_encrypt(&mut self, ctx: &CryptoContext) -> (done: Result<(), CryptoError>)
        ensures
            match done {
                Ok(_) => {
                    &&& opened_message(final(self)@, ctx@) == Ok::<Envelope, MessageError>(
                        Envelope { checksum: final(self)@.checksum, ..old(self)@ },
                    )
                    &&& !old(self)@.message_type.sensitive() ==> final(self)@ == signed(
                        old(self)@,
                        ctx@,
                    )
                    &&& old(self)@.message_type.sensitive() ==> exists|nonce: Seq<u8>|
                        nonce.len() == NONCE_SIZE && #[trigger] protected_message(
                            old(self)@,
                            ctx@,
                            nonce,
                        ) == Ok::<Envelope, CryptoError>(final(self)@)
                },
                Err(why) => {
                    &&& final(self)@ == old(self)@
                    &&& old(self)@.message_type.sensitive()
                    &&& why == CryptoError::RandomUnavailable || exists|nonce: Seq<u8>|
                        nonce.len() == NONCE_SIZE && #[trigger] protected_message(
                            old(self)@,
                            ctx@,
                            nonce,
                        ) == Err::<Envelope, CryptoError>(why)
                },
            },
            !old(self)@.message_type.sensitive() ==> done is Ok,
    {
        if self.message_type.is_sensitive() {
            match ctx.encrypt(self.payload.as_str()) {
                Ok(token) => {
                    proof {
                        let nonce = choose|nonce: Seq<u8>|
                            nonce.len() == NONCE_SIZE && #[trigger] sealed_token(
                                ctx@,
                                nonce,
                                old(self)@.payload,
                            ) == Ok::<Seq<char>, CryptoError>(token@);
                        assert(protected_message(old(self)@, ctx@, nonce) == Ok::<
                            Envelope,
                            CryptoError,
                        >(signed(Envelope { payload: token@, ..old(self)@ }, ctx@)));
                    }
                    self.payload = token;
                },
                Err(why) => {
                    proof {
                        if why != CryptoError::RandomUnavailable {
                            let nonce = choose|nonce: Seq<u8>|
                                nonce.len() == NONCE_SIZE && #[trigger] sealed_token(
                                    ctx@,
                                    nonce,
                                    old(self)@.payload,
                                ) == Err::<Seq<char>, CryptoError>(why);
                            assert(protected_message(old(self)@, ctx@, nonce) == Err::<
                                Envelope,
                                CryptoError,
                            >(why));
                        }
                    }
                    return Err(why);
                },
            }
        }
        self.sign(ctx);
        Ok(())
    }

    /// Whether the checksum is the one the fields call for.
    pub fn verify(&self, ctx: &CryptoContext) -> (good: bool)
        ensures
            good == verifies(self@, ctx@),
    {
        ctx.verify_checksum(
            self.version,
            self.message_type.as_str(),
            self.payload.as_str(),
            self.timestamp,
            self.checksum.as_str(),
        )
    }

    /// Checks the checksum and then, where the kind is sensitive, decrypts
    /// the payload in place. Where either fails, the message stays as it
    /// was.
    pub fn verify_and_decrypt(&mut self, ctx: &CryptoContext) -> (done: Result<(), MessageError>)
        ensures
            match done {
                Ok(_) => opened_message(old(self)@, ctx@) == Ok::<Envelope, MessageError>(
                    final(self)@,
                ),
                Err(why) => opened_message(old(self)@, ctx@) == Err::<Envelope, MessageError>(why)
                    && final(self)@ == old(self)@,
            },
    {
        if !self.verify(ctx) {
            return Err(MessageError::ChecksumMismatch);
        }
        if self.message_type.is_sensitive() {
            match ctx.decrypt(self.payload.as_str()) {
                Ok(plain) => {
                    self.payload = plain;
                },
                Err(why) => {
                    return Err(MessageError::Decrypt(why));
                },
            }
        }
        Ok(())
    }
}

/// An encoded message as it travels on a byte stream: the record and one
/// line feed.
pub open spec fn framed_record(encoded: Seq<char>) -> Seq<char> {
    encoded + seq!['\n']
}

/// Ends an encoded message with the line feed that separates records on a
/// byte stream.
pub fn frame_record(encoded: &str) -> (line: String)
    ensures
        line@ == framed_record(encoded@),
{
    let mut line = String::from_str(encoded);
    line.push('\n');
    line
}

/// The record on a line: the line without the white space around it, the
/// line feed included.
pub fn unframe_record(line: &str) -> (encoded: String)
    ensures
        encoded@ == trimmed(line@),
{
    trim(line)
}

/// Signing and checking: a message that was signed under a key verifies
/// under that key, whatever it held before; and a message whose payload,
/// timestamp or kind was changed after signing verifies exactly if the
/// changed fields have the same checksum as the signed ones.
pub proof fn lemma_signed_message_verifies(message: Envelope, changed: Envelope, key: Seq<u8>)
    requires
        changed.checksum == signed(message, key).checksum,
    ensures
        verifies(signed(message, key), key),
        verifies(signed(changed, key), key),
        verifies(changed, key) <==> expected_checksum(changed, key) == expected_checksum(
            message,
            key,
        ),
{
}

/// The checksum covers what is sent: a protected message carries the
/// checksum of its fields with the payload as it travels, which for a
/// sensitive kind is the token and not the text in the clear; and nothing
/// but payload and checksum differs from the message as it was.
pub proof fn lemma_checksum_covers_sent_payload(
    message: Envelope,
    key: Seq<u8>,
    nonce: Seq<u8>,
    sent: Envelope,
)
    requires
        protected_message(message, key, nonce) == Ok::<Envelope, CryptoError>(sent),
    ensures
        verifies(sent, key),
        sent.checksum == checksum_of(
            sent.version,
            sent.message_type.name(),
            sent.payload,
            sent.timestamp,
            key,
        ),
        sent.version == message.version,
        sent.message_type == message.message_type,
        sent.timestamp == message.timestamp,
        message.message_type.sensitive() ==> sealed_token(key, nonce, message.payload) == Ok::<
            Seq<char>,
            CryptoError,
        >(sent.payload),
        !message.message_type.sensitive() ==> sent.payload == message.payload,
{
}

/// The payload of a request to pair.
#[derive(Debug)]
pub struct PairRequestPayload {
    /// Identifier of the phone.
    pub device_id: String,
    /// Name of the phone, if it gave one.
    pub device_name: Option<String>,
    /// Public key of the phone for the key exchange, in base64. A request
    /// without one is refused.
    pub public_key: String,
}

impl PairRequestPayload {
    /// A request without name and without key.
    pub fn new(device_id: &str) -> (payload: PairRequestPayload)
        ensures
            payload.device_id@ == device_id@,
            payload.device_name is None,
            payload.public_key@.len() == 0,
    {
        PairRequestPayload {
            device_id: String::from_str(device_id),
            device_name: None,
            public_key: String::new(),
        }
    }

    /// The request with the given name.
    pub fn with_name(self, name: &str) -> (payload: PairRequestPayload)
        ensures
            payload.device_id == self.device_id,
            payload.public_key == self.public_key,
            payload.device_name matches Some(given) && given@ == name@,
    {
        PairRequestPayload {
            device_id: self.device_id,
            device_name: Some(String::from_str(name)),
            public_key: self.public_key,
        }
    }

    /// The request with the given public key.
    pub fn with_public_key(self, public_key: &str) -> (payload: PairRequestPayload)
        ensures
            payload.device_id == self.device_id,
            payload.device_name == self.device_name,
            payload.public_key@ == public_key@,
    {
        PairRequestPayload {
            device_id: self.device_id,
            device_name: self.device_name,
            public_key: String::from_str(public_key),
        }
    }
}

/// Whether pairing succeeded.
#[derive(Debug, Clone, Copy, PartialEq, Eq, Structural)]
pub enum PairStatus {
    /// The devices are paired. On the wire: `ok`.
    Success,
    /// Pairing was refused or failed. On the wire: `error`.
    Error,
}

/// The payload of the answer to a request to pair.
#[derive(Debug)]
pub struct PairAckPayload {
    /// Identifier of the desktop.
    pub device_id: String,
    /// Whether pairing succeeded.
    pub status: PairStatus,
    /// Why it did not.
    pub error: Option<String>,
    /// Public key of the desktop for the key exchange, in base64.
    pub public_key: Option<String>,
    /// Version of the protocol that the desktop speaks.
    pub protocol_version: Option<u8>,
}

impl PairAckPayload {
    /// The answer that pairing succeeded.
    pub fn success(device_id: &str) -> (payload: PairAckPayload)
        ensures
            payload.device_id@ == device_id@,
            payload.status == PairStatus::Success,
            payload.error is None,
            payload.public_key is None,
            payload.protocol_version == Some(PROTOCOL_VERSION),
    {
        PairAckPayload {
            device_id: String::from_str(device_id),
            status: PairStatus::Success,
            error: None,
            public_key: None,
            protocol_version: Some(PROTOCOL_VERSION),
        }
    }

    /// The answer that pairing succeeded, with the desktop's public key.
    pub fn success_with_key(device_id: &str, public_key: String) -> (payload: PairAckPayload)
        ensures
            payload.device_id@ == device_id@,
            payload.status == PairStatus::Success,
            payload.error is None,
            payload.public_key == Some(public_key),
            payload.protocol_version == Some(PROTOCOL_VERSION),
    {
        PairAckPayload {
            device_id: String::from_str(device_id),
            status: PairStatus::Success,
            error: None,
            public_key: Some(public_key),
            protocol_version: Some(PROTOCOL_VERSION),
        }
    }

    /// The answer that pairing was refused or failed.
    pub fn error(device_id: &str, error: &str) -> (payload: PairAckPayload)
        ensures
            payload.device_id@ == device_id@,
            payload.status == PairStatus::Error,
            payload.error matches Some(why) && why@ == error@,
            payload.public_key is None,
            payload.protocol_version == Some(PROTOCOL_VERSION),
    {
        PairAckPayload {
            device_id: String::from_str(device_id),
            status: PairStatus::Error,
            error: Some(String::from_str(error)),
            public_key: None,
            protocol_version: Some(PROTOCOL_VERSION),
        }
    }
}

/// The payload of a message with one word.
#[derive(Debug)]
pub struct WordPayload {
    /// The word, without white space after it.
    pub word: String,
    /// Number of the word in its session. Reserved: nothing acts on it.
    pub seq: Option<u64>,
    /// The dictation session that the word belongs to.
    pub session: String,
    /// When the word was spoken, in milliseconds since the Unix epoch.
    pub timestamp: Option<u64>,
}

/// The commands as they travel in command messages.
#[derive(Debug, Clone, Copy, PartialEq, Eq, Structural)]
pub enum CommandCode {
    /// Press the Enter key.
    Enter,
    /// Select everything.
    SelectAll,
    /// Copy the selection.
    Copy,
    /// Paste the clipboard.
    Paste,
    /// Cut the selection.
    Cut,
    /// Discard.
    Cancel,
}

/// The command code that a text in capitals stands for.
pub open spec fn code_of_name(name: Seq<char>) -> Option<CommandCode> {
    if name == "ENTER"@ {
        Some(CommandCode::Enter)
    } else if name == "SELECT_ALL"@ {
        Some(CommandCode::SelectAll)
    } else if name == "COPY"@ {
        Some(CommandCode::Copy)
    } else if name == "PASTE"@ {
        Some(CommandCode::Paste)
    } else if name == "CUT"@ {
        Some(CommandCode::Cut)
    } else if name == "CANCEL"@ {
        Some(CommandCode::Cancel)
    } else {
        None
    }
}

impl CommandCode {
    /// The name of the code.
    pub open spec fn name(self) -> Seq<char> {
        match self {
            CommandCode::Enter => "ENTER"@,
            CommandCode::SelectAll => "SELECT_ALL"@,
            CommandCode::Copy => "COPY"@,
            CommandCode::Paste => "PASTE"@,
            CommandCode::Cut => "CUT"@,
            CommandCode::Cancel => "CANCEL"@,
        }
    }

    /// The code that a text stands for: white space around it and the case
    /// of its letters do not count.
    pub fn parse(s: &str) -> (code: Option<CommandCode>)
        ensures
            code == code_of_name(uppercase(trimmed(s@))),
    {
        let inner = trim(s);
        let name = inner.as_str().to_uppercase();
        if same_text(name.as_str(), "ENTER") {
            Some(CommandCode::Enter)
        } else if same_text(name.as_str(), "SELECT_ALL") {
            Some(CommandCode::SelectAll)
        } else if same_text(name.as_str(), "COPY") {
            Some(CommandCode::Copy)
        } else if same_text(name.as_str(), "PASTE") {
            Some(CommandCode::Paste)
        } else if same_text(name.as_str(), "CUT") {
            Some(CommandCode::Cut)
        } else if same_text(name.as_str(), "CANCEL") {
            Some(CommandCode::Cancel)
        } else {
            None
        }
    }

    /// The name of the code.
    pub fn as_str(&self) -> (name: &'static str)
        ensures
            name@ == self.name(),
    {
        match self {
            CommandCode::Enter => "ENTER",
            CommandCode::SelectAll => "SELECT_ALL",
            CommandCode::Copy => "COPY",
            CommandCode::Paste => "PASTE",
            CommandCode::Cut => "CUT",
            CommandCode::Cancel => "CANCEL",
        }
    }
}

} // verus!
