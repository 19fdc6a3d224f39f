//! One connection from waiting for pairing to authenticated to closed:
//! what each packet, message and decision of the user does to it, and what
//! is to be sent and reported in return.
//!
//! The functions here decide; the caller moves the bytes. A message arrives
//! as packets, is decoded by the caller and handed in; what is to be sent
//! comes back as a message, which the caller encodes and hands to `frame`.

use vstd::prelude::*;
use crate::ble_constants::{StatusCode, DEFAULT_MTU};
use crate::crypto::{
    base64_text, derived_key, derived_key_from_ecdh, CryptoContext, CryptoError,
};
use crate::ecdh::{
    basepoint, exchanges, peer_key_check, x25519_product, EcdhKeypair, KeyExchangeError,
    PUBLIC_KEY_SIZE,
};
use crate::protocol::{
    decimal_text, opened_message, signed, verifies, Envelope, Message, MessageError, MessageType,
    PairAckPayload, PairRequestPayload, PairStatus, WordPayload, PROTOCOL_VERSION,
};
use crate::reassembler::{chunk_message, chunks, packets_view, step, Assembly, MessageReassembler};

verus! {

/// What a connection reports to the application.
#[derive(Debug)]
pub enum ConnectionEvent {
    /// Dictated text arrived.
    TextReceived(String),
    /// One dictated word arrived.
    WordReceived {
        /// The word.
        word: String,
        /// Its number in the session, if it came with one.
        seq: Option<u64>,
        /// The dictation session it belongs to.
        session: String,
    },
    /// A command arrived.
    CommandReceived(String),
    /// The phone is paired and the connection is ready.
    Connected {
        /// Name of the phone, or its identifier if it gave no name.
        device_name: String,
    },
    /// The connection is closed.
    Disconnected,
    /// A phone asks to pair; the user has to decide.
    PairRequested {
        /// Identifier of the phone.
        device_id: String,
        /// Name of the phone, if it gave one.
        device_name: Option<String>,
    },
    /// Something went wrong.
    Error(String),
}

/// Where a connection stands.
#[derive(Debug, Clone, Copy, PartialEq, Eq, Structural)]
pub enum ConnectionState {
    /// Waiting for pairing.
    AwaitingPair,
    /// Paired: messages are accepted.
    Authenticated,
    /// Closed. A new connection starts afresh.
    Disconnected,
}

/// A request to pair that waits for the user's decision.
pub struct PendingPairing {
    /// Identifier of the phone.
    pub android_device_id: String,
    /// Name of the phone, if it gave one.
    pub android_device_name: Option<String>,
    /// Public key of the phone, in base64.
    pub android_public_key: String,
    /// The desktop's key pair for this exchange.
    pub desktop_keypair: EcdhKeypair,
}

/// Why a message was dropped without an answer.
#[derive(Debug, Clone, Copy, PartialEq, Eq, Structural)]
pub enum DropReason {
    /// The message needs an authenticated connection.
    NotAuthenticated,
    /// Checksum or decryption failed.
    Rejected(MessageError),
    /// The request to pair carries no public key.
    MissingPublicKey,
    /// The operating system gave no random bytes for a key pair.
    KeyPairUnavailable,
    /// The payload could not be decoded.
    MalformedPayload,
    /// Nothing is done with messages of this kind.
    Ignored,
}

/// What a message calls for.
#[derive(Debug)]
pub enum Reaction {
    /// Nothing is sent and nothing is reported.
    Drop(DropReason),
    /// The payload is a request to pair: the caller decodes it and hands
    /// it to `on_pair_request` with the timestamp.
    DecodePairRequest {
        /// The payload as it arrived.
        payload: String,
        /// Timestamp of the message.
        timestamp: u64,
    },
    /// The payload is a word: the caller decodes it and hands it to
    /// `on_word` with the timestamp.
    DecodeWord {
        /// The payload, decrypted.
        payload: String,
        /// Timestamp of the message.
        timestamp: u64,
    },
    /// An event for the application and an acknowledgment for the phone.
    Deliver {
        /// What to report.
        event: ConnectionEvent,
        /// The timestamp to acknowledge.
        acknowledge: u64,
    },
    /// An acknowledgment for the phone, and nothing to report.
    Acknowledge {
        /// The timestamp to acknowledge.
        acknowledge: u64,
    },
}

/// Why pairing was not completed.
#[derive(Debug, Clone, Copy, PartialEq, Eq, Structural)]
pub enum PairingError {
    /// No request to pair waits for a decision.
    NoPendingPairing,
    /// No phone has named itself on this connection.
    NoDeviceId,
    /// The phone's public key is not usable.
    KeyExchange(KeyExchangeError),
}

/// What follows from the user's approval.
#[derive(Debug)]
pub struct PairingApproved {
    /// Payload of the answer to the phone: success, with the desktop's
    /// public key.
    pub ack: PairAckPayload,
    /// Status to publish.
    pub status: StatusCode,
    /// What to report: the phone is connected.
    pub event: ConnectionEvent,
}

/// What a connection remembers, in plain values.
pub struct Session {
    /// State of the reassembler.
    pub assembly: Assembly,
    /// Key of the session, once paired.
    pub key: Option<Seq<u8>>,
    /// Identifier of the phone that asked to pair last.
    pub device_id: Option<Seq<char>>,
    /// Where the connection stands.
    pub state: ConnectionState,
    /// The MTU in force.
    pub negotiated_mtu: nat,
    /// Status to publish.
    pub status_code: StatusCode,
    /// The request to pair that waits for a decision.
    pub pending: Option<Waiting>,
}

/// A request to pair that waits for the user's decision, in plain values.
pub struct Waiting {
    /// Identifier of the phone.
    pub device_id: Seq<char>,
    /// Name of the phone, if it gave one.
    pub device_name: Option<Seq<char>>,
    /// Public key of the phone, in base64.
    pub public_key: Seq<char>,
    /// Private key of the desktop's key pair for this exchange.
    pub desktop_secret: Seq<u8>,
    /// Public key of the desktop's key pair for this exchange.
    pub desktop_public: Seq<u8>,
}

/// A connection that has just been opened.
pub open spec fn fresh_session() -> Session {
    Session {
        assembly: crate::reassembler::idle(),
        key: None,
        device_id: None,
        state: ConnectionState::AwaitingPair,
        negotiated_mtu: DEFAULT_MTU as nat,
        status_code: StatusCode::Idle,
        pending: None,
    }
}

/// What holds of every connection: an authenticated one has a key, the
/// MTU never falls below the default, and the public key kept for a
/// request that waits belongs to the private key kept with it and serves
/// it in an exchange.
pub open spec fn session_wf(session: Session) -> bool {
    &&& session.state == ConnectionState::Authenticated ==> session.key is Some
    &&& session.negotiated_mtu >= DEFAULT_MTU
    &&& session.pending matches Some(waiting) ==> {
        &&& waiting.desktop_secret.len() == 32
        &&& waiting.desktop_public == x25519_product(waiting.desktop_secret, basepoint())
        &&& exchanges(waiting.desktop_secret, waiting.desktop_public)
    }
}

/// Both sides of a pairing derive the same key: where the phone's public
/// key belongs to a private key of the phone's, the key that the desktop
/// derives on approval is the key that the phone derives from the
/// desktop's public key and its own private key.
pub proof fn lemma_pairing_agrees(
    session: Session,
    phone_secret: Seq<u8>,
    linux_device_id: Seq<char>,
)
    requires
        session_wf(session),
        phone_secret.len() == 32,
        session.pending matches Some(waiting) && peer_key_check(waiting.public_key) == Ok::<
            Seq<u8>,
            KeyExchangeError,
        >(x25519_product(phone_secret, basepoint())),
    ensures
        derived_key_from_ecdh(
            x25519_product(
                session.pending->0.desktop_secret,
                peer_key_check(session.pending->0.public_key)->Ok_0,
            ),
            session.pending->0.device_id,
            linux_device_id,
        ) == derived_key_from_ecdh(
            x25519_product(phone_secret, session.pending->0.desktop_public),
            session.pending->0.device_id,
            linux_device_id,
        ),
{
    let waiting = session.pending->0;
    assert(x25519_product(phone_secret, waiting.desktop_public) == x25519_product(
        waiting.desktop_secret,
        x25519_product(phone_secret, basepoint()),
    ));
}

/// What an optional text holds.
pub open spec fn name_view(name: Option<String>) -> Option<Seq<char>> {
    match name {
        Some(inner) => Some(inner@),
        None => None,
    }
}

/// What an event holds, in plain values.
pub enum Report {
    /// Dictated text arrived.
    Text(Seq<char>),
    /// One dictated word arrived.
    Word(Seq<char>, Option<u64>, Seq<char>),
    /// A command arrived.
    Command(Seq<char>),
    /// The phone is connected.
    Connected(Seq<char>),
    /// The connection is closed.
    Disconnected,
    /// A phone asks to pair.
    PairRequested(Seq<char>, Option<Seq<char>>),
    /// Something went wrong.
    Error(Seq<char>),
}

impl View for ConnectionEvent {
    type V = Report;

    open spec fn view(&self) -> Report {
        match self {
            ConnectionEvent::TextReceived(text) => Report::Text(text@),
            ConnectionEvent::WordReceived { word, seq, session } => Report::Word(
                word@,
                *seq,
                session@,
            ),
            ConnectionEvent::CommandReceived(code) => Report::Command(code@),
            ConnectionEvent::Connected { device_name } => Report::Connected(device_name@),
            ConnectionEvent::Disconnected => Report::Disconnected,
            ConnectionEvent::PairRequested { device_id, device_name } => Report::PairRequested(
                device_id@,
                name_view(*device_name),
            ),
            ConnectionEvent::Error(why) => Report::Error(why@),
        }
    }
}

/// What a reaction holds, in plain values.
pub enum Response {
    /// Nothing is sent and nothing is reported.
    Drop(DropReason),
    /// The payload is to be decoded as a request to pair.
    DecodePairRequest(Seq<char>, u64),
    /// The payload is to be decoded as a word.
    DecodeWord(Seq<char>, u64),
    /// An event and an acknowledgment.
    Deliver(Report, u64),
    /// An acknowledgment only.
    Acknowledge(u64),
}

impl View for Reaction {
    type V = Response;

    open spec fn view(&self) -> Response {
        match self {
            Reaction::Drop(why) => Response::Drop(*why),
            Reaction::DecodePairRequest { payload, timestamp } => Response::DecodePairRequest(
                payload@,
                *timestamp,
            ),
            Reaction::DecodeWord { payload, timestamp } => Response::DecodeWord(
                payload@,
                *timestamp,
            ),
            Reaction::Deliver { event, acknowledge } => Response::Deliver(event@, *acknowledge),
            Reaction::Acknowledge { acknowledge } => Response::Acknowledge(*acknowledge),
        }
    }
}

/// What a message calls for on a connection. Text, words and commands
/// count only on an authenticated connection and only if checksum and
/// decryption succeed; a request to pair and a heartbeat are answered in
/// every state; acknowledgments and answers to pairing are ignored. No
/// message changes the connection.
pub open spec fn response_to(session: Session, message: Envelope) -> Response {
    match message.message_type {
        MessageType::PairReq => Response::DecodePairRequest(message.payload, message.timestamp),
        MessageType::Heartbeat => Response::Acknowledge(message.timestamp),
        MessageType::Ack => Response::Drop(DropReason::Ignored),
        MessageType::PairAck => Response::Drop(DropReason::Ignored),
        _ => if session.state != ConnectionState::Authenticated || session.key is None {
            Response::Drop(DropReason::NotAuthenticated)
        } else {
            match opened_message(message, session.key->0) {
                Err(why) => Response::Drop(DropReason::Rejected(why)),
                Ok(clear) => match message.message_type {
                    MessageType::Text => Response::Deliver(
                        Report::Text(clear.payload),
                        message.timestamp,
                    ),
                    MessageType::Command => Response::Deliver(
                        Report::Command(clear.payload),
                        message.timestamp,
                    ),
                    _ => Response::DecodeWord(clear.payload, message.timestamp),
                },
            }
        },
    }
}

/// Before authentication nothing is let through: text, words and commands
/// that arrive on a connection that is not authenticated are dropped,
/// whatever they hold.
pub proof fn lemma_unauthenticated_messages_dropped(session: Session, message: Envelope)
    requires
        session.state != ConnectionState::Authenticated,
        message.message_type is Text || message.message_type is Word || message.message_type
            is Command,
    ensures
        response_to(session, message) == Response::Drop(DropReason::NotAuthenticated),
{
}

/// Only what is verified is delivered: an event for a message means that
/// the connection is authenticated, that the checksum of the message is
/// the one its fields call for under the key of the session, that its
/// payload decrypts, and that its timestamp is the one acknowledged. A
/// heartbeat is acknowledged in every state.
pub proof fn lemma_only_verified_messages_delivered(session: Session, message: Envelope)
    ensures
        response_to(session, message) matches Response::Deliver(report, acknowledge) ==> {
            &&& session.state == ConnectionState::Authenticated
            &&& session.key is Some
            &&& verifies(message, session.key->0)
            &&& opened_message(message, session.key->0) is Ok
            &&& acknowledge == message.timestamp
            &&& report == match message.message_type {
                MessageType::Text => Report::Text(opened_message(message, session.key->0)->Ok_0.payload),
                _ => Report::Command(opened_message(message, session.key->0)->Ok_0.payload),
            }
        },
        message.message_type is Heartbeat ==> response_to(session, message)
            == Response::Acknowledge(message.timestamp),
{
}

/// What a decoded request to pair does to a connection: one without a
/// public key changes nothing; any other takes the place of a request that
/// waited before, with the desktop's fresh key pair: a private key and the
/// public key that belongs to it.
pub open spec fn after_pair_request(
    session: Session,
    device_id: Seq<char>,
    device_name: Option<Seq<char>>,
    public_key: Seq<char>,
    desktop_secret: Seq<u8>,
) -> Session {
    if public_key.len() == 0 {
        session
    } else {
        Session {
            device_id: Some(device_id),
            status_code: StatusCode::AwaitingPairing,
            pending: Some(
                Waiting {
                    device_id,
                    device_name,
                    public_key,
                    desktop_secret,
                    desktop_public: x25519_product(desktop_secret, basepoint()),
                },
            ),
            ..session
        }
    }
}

/// What a decoded request to pair calls for: one without a public key is
/// dropped; any other is reported and acknowledged.
pub open spec fn pair_request_response(
    device_id: Seq<char>,
    device_name: Option<Seq<char>>,
    public_key: Seq<char>,
    timestamp: u64,
) -> Response {
    if public_key.len() == 0 {
        Response::Drop(DropReason::MissingPublicKey)
    } else {
        Response::Deliver(Report::PairRequested(device_id, device_name), timestamp)
    }
}

/// The text of a reassembled message, if its bytes are UTF-8.
pub open spec fn decoded_text(bytes: Seq<u8>) -> Option<Seq<char>> {
    if vstd::utf8::valid_utf8(bytes) {
        Some(vstd::utf8::decode_utf8(bytes))
    } else {
        None
    }
}

/// Reads the bytes of a reassembled message as text. Bytes that are no
/// UTF-8 give nothing: the message is dropped and the connection stays.
pub fn message_text(bytes: Vec<u8>) -> (text: Option<String>)
    ensures
        match text {
            Some(inner) => decoded_text(bytes@) == Some(inner@),
            None => decoded_text(bytes@) is None,
        },
{
    match String::from_utf8(bytes) {
        Ok(inner) => Some(inner),
        Err(_) => None,
    }
}

/// The state of one connection.
pub struct ServerState {
    reassembler: MessageReassembler,
    crypto: Option<CryptoContext>,
    device_id: Option<String>,
    state: ConnectionState,
    negotiated_mtu: usize,
    status_code: StatusCode,
    pending_pairing: Option<PendingPairing>,
}

impl View for ServerState {
    type V = Session;

    closed spec fn view(&self) -> Session {
        Session {
            assembly: self.reassembler@,
            key: match self.crypto {
                Some(ctx) => Some(ctx@),
                None => None,
            },
            device_id: name_view(self.device_id),
            state: self.state,
            negotiated_mtu: self.negotiated_mtu as nat,
            status_code: self.status_code,
            pending: match self.pending_pairing {
                Some(waiting) => Some(
                    Waiting {
                        device_id: waiting.android_device_id@,
                        device_name: name_view(waiting.android_device_name),
                        public_key: waiting.android_public_key@,
                        desktop_secret: waiting.desktop_keypair.secret(),
                        desktop_public: waiting.desktop_keypair.public(),
                    },
                ),
                None => None,
            },
        }
    }
}

impl ServerState {
    /// Whether the state is one that a connection can be in.
    pub open spec fn wf(&self) -> bool {
        session_wf(self@)
    }

    /// The state of a connection that has just been opened.
    pub fn new() -> (fresh: ServerState)
        ensures
            fresh@ == fresh_session(),
            fresh.wf(),
    {
        ServerState {
            reassembler: MessageReassembler::new(),
            crypto: None,
            device_id: None,
            state: ConnectionState::AwaitingPair,
            negotiated_mtu: DEFAULT_MTU,
            status_code: StatusCode::Idle,
            pending_pairing: None,
        }
    }

    /// Where the connection stands.
    pub fn state(&self) -> (state: ConnectionState)
        ensures
            state == self@.state,
    {
        self.state
    }

    /// Status to publish.
    pub fn status_code(&self) -> (status: StatusCode)
        ensures
            status == self@.status_code,
    {
        self.status_code
    }

    /// The MTU in force.
    pub fn negotiated_mtu(&self) -> (mtu: usize)
        ensures
            mtu == self@.negotiated_mtu,
    {
        self.negotiated_mtu
    }

    /// The identifier of the phone that asked to pair last.
    pub fn device_id(&self) -> (id: Option<String>)
        ensures
            name_view(id) == self@.device_id,
    {
        match &self.device_id {
            Some(id) => Some(id.clone()),
            None => None,
        }
    }

    /// Whether a request to pair waits for the user's decision.
    pub fn has_pending_pairing(&self) -> (waiting: bool)
        ensures
            waiting == self@.pending is Some,
    {
        self.pending_pairing.is_some()
    }

    /// Takes in a packet that was written with the given MTU. A larger MTU
    /// than the one in force takes its place. Returns the bytes of a
    /// message when the packet completes one.
    pub fn on_packet(&mut self, data: &[u8], write_mtu: usize) -> (complete: Option<Vec<u8>>)
        requires
            old(self).wf(),
        ensures
            final(self).wf(),
            final(self)@ == (Session {
                assembly: step(old(self)@.assembly, data@).0,
                negotiated_mtu: if write_mtu > old(self)@.negotiated_mtu {
                    write_mtu as nat
                } else {
                    old(self)@.negotiated_mtu
                },
                ..old(self)@
            }),
            match complete {
                Some(bytes) => step(old(self)@.assembly, data@).1 == Some(bytes@),
                None => step(old(self)@.assembly, data@).1 is None,
            },
    {
        if write_mtu > self.negotiated_mtu {
            self.negotiated_mtu = write_mtu;
        }
        self.reassembler.process_packet(data)
    }

    /// Decides what a decoded message calls for. The connection stays as
    /// it is.
    pub fn on_message(&self, message: Message) -> (reaction: Reaction)
        requires
            self.wf(),
        ensures
            reaction@ == response_to(self@, message@),
    {
        let mut message = message;
        match message.message_type {
            MessageType::PairReq => Reaction::DecodePairRequest {
                payload: message.payload,
                timestamp: message.timestamp,
            },
            MessageType::Heartbeat => Reaction::Acknowledge { acknowledge: message.timestamp },
            MessageType::Ack => Reaction::Drop(DropReason::Ignored),
            MessageType::PairAck => Reaction::Drop(DropReason::Ignored),
            _ => {
                let authenticated = match self.state {
                    ConnectionState::Authenticated => true,
                    _ => false,
                };
                if !authenticated {
                    return Reaction::Drop(DropReason::NotAuthenticated);
                }
                match &self.crypto {
                    None => Reaction::Drop(DropReason::NotAuthenticated),
                    Some(ctx) => {
                        let ghost sent = message@;
                        match message.verify_and_decrypt(ctx) {
                            Err(why) => Reaction::Drop(DropReason::Rejected(why)),
                            Ok(_) => {
                                let timestamp = message.timestamp;
                                match message.message_type {
                                    MessageType::Text => Reaction::Deliver {
                                        event: ConnectionEvent::TextReceived(message.payload),
                                        acknowledge: timestamp,
                                    },
                                    MessageType::Command => Reaction::Deliver {
                                        event: ConnectionEvent::CommandReceived(message.payload),
                                        acknowledge: timestamp,
                                    },
                                    _ => Reaction::DecodeWord {
                                        payload: message.payload,
                                        timestamp,
                                    },
                                }
                            },
                        }
                    },
                }
            },
        }
    }

    /// Takes in a decoded request to pair, with the key pair that the
    /// desktop is to use for it. A request without public key is dropped
    /// and nothing changes. Any other is kept for the user's decision, in
    /// the place of one that waited before; it is reported and
    /// acknowledged at once, so that the phone does not give up while the
    /// user decides.
    pub fn on_pair_request_with(
        &mut self,
        payload: PairRequestPayload,
        timestamp: u64,
        desktop_keypair: EcdhKeypair,
    ) -> (reaction: Reaction)
        requires
            old(self).wf(),
            desktop_keypair.wf(),
        ensures
            final(self).wf(),
            final(self)@ == after_pair_request(
                old(self)@,
                payload.device_id@,
                name_view(payload.device_name),
                payload.public_key@,
                desktop_keypair.secret(),
            ),
            reaction@ == pair_request_response(
                payload.device_id@,
                name_view(payload.device_name),
                payload.public_key@,
                timestamp,
            ),
    {
        if payload.public_key.as_str().unicode_len() == 0 {
            return Reaction::Drop(DropReason::MissingPublicKey);
        }
        let device_name = match &payload.device_name {
            Some(name) => Some(name.clone()),
            None => None,
        };
        self.device_id = Some(payload.device_id.clone());
        self.status_code = StatusCode::AwaitingPairing;
        self.pending_pairing = Some(
            PendingPairing {
                android_device_id: payload.device_id.clone(),
                android_device_name: device_name,
                android_public_key: payload.public_key,
                desktop_keypair,
            },
        );
        Reaction::Deliver {
            event: ConnectionEvent::PairRequested {
                device_id: payload.device_id,
                device_name: payload.device_name,
            },
            acknowledge: timestamp,
        }
    }

    /// Takes in a decoded request to pair. A request without public key is
    /// dropped and nothing changes. For any other a fresh key pair is
    /// made, and the request is kept with it as `on_pair_request_with`
    /// says; where the operating system gives no random bytes for the key
    /// pair, the request is dropped and nothing changes.
    pub fn on_pair_request(&mut self, payload: PairRequestPayload, timestamp: u64) -> (reaction:
        Reaction)
        requires
            old(self).wf(),
        ensures
            final(self).wf(),
            payload.public_key@.len() == 0 ==> final(self)@ == old(self)@ && reaction@
                == Response::Drop(DropReason::MissingPublicKey),
            payload.public_key@.len() > 0 ==> {
                ||| final(self)@ == old(self)@ && reaction@ == Response::Drop(
                    DropReason::KeyPairUnavailable,
                )
                ||| reaction@ == Response::Deliver(
                    Report::PairRequested(payload.device_id@, name_view(payload.device_name)),
                    timestamp,
                ) && exists|desktop_secret: Seq<u8>|
                    desktop_secret.len() == PUBLIC_KEY_SIZE && final(self)@
                        == #[trigger] after_pair_request(
                        old(self)@,
                        payload.device_id@,
                        name_view(payload.device_name),
                        payload.public_key@,
                        desktop_secret,
                    )
            },
    {
        if payload.public_key.as_str().unicode_len() == 0 {
            return Reaction::Drop(DropReason::MissingPublicKey);
        }
        match EcdhKeypair::generate() {
            None => Reaction::Drop(DropReason::KeyPairUnavailable),
            Some(desktop_keypair) => {
                let ghost desktop_secret = desktop_keypair.secret();
                let reaction = self.on_pair_request_with(payload, timestamp, desktop_keypair);
                assert(self@ == after_pair_request(
                    old(self)@,
                    payload.device_id@,
                    name_view(payload.device_name),
                    payload.public_key@,
                    desktop_secret,
                ));
                reaction
            },
        }
    }

    /// Takes in a decoded request to pair by PIN, which needs no public
    /// key: the phone's identifier is remembered for the derivation of the
    /// key, and the request is reported and acknowledged at once. A request
    /// that waits for a key exchange stays.
    pub fn on_pin_pair_request(&mut self, payload: PairRequestPayload, timestamp: u64) -> (reaction:
        Reaction)
        requires
            old(self).wf(),
        ensures
            final(self).wf(),
            final(self)@ == (Session { device_id: Some(payload.device_id@), ..old(self)@ }),
            reaction@ == Response::Deliver(
                Report::PairRequested(payload.device_id@, name_view(payload.device_name)),
                timestamp,
            ),
    {
        self.device_id = Some(payload.device_id.clone());
        Reaction::Deliver {
            event: ConnectionEvent::PairRequested {
                device_id: payload.device_id,
                device_name: payload.device_name,
            },
            acknowledge: timestamp,
        }
    }

    /// Turns a decoded word into what it calls for: a word without
    /// payload is dropped, any other is reported and acknowledged.
    pub fn on_word(&self, payload: Option<WordPayload>, timestamp: u64) -> (reaction: Reaction)
        ensures
            reaction@ == match payload {
                None => Response::Drop(DropReason::MalformedPayload),
                Some(inner) => Response::Deliver(
                    Report::Word(inner.word@, inner.seq, inner.session@),
                    timestamp,
                ),
            },
    {
        match payload {
            None => Reaction::Drop(DropReason::MalformedPayload),
            Some(inner) => Reaction::Deliver {
                event: ConnectionEvent::WordReceived {
                    word: inner.word,
                    seq: inner.seq,
                    session: inner.session,
                },
                acknowledge: timestamp,
            },
        }
    }

    /// The user approves the request that waits: the key exchange is run,
    /// the key of the session is derived from the shared secret and both
    /// identifiers, and the connection is authenticated. The request is
    /// used up whether or not the exchange succeeds; where it fails, the
    /// connection stays unauthenticated as it was.
    pub fn approve_pairing(&mut self, linux_device_id: &str) -> (done: Result<
        PairingApproved,
        PairingError,
    >)
        requires
            old(self).wf(),
        ensures
            final(self).wf(),
            final(self)@.pending is None,
            match done {
                Err(why) => {
                    &&& final(self)@ == (Session { pending: None, ..old(self)@ })
                    &&& why == match old(self)@.pending {
                        None => PairingError::NoPendingPairing,
                        Some(waiting) => PairingError::KeyExchange(
                            peer_key_check(waiting.public_key)->Err_0,
                        ),
                    }
                    &&& old(self)@.pending matches Some(waiting) ==> peer_key_check(waiting.public_key) is Err
                },
                Ok(approved) => {
                    &&& old(self)@.pending matches Some(waiting) && peer_key_check(waiting.public_key) is Ok
                        && approved.event@ == Report::Connected(
                        match waiting.device_name {
                            Some(name) => name,
                            None => waiting.device_id,
                        },
                    ) && final(self)@.key == Some(
                        derived_key_from_ecdh(
                            x25519_product(
                                waiting.desktop_secret,
                                peer_key_check(waiting.public_key)->Ok_0,
                            ),
                            waiting.device_id,
                            linux_device_id@,
                        ),
                    )
                    &&& final(self)@ == (Session {
                        key: final(self)@.key,
                        state: ConnectionState::Authenticated,
                        status_code: StatusCode::Paired,
                        pending: None,
                        ..old(self)@
                    })
                    &&& approved.status == StatusCode::Paired
                    &&& approved.ack.device_id@ == linux_device_id@
                    &&& approved.ack.status == PairStatus::Success
                    &&& approved.ack.error is None
                    &&& approved.ack.public_key matches Some(sent) && old(self)@.pending matches Some(
                        waiting,
                    ) && sent@ == base64_text(waiting.desktop_public)
                    &&& approved.ack.protocol_version == Some(PROTOCOL_VERSION)
                },
            },
    {
        let waiting = match self.pending_pairing.take() {
            None => {
                return Err(PairingError::NoPendingPairing);
            },
            Some(waiting) => waiting,
        };
        let desktop_public_key = waiting.desktop_keypair.public_key_base64();
        let shared = match waiting.desktop_keypair.compute_shared_secret_base64(
            waiting.android_public_key.as_str(),
        ) {
            Err(why) => {
                return Err(PairingError::KeyExchange(why));
            },
            Ok(shared) => shared,
        };
        let ctx = CryptoContext::from_ecdh(
            &shared,
            waiting.android_device_id.as_str(),
            linux_device_id,
        );
        let ack = PairAckPayload::success_with_key(linux_device_id, desktop_public_key);
        assert(shared@.len() == PUBLIC_KEY_SIZE);
        assert(ctx@ == derived_key_from_ecdh(
            shared@,
            waiting.android_device_id@,
            linux_device_id@,
        ));
        self.crypto = Some(ctx);
        self.state = ConnectionState::Authenticated;
        self.status_code = StatusCode::Paired;
        proof {
            let asked = old(self)@.pending->0;
            assert(asked.device_id == waiting.android_device_id@);
            assert(self@.key == Some(
                derived_key_from_ecdh(shared@, asked.device_id, linux_device_id@),
            ));
        }
        let device_name = match waiting.android_device_name {
            Some(name) => name,
            None => waiting.android_device_id,
        };
        Ok(
            PairingApproved {
                ack,
                status: StatusCode::Paired,
                event: ConnectionEvent::Connected { device_name },
            },
        )
    }

    /// The user confirms pairing by a PIN that both sides know: the key of
    /// the session is derived from the PIN and both identifiers, and the
    /// connection is authenticated. A request that waited for a key
    /// exchange is settled with it. Where no phone has named itself yet,
    /// nothing changes. The answer for the phone carries no public key.
    pub fn approve_with_pin(&mut self, pin: &str, linux_device_id: &str) -> (done: Result<
        PairAckPayload,
        PairingError,
    >)
        requires
            old(self).wf(),
        ensures
            final(self).wf(),
            match done {
                Err(why) => {
                    &&& why == PairingError::NoDeviceId
                    &&& old(self)@.device_id is None
                    &&& final(self)@ == old(self)@
                },
                Ok(ack) => {
                    &&& old(self)@.device_id matches Some(id) && final(self)@ == (Session {
                        key: Some(derived_key(pin@, id, linux_device_id@)),
                        state: ConnectionState::Authenticated,
                        status_code: StatusCode::Paired,
                        pending: None,
                        ..old(self)@
                    })
                    &&& ack.device_id@ == linux_device_id@
                    &&& ack.status == PairStatus::Success
                    &&& ack.error is None
                    &&& ack.public_key is None
                    &&& ack.protocol_version == Some(PROTOCOL_VERSION)
                },
            },
    {
        let ctx = match &self.device_id {
            None => {
                return Err(PairingError::NoDeviceId);
            },
            Some(id) => CryptoContext::from_pin(pin, id.as_str(), linux_device_id),
        };
        self.crypto = Some(ctx);
        self.state = ConnectionState::Authenticated;
        self.status_code = StatusCode::Paired;
        self.pending_pairing = None;
        Ok(PairAckPayload::success(linux_device_id))
    }

    /// The user refuses the request that waits: the request is dropped and
    /// the answer to the phone says why. The answer is sent unsigned.
    pub fn reject_pairing(&mut self, linux_device_id: &str, reason: &str) -> (ack: PairAckPayload)
        requires
            old(self).wf(),
        ensures
            final(self).wf(),
            final(self)@ == (Session { pending: None, ..old(self)@ }),
            ack.device_id@ == linux_device_id@,
            ack.status == PairStatus::Error,
            ack.error matches Some(why) && why@ == reason@,
            ack.public_key is None,
    {
        self.pending_pairing = None;
        PairAckPayload::error(linux_device_id, reason)
    }

    /// The transport was closed or failed: the connection is closed for
    /// good, and key and pending request are dropped with it.
    pub fn on_disconnect(&mut self) -> (event: ConnectionEvent)
        requires
            old(self).wf(),
        ensures
            final(self).wf(),
            final(self)@ == (Session {
                assembly: crate::reassembler::idle(),
                key: None,
                state: ConnectionState::Disconnected,
                status_code: StatusCode::Idle,
                pending: None,
                ..old(self)@
            }),
            event@ == Report::Disconnected,
    {
        self.reassembler.reset();
        self.crypto = None;
        self.state = ConnectionState::Disconnected;
        self.status_code = StatusCode::Idle;
        self.pending_pairing = None;
        ConnectionEvent::Disconnected
    }

    /// The acknowledgment of a message, as it is sent on this connection:
    /// signed where the connection has a key, bare where it has none.
    pub fn acknowledgment(&self, timestamp: u64) -> (ack: Message)
        ensures
            ack@.version == PROTOCOL_VERSION,
            ack@.message_type == MessageType::Ack,
            ack@.payload == decimal_text(timestamp as nat),
            match self@.key {
                Some(key) => verifies(ack@, key),
                None => ack@.checksum.len() == 0,
            },
    {
        let mut ack = Message::ack(timestamp);
        match &self.crypto {
            Some(ctx) => {
                ack.sign(ctx);
            },
            None => {},
        }
        ack
    }

    /// Protects a message for sending on this connection: encrypted where
    /// its kind is sensitive, and signed, where the connection has a key;
    /// as it is where it has none.
    pub fn outgoing(&self, message: Message) -> (ready: Result<Message, CryptoError>)
        ensures
            match ready {
                Ok(out) => match self@.key {
                    None => out@ == message@,
                    Some(key) => opened_message(out@, key) == Ok::<Envelope, MessageError>(
                        Envelope { checksum: out@.checksum, ..message@ },
                    ),
                },
                Err(_) => self@.key is Some && message@.message_type.sensitive(),
            },
    {
        let mut out = message;
        match &self.crypto {
            Some(ctx) => match out.sign_and_encrypt(ctx) {
                Ok(_) => Ok(out),
                Err(why) => Err(why),
            },
            None => Ok(out),
        }
    }

    /// The answer to an approved request to pair, as it is sent: the
    /// encoded payload in a message that is signed with the new key and
    /// not encrypted, since the phone has yet to derive the key.
    pub fn pair_ack_message(&self, encoded_payload: &str) -> (ack: Message)
        ensures
            ack@.version == PROTOCOL_VERSION,
            ack@.message_type == MessageType::PairAck,
            ack@.payload == encoded_payload@,
            match self@.key {
                Some(key) => verifies(ack@, key),
                None => ack@.checksum.len() == 0,
            },
    {
        let mut ack = Message::new(MessageType::PairAck, encoded_payload);
        match &self.crypto {
            Some(ctx) => {
                ack.sign(ctx);
            },
            None => {},
        }
        ack
    }

    /// Splits the bytes of an encoded message into packets for the MTU in
    /// force.
    pub fn frame(&self, encoded: &[u8]) -> (packets: Vec<Vec<u8>>)
        requires
            self.wf(),
        ensures
            packets_view(packets@) == chunks(encoded@, self@.negotiated_mtu as int),
    {
        chunk_message(encoded, self.negotiated_mtu)
    }
}

} // verus!
