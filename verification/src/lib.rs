//! Desktop-side core of a speech-to-keyboard bridge: packet reassembly,
//! message protection, pairing and voice-command recognition.

pub mod ble_constants;
pub mod clock;
pub mod commands;
pub mod config;
pub mod connection;
pub mod crypto;
pub mod ecdh;
pub mod events;
pub mod history;
pub mod injector;
pub mod keys;
pub mod matcher;
pub mod matcher_laws;
pub mod pairing;
pub mod protocol;
pub mod protocol_laws;
pub mod reassembler;
pub mod reassembler_laws;
pub mod state;
pub mod text;
pub mod tray;
pub mod voice_commands;
pub mod wayland;
pub mod word_buffer;
