//! Identifiers, flag bits, status codes and size limits of the radio link.

use vstd::prelude::*;

verus! {

/// GATT service identifier.
pub const SERVICE_UUID: u128 = 0xa1b2c3d4_e5f6_7890_abcd_ef1234567890u128;

/// Characteristic the phone writes packets to.
pub const COMMAND_RX_UUID: u128 = 0xa1b2c3d4_e5f6_7890_abcd_ef1234567891u128;

/// Characteristic the desktop notifies responses on.
pub const RESPONSE_TX_UUID: u128 = 0xa1b2c3d4_e5f6_7890_abcd_ef1234567892u128;

/// Characteristic carrying the connection and pairing status.
pub const STATUS_UUID: u128 = 0xa1b2c3d4_e5f6_7890_abcd_ef1234567893u128;

/// Characteristic carrying the negotiated MTU.
pub const MTU_INFO_UUID: u128 = 0xa1b2c3d4_e5f6_7890_abcd_ef1234567894u128;

/// Flag bit of the first packet of a message.
pub const FIRST: u8 = 0x08u8;

/// Flag bit of the last packet of a message.
pub const LAST: u8 = 0x04u8;

/// Flag bit asking for an acknowledgment. Reserved: nothing acts on it.
pub const ACK_REQ: u8 = 0x02u8;

/// MTU every device supports.
pub const DEFAULT_MTU: usize = 23usize;

/// MTU the desktop tries to negotiate.
pub const TARGET_MTU: usize = 512usize;

/// Smallest MTU the link is specified for.
pub const MIN_MTU: usize = 23usize;

/// Bytes the attribute protocol takes from every packet.
pub const ATT_OVERHEAD: usize = 3usize;

/// Header bytes of a first packet: flags, sequence, two length bytes.
pub const HEADER_SIZE_FIRST: usize = 4usize;

/// Header bytes of a continuation packet: flags, sequence.
pub const HEADER_SIZE_CONTINUATION: usize = 2usize;

/// Status reported on the status characteristic.
#[derive(Debug, Clone, Copy, PartialEq, Eq, Structural)]
pub enum StatusCode {
    /// Not paired.
    Idle,
    /// A pairing request waits for the user's decision.
    AwaitingPairing,
    /// Paired and ready.
    Paired,
    /// Processing a command.
    Busy,
    /// Error state.
    Error,
}

impl StatusCode {
    /// The byte that stands for this status on the wire.
    pub open spec fn code(self) -> u8 {
        match self {
            StatusCode::Idle => 0x00u8,
            StatusCode::AwaitingPairing => 0x01u8,
            StatusCode::Paired => 0x02u8,
            StatusCode::Busy => 0x03u8,
            StatusCode::Error => 0xFFu8,
        }
    }

    /// The status as the one byte sent on the status characteristic.
    pub fn as_bytes(&self) -> (bytes: Vec<u8>)
        ensures
            bytes@ == seq![self.code()],
    {
        let b: u8 = match self {
            StatusCode::Idle => 0x00u8,
            StatusCode::AwaitingPairing => 0x01u8,
            StatusCode::Paired => 0x02u8,
            StatusCode::Busy => 0x03u8,
            StatusCode::Error => 0xFFu8,
        };
        let mut bytes: Vec<u8> = Vec::new();
        bytes.push(b);
        bytes
    }

    /// The status a byte stands for, if any.
    pub open spec fn of_code(value: u8) -> Option<StatusCode> {
        if value == 0x00u8 {
            Some(StatusCode::Idle)
        } else if value == 0x01u8 {
            Some(StatusCode::AwaitingPairing)
        } else if value == 0x02u8 {
            Some(StatusCode::Paired)
        } else if value == 0x03u8 {
            Some(StatusCode::Busy)
        } else if value == 0xFFu8 {
            Some(StatusCode::Error)
        } else {
            None
        }
    }

    /// The status a byte stands for, if any.
    pub fn from_u8(value: u8) -> (status: Option<StatusCode>)
        ensures
            status == StatusCode::of_code(value),
    {
        if value == 0x00u8 {
            Some(StatusCode::Idle)
        } else if value == 0x01u8 {
            Some(StatusCode::AwaitingPairing)
        } else if value == 0x02u8 {
            Some(StatusCode::Paired)
        } else if value == 0x03u8 {
            Some(StatusCode::Busy)
        } else if value == 0xFFu8 {
            Some(StatusCode::Error)
        } else {
            None
        }
    }
}

/// Byte and status stand for each other: the byte of a status gives the
/// status back, and a byte that gives a status is the byte of that status.
pub proof fn lemma_status_code_round_trip(status: StatusCode, value: u8)
    ensures
        StatusCode::of_code(status.code()) == Some(status),
        StatusCode::of_code(value) matches Some(found) ==> found.code() == value,
{
}

/// Header bytes of a packet, by its place in the message.
pub open spec fn header_size(is_first: bool) -> int {
    if is_first {
        HEADER_SIZE_FIRST as int
    } else {
        HEADER_SIZE_CONTINUATION as int
    }
}

/// Payload bytes that fit in one packet at the given MTU.
pub open spec fn payload_capacity(mtu: int, is_first: bool) -> int {
    mtu - ATT_OVERHEAD as int - header_size(is_first)
}

/// Payload bytes that fit in one packet at the given MTU.
pub fn effective_payload_size(mtu: usize, is_first: bool) -> (size: usize)
    requires
        mtu >= ATT_OVERHEAD + HEADER_SIZE_FIRST,
    ensures
        size as int == payload_capacity(mtu as int, is_first),
{
    if is_first {
        mtu - ATT_OVERHEAD - HEADER_SIZE_FIRST
    } else {
        mtu - ATT_OVERHEAD - HEADER_SIZE_CONTINUATION
    }
}

} // verus!
