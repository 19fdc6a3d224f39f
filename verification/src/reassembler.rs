//! Splitting a message into link packets, and putting the packets together
//! again.
//!
//! A packet is a flag byte, a sequence byte and payload. The first packet of
//! a message also carries the message length in two little-endian bytes.

use vstd::prelude::*;
use vstd::slice::slice_subrange;
use crate::ble_constants::{
    payload_capacity, effective_payload_size, ATT_OVERHEAD, FIRST, HEADER_SIZE_FIRST, LAST,
};

verus! {

/// What a reassembler remembers between two packets.
pub struct Assembly {
    /// Payload gathered so far.
    pub buffer: Seq<u8>,
    /// Length that the first packet declared.
    pub expected_length: nat,
    /// Sequence number that the next continuation must carry.
    pub expected_seq: u8,
    /// Whether a message has been started and not yet ended.
    pub in_progress: bool,
}

/// The state in which no message is under way.
pub open spec fn idle() -> Assembly {
    Assembly { buffer: Seq::empty(), expected_length: 0, expected_seq: 0, in_progress: false }
}

/// The sequence number after `seq`: one more, and 0 after 255.
pub open spec fn next_seq(seq: u8) -> u8 {
    if seq == 255 {
        0u8
    } else {
        (seq + 1) as u8
    }
}

/// Whether a flag byte marks a first packet.
pub open spec fn has_first(flags: u8) -> bool {
    flags & FIRST != 0
}

/// Whether a flag byte marks a last packet.
pub open spec fn has_last(flags: u8) -> bool {
    flags & LAST != 0
}

/// The length that the two length bytes of a first packet declare.
pub open spec fn declared_length(low: u8, high: u8) -> nat {
    (low as nat) + 256 * (high as nat)
}

/// The state after the payload of a packet has been taken in, and the message
/// if the packet completed one.
pub open spec fn close(taken: Assembly, flags: u8) -> (Assembly, Option<Seq<u8>>) {
    if !has_last(flags) {
        (taken, None)
    } else if taken.buffer.len() == taken.expected_length {
        (idle(), Some(taken.buffer))
    } else {
        (idle(), None)
    }
}

/// One step of reassembly: the state after `packet`, and the message that the
/// packet completed, if it completed one.
pub open spec fn step(state: Assembly, packet: Seq<u8>) -> (Assembly, Option<Seq<u8>>) {
    if packet.len() < 2 {
        (state, None)
    } else if has_first(packet[0]) {
        if packet.len() < 4 {
            (state, None)
        } else {
            close(
                Assembly {
                    buffer: packet.subrange(4, packet.len() as int),
                    expected_length: declared_length(packet[2], packet[3]),
                    expected_seq: 1,
                    in_progress: true,
                },
                packet[0],
            )
        }
    } else if state.in_progress {
        if packet[1] != state.expected_seq {
            (idle(), None)
        } else {
            close(
                Assembly {
                    buffer: state.buffer + packet.subrange(2, packet.len() as int),
                    expected_length: state.expected_length,
                    expected_seq: next_seq(state.expected_seq),
                    in_progress: true,
                },
                packet[0],
            )
        }
    } else {
        (state, None)
    }
}

/// The state after a run of packets, and the last message that they
/// completed, if any.
pub open spec fn feed(state: Assembly, packets: Seq<Seq<u8>>) -> (Assembly, Option<Seq<u8>>)
    decreases packets.len(),
{
    if packets.len() == 0 {
        (state, None)
    } else {
        let (mid, early) = step(state, packets[0]);
        let (end, late) = feed(mid, packets.drop_first());
        (
            end,
            if late is Some {
                late
            } else {
                early
            },
        )
    }
}

/// The message that a run of packets yields when fed to a fresh reassembler.
pub open spec fn reassemble(packets: Seq<Seq<u8>>) -> Option<Seq<u8>> {
    feed(idle(), packets).1
}

/// Puts the packets of a message together.
pub struct MessageReassembler {
    buffer: Vec<u8>,
    expected_length: usize,
    expected_seq: u8,
    in_progress: bool,
}

impl View for MessageReassembler {
    type V = Assembly;

    closed spec fn view(&self) -> Assembly {
        Assembly {
            buffer: self.buffer@,
            expected_length: self.expected_length as nat,
            expected_seq: self.expected_seq,
            in_progress: self.in_progress,
        }
    }
}

impl MessageReassembler {
    /// A reassembler with no message under way.
    pub fn new() -> (fresh: MessageReassembler)
        ensures
            fresh@ == idle(),
    {
        MessageReassembler {
            buffer: Vec::with_capacity(4096),
            expected_length: 0,
            expected_seq: 0,
            in_progress: false,
        }
    }

    /// Takes one packet in. Returns the message when the packet completes
    /// one; a packet that breaks the protocol drops the message under way
    /// and returns nothing.
    pub fn process_packet(&mut self, packet: &[u8]) -> (message: Option<Vec<u8>>)
        ensures
            final(self)@ == step(old(self)@, packet@).0,
            match message {
                Some(bytes) => step(old(self)@, packet@).1 == Some(bytes@),
                None => step(old(self)@, packet@).1 is None,
            },
    {
        if packet.len() < 2 {
            return None;
        }
        let flags: u8 = packet[0];
        let seq: u8 = packet[1];
        let is_first: bool = (flags & FIRST) != 0;
        let is_last: bool = (flags & LAST) != 0;

        if is_first {
            if packet.len() < 4 {
                return None;
            }
            self.buffer.clear();
            self.expected_length = (packet[2] as usize) + 256 * (packet[3] as usize);
            self.expected_seq = 0;
            self.in_progress = true;
            let payload = slice_subrange(packet, 4, packet.len());
            self.buffer.extend_from_slice(payload);
            assert(self.buffer@ =~= packet@.subrange(4, packet@.len() as int));
        } else if self.in_progress {
            if seq != self.expected_seq {
                self.reset();
                return None;
            }
            let payload = slice_subrange(packet, 2, packet.len());
            self.buffer.extend_from_slice(payload);
            assert(self.buffer@ =~= old(self).buffer@ + packet@.subrange(2, packet@.len() as int));
        } else {
            return None;
        }

        self.expected_seq = self.expected_seq.wrapping_add(1);

        if is_last {
            if self.buffer.len() == self.expected_length {
                let mut message: Vec<u8> = Vec::new();
                std::mem::swap(&mut self.buffer, &mut message);
                self.reset();
                return Some(message);
            } else {
                self.reset();
            }
        }
        None
    }

    /// Drops whatever message is under way.
    pub fn reset(&mut self)
        ensures
            final(self)@ == idle(),
    {
        self.buffer.clear();
        self.expected_length = 0;
        self.expected_seq = 0;
        self.in_progress = false;
    }

    /// Whether a message has been started and not yet ended.
    pub fn is_in_progress(&self) -> (busy: bool)
        ensures
            busy == self@.in_progress,
    {
        self.in_progress
    }

    /// Number of payload bytes gathered so far.
    pub fn buffer_size(&self) -> (size: usize)
        ensures
            size == self@.buffer.len(),
    {
        self.buffer.len()
    }
}

impl Default for MessageReassembler {
    fn default() -> (fresh: MessageReassembler)
        ensures
            fresh@ == idle(),
    {
        MessageReassembler::new()
    }
}

/// The flag byte of a packet, by its place in the message.
pub open spec fn flags_for(is_first: bool, is_last: bool) -> u8 {
    if is_first && is_last {
        0x0Cu8
    } else if is_first {
        0x08u8
    } else if is_last {
        0x04u8
    } else {
        0x00u8
    }
}

/// The header of a packet: flags and sequence number, and on a first packet
/// the low and the high byte of the message length.
pub open spec fn header(is_first: bool, is_last: bool, seq: u8, total: nat) -> Seq<u8> {
    if is_first {
        seq![flags_for(is_first, is_last), seq, (total % 256) as u8, ((total / 256) % 256) as u8]
    } else {
        seq![flags_for(is_first, is_last), seq]
    }
}

/// Number of payload bytes in the packet that starts at `offset`.
pub open spec fn chunk_size(total: int, mtu: int, offset: int) -> int {
    let room = payload_capacity(mtu, offset == 0);
    if total - offset <= room {
        total - offset
    } else {
        room
    }
}

/// The packet that carries the bytes of `data` from `offset` on.
pub open spec fn packet_at(data: Seq<u8>, mtu: int, offset: int, seq: u8) -> Seq<u8> {
    let size = chunk_size(data.len() as int, mtu, offset);
    header(offset == 0, offset + size >= data.len(), seq, data.len()) + data.subrange(
        offset,
        offset + size,
    )
}

/// The packets for the bytes of `data` from `offset` on, numbered from `seq`.
pub open spec fn chunks_from(data: Seq<u8>, mtu: int, offset: int, seq: u8) -> Seq<Seq<u8>>
    decreases data.len() - offset,
{
    if offset < 0 || offset >= data.len() || chunk_size(data.len() as int, mtu, offset) <= 0 {
        Seq::empty()
    } else {
        seq![packet_at(data, mtu, offset, seq)] + chunks_from(
            data,
            mtu,
            offset + chunk_size(data.len() as int, mtu, offset),
            next_seq(seq),
        )
    }
}

/// The packets of a message: none for an empty one.
pub open spec fn chunks(data: Seq<u8>, mtu: int) -> Seq<Seq<u8>> {
    chunks_from(data, mtu, 0, 0)
}

/// The packets of a run of byte vectors, each as a sequence.
pub open spec fn packets_view(packets: Seq<Vec<u8>>) -> Seq<Seq<u8>> {
    Seq::new(packets.len(), |i: int| packets[i]@)
}

/// Splits a message into packets that fit the given MTU. The length field
/// holds the length modulo 65536.
pub fn chunk_message(data: &[u8], mtu: usize) -> (packets: Vec<Vec<u8>>)
    requires
        mtu > ATT_OVERHEAD + HEADER_SIZE_FIRST,
    ensures
        packets_view(packets@) == chunks(data@, mtu as int),
{
    let mut packets: Vec<Vec<u8>> = Vec::new();
    if data.len() == 0 {
        assert(packets_view(packets@) =~= chunks(data@, mtu as int));
        return packets;
    }
    let mut offset: usize = 0;
    let mut seq: u8 = 0;
    assert(packets_view(packets@) + chunks_from(data@, mtu as int, 0, 0) =~= chunks(
        data@,
        mtu as int,
    ));
    while offset < data.len()
        invariant
            mtu > ATT_OVERHEAD + HEADER_SIZE_FIRST,
            offset <= data@.len(),
            packets_view(packets@) + chunks_from(data@, mtu as int, offset as int, seq) == chunks(
                data@,
                mtu as int,
            ),
        decreases data@.len() - offset,
    {
        let is_first: bool = offset == 0;
        let remaining: usize = data.len() - offset;
        let room: usize = effective_payload_size(mtu, is_first);
        let size: usize = if remaining <= room {
            remaining
        } else {
            room
        };
        let is_last: bool = offset + size >= data.len();
        assert(size as int == chunk_size(data@.len() as int, mtu as int, offset as int));
        assert(size > 0);

        let mut packet: Vec<u8> = Vec::new();
        let first_bit: u8 = if is_first {
            FIRST
        } else {
            0u8
        };
        let last_bit: u8 = if is_last {
            LAST
        } else {
            0u8
        };
        let flags_byte: u8 = first_bit | last_bit;
        assert(flags_byte == flags_for(is_first, is_last)) by {
            assert(0x08u8 | 0x04u8 == 0x0Cu8) by (bit_vector);
            assert(0x08u8 | 0x00u8 == 0x08u8) by (bit_vector);
            assert(0x00u8 | 0x04u8 == 0x04u8) by (bit_vector);
            assert(0x00u8 | 0x00u8 == 0x00u8) by (bit_vector);
        }
        packet.push(flags_byte);
        packet.push(seq);
        if is_first {
            packet.push((data.len() % 256) as u8);
            packet.push(((data.len() / 256) % 256) as u8);
        }
        assert(packet@ =~= header(is_first, is_last, seq, data@.len()));
        let payload = slice_subrange(data, offset, offset + size);
        packet.extend_from_slice(payload);
        assert(packet@ =~= packet_at(data@, mtu as int, offset as int, seq));

        let ghost before = packets_view(packets@);
        packets.push(packet);
        assert(packets_view(packets@) =~= before + seq![
            packet_at(data@, mtu as int, offset as int, seq),
        ]);
        assert(before + chunks_from(data@, mtu as int, offset as int, seq) =~= packets_view(
            packets@,
        ) + chunks_from(data@, mtu as int, offset + size, next_seq(seq)));
        seq = seq.wrapping_add(1);
        offset += size;
    }
    assert(chunks_from(data@, mtu as int, offset as int, seq) =~= Seq::<Seq<u8>>::empty());
    assert(packets_view(packets@) =~= chunks(data@, mtu as int));
    packets
}

} // verus!
