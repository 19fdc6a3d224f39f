//! What holds of chunking and reassembly for every message and every MTU.

use vstd::prelude::*;
use crate::ble_constants::{ATT_OVERHEAD, HEADER_SIZE_FIRST};
use crate::reassembler::{
    chunk_size, chunks, chunks_from, declared_length, feed, flags_for, has_first, has_last, header,
    idle, next_seq, packet_at, reassemble, step, Assembly,
};

verus! {

/// The largest message length that the two length bytes can declare.
pub const MAX_MESSAGE_LEN: usize = 65535usize;

/// Which flag bits each of the four flag bytes holds.
pub proof fn lemma_flag_bits(is_first: bool, is_last: bool)
    ensures
        has_first(flags_for(is_first, is_last)) == is_first,
        has_last(flags_for(is_first, is_last)) == is_last,
{
    assert(0x0Cu8 & 0x08u8 != 0) by (bit_vector);
    assert(0x0Cu8 & 0x04u8 != 0) by (bit_vector);
    assert(0x08u8 & 0x08u8 != 0) by (bit_vector);
    assert(0x08u8 & 0x04u8 == 0) by (bit_vector);
    assert(0x04u8 & 0x08u8 == 0) by (bit_vector);
    assert(0x04u8 & 0x04u8 != 0) by (bit_vector);
    assert(0x00u8 & 0x08u8 == 0) by (bit_vector);
    assert(0x00u8 & 0x04u8 == 0) by (bit_vector);
}

/// The packets from an offset inside the message on are one packet and the
/// packets from its end on.
proof fn lemma_chunks_unfold(data: Seq<u8>, mtu: int, offset: int, seq: u8)
    requires
        mtu > ATT_OVERHEAD + HEADER_SIZE_FIRST,
        0 <= offset < data.len(),
    ensures
        chunk_size(data.len() as int, mtu, offset) > 0,
        chunks_from(data, mtu, offset, seq).len() >= 1,
        chunks_from(data, mtu, offset, seq)[0] == packet_at(data, mtu, offset, seq),
        chunks_from(data, mtu, offset, seq).drop_first() == chunks_from(
            data,
            mtu,
            offset + chunk_size(data.len() as int, mtu, offset),
            next_seq(seq),
        ),
{
    let size = chunk_size(data.len() as int, mtu, offset);
    let rest = chunks_from(data, mtu, offset + size, next_seq(seq));
    let all = seq![packet_at(data, mtu, offset, seq)] + rest;
    assert(chunks_from(data, mtu, offset, seq) == all);
    assert(all.drop_first() =~= rest);
}

/// Feeding the continuation packets of a message to a reassembler that
/// holds the bytes before them completes the message.
proof fn lemma_feed_rest(data: Seq<u8>, mtu: int, offset: int, seq: u8, state: Assembly)
    requires
        mtu > ATT_OVERHEAD + HEADER_SIZE_FIRST,
        0 < offset < data.len(),
        state == (Assembly {
            buffer: data.subrange(0, offset),
            expected_length: data.len(),
            expected_seq: seq,
            in_progress: true,
        }),
    ensures
        feed(state, chunks_from(data, mtu, offset, seq)) == (idle(), Some(data)),
    decreases data.len() - offset,
{
    lemma_chunks_unfold(data, mtu, offset, seq);
    let size = chunk_size(data.len() as int, mtu, offset);
    let is_last = offset + size >= data.len();
    let packet = packet_at(data, mtu, offset, seq);
    let all = chunks_from(data, mtu, offset, seq);
    let rest = chunks_from(data, mtu, offset + size, next_seq(seq));
    lemma_flag_bits(false, is_last);
    assert(packet =~= seq![flags_for(false, is_last), seq] + data.subrange(offset, offset + size));
    assert(packet[0] == flags_for(false, is_last));
    assert(packet[1] == seq);
    assert(packet.subrange(2, packet.len() as int) =~= data.subrange(offset, offset + size));
    assert(data.subrange(0, offset) + data.subrange(offset, offset + size) =~= data.subrange(
        0,
        offset + size,
    ));
    if is_last {
        assert(data.subrange(0, offset + size) =~= data);
        assert(step(state, packet) == (idle(), Some(data)));
        assert(rest =~= Seq::<Seq<u8>>::empty());
        assert(feed(idle(), rest) == (idle(), None::<Seq<u8>>));
    } else {
        let mid = Assembly {
            buffer: data.subrange(0, offset + size),
            expected_length: data.len(),
            expected_seq: next_seq(seq),
            in_progress: true,
        };
        assert(step(state, packet) == (mid, None::<Seq<u8>>));
        lemma_feed_rest(data, mtu, offset + size, next_seq(seq), mid);
    }
    assert(all[0] == packet);
    assert(all.drop_first() == rest);
}

/// Chunking and reassembly are inverse: whatever state a reassembler is in,
/// feeding it the packets of a non-empty message whose length fits the
/// length field yields that message and leaves the reassembler idle.
pub proof fn lemma_feed_chunks(state: Assembly, data: Seq<u8>, mtu: int)
    requires
        mtu > ATT_OVERHEAD + HEADER_SIZE_FIRST,
        0 < data.len() <= MAX_MESSAGE_LEN,
    ensures
        feed(state, chunks(data, mtu)) == (idle(), Some(data)),
{
    lemma_chunks_unfold(data, mtu, 0, 0);
    let size = chunk_size(data.len() as int, mtu, 0);
    let is_last = size >= data.len();
    let packet = packet_at(data, mtu, 0, 0);
    let all = chunks(data, mtu);
    let rest = chunks_from(data, mtu, size, 1);
    lemma_flag_bits(true, is_last);
    let total = data.len();
    assert(packet =~= seq![
        flags_for(true, is_last),
        0u8,
        (total % 256) as u8,
        ((total / 256) % 256) as u8,
    ] + data.subrange(0, size));
    assert(packet.len() >= 4);
    assert(packet[0] == flags_for(true, is_last));
    assert(packet[2] == (total % 256) as u8);
    assert(packet[3] == ((total / 256) % 256) as u8);
    assert(declared_length(packet[2], packet[3]) == total);
    assert(packet.subrange(4, packet.len() as int) =~= data.subrange(0, size));
    assert(next_seq(0) == 1);
    if is_last {
        assert(data.subrange(0, size) =~= data);
        assert(step(state, packet) == (idle(), Some(data)));
        assert(rest =~= Seq::<Seq<u8>>::empty());
        assert(feed(idle(), rest) == (idle(), None::<Seq<u8>>));
    } else {
        let mid = Assembly {
            buffer: data.subrange(0, size),
            expected_length: total,
            expected_seq: 1,
            in_progress: true,
        };
        assert(step(state, packet) == (mid, None::<Seq<u8>>));
        lemma_feed_rest(data, mtu, size, 1, mid);
    }
    assert(all[0] == packet);
    assert(all.drop_first() == rest);
}

/// Round trip: the packets of a non-empty message of at most 65535 bytes,
/// fed to a fresh reassembler, give the message back.
pub proof fn lemma_chunk_reassemble_round_trip(data: Seq<u8>, mtu: int)
    requires
        mtu > ATT_OVERHEAD + HEADER_SIZE_FIRST,
        0 < data.len() <= MAX_MESSAGE_LEN,
    ensures
        reassemble(chunks(data, mtu)) == Some(data),
{
    lemma_feed_chunks(idle(), data, mtu);
}

/// An empty message has no packets.
pub proof fn lemma_chunks_of_empty(data: Seq<u8>, mtu: int)
    requires
        data.len() == 0,
    ensures
        chunks(data, mtu).len() == 0,
{
}

/// Shape of the packets from an offset on: the `i`-th of them carries the
/// sequence number `seq + i` modulo 256, is marked first only if it starts
/// the message, is marked last only if it is the last of them, and fits the
/// MTU; and their payloads, in order, are the bytes from the offset on.
proof fn lemma_chunks_from_shape(data: Seq<u8>, mtu: int, offset: int, seq: u8, i: int)
    requires
        mtu > ATT_OVERHEAD + HEADER_SIZE_FIRST,
        0 <= offset < data.len(),
        0 <= i < chunks_from(data, mtu, offset, seq).len(),
    ensures
        chunks_from(data, mtu, offset, seq)[i].len() >= 3,
        chunks_from(data, mtu, offset, seq)[i].len() + ATT_OVERHEAD <= mtu,
        chunks_from(data, mtu, offset, seq)[i][1] as int == (seq + i) % 256,
        has_first(chunks_from(data, mtu, offset, seq)[i][0]) <==> (offset == 0 && i == 0),
        has_last(chunks_from(data, mtu, offset, seq)[i][0]) <==> i == chunks_from(
            data,
            mtu,
            offset,
            seq,
        ).len() - 1,
    decreases i,
{
    lemma_chunks_unfold(data, mtu, offset, seq);
    let size = chunk_size(data.len() as int, mtu, offset);
    let is_last = offset + size >= data.len();
    let all = chunks_from(data, mtu, offset, seq);
    let rest = chunks_from(data, mtu, offset + size, next_seq(seq));
    assert(rest == all.drop_first());
    if i == 0 {
        lemma_flag_bits(offset == 0, is_last);
        let packet = packet_at(data, mtu, offset, seq);
        assert(packet == header(offset == 0, is_last, seq, data.len()) + data.subrange(
            offset,
            offset + size,
        ));
        assert(packet[0] == flags_for(offset == 0, is_last));
        assert(packet[1] == seq);
        if is_last {
            assert(rest =~= Seq::<Seq<u8>>::empty());
        } else {
            lemma_chunks_unfold(data, mtu, offset + size, next_seq(seq));
        }
    } else {
        assert(all[i] == rest[i - 1]);
        assert(offset + size < data.len()) by {
            if offset + size >= data.len() {
                assert(rest =~= Seq::<Seq<u8>>::empty());
            }
        }
        lemma_chunks_from_shape(data, mtu, offset + size, next_seq(seq), i - 1);
        assert((next_seq(seq) + (i - 1)) % 256 == (seq + i) % 256);
    }
}

/// Shape of the packets of a message: a non-empty message has at least one
/// packet; exactly the first packet is marked first and exactly the last is
/// marked last; the `i`-th packet carries the sequence number `i` modulo 256;
/// and no packet is longer than the MTU allows.
pub proof fn lemma_chunks_shape(data: Seq<u8>, mtu: int)
    requires
        mtu > ATT_OVERHEAD + HEADER_SIZE_FIRST,
        data.len() > 0,
    ensures
        chunks(data, mtu).len() >= 1,
        forall|i: int|
            0 <= i < chunks(data, mtu).len() ==> {
                &&& (#[trigger] chunks(data, mtu)[i]).len() >= 3
                &&& chunks(data, mtu)[i].len() + ATT_OVERHEAD <= mtu
                &&& chunks(data, mtu)[i][1] as int == i % 256
                &&& (has_first(chunks(data, mtu)[i][0]) <==> i == 0)
                &&& (has_last(chunks(data, mtu)[i][0]) <==> i == chunks(data, mtu).len() - 1)
            },
{
    lemma_chunks_unfold(data, mtu, 0, 0);
    assert forall|i: int| 0 <= i < chunks(data, mtu).len() implies {
        &&& (#[trigger] chunks(data, mtu)[i]).len() >= 3
        &&& chunks(data, mtu)[i].len() + ATT_OVERHEAD <= mtu
        &&& chunks(data, mtu)[i][1] as int == i % 256
        &&& (has_first(chunks(data, mtu)[i][0]) <==> i == 0)
        &&& (has_last(chunks(data, mtu)[i][0]) <==> i == chunks(data, mtu).len() - 1)
    } by {
        lemma_chunks_from_shape(data, mtu, 0, 0, i);
    }
}

/// The payloads of the packets from an offset on, one after another.
pub open spec fn payloads_from(packets: Seq<Seq<u8>>, at_start: bool) -> Seq<u8>
    decreases packets.len(),
{
    if packets.len() == 0 {
        Seq::empty()
    } else {
        let skip: int = if at_start {
            4
        } else {
            2
        };
        packets[0].subrange(skip, packets[0].len() as int) + payloads_from(
            packets.drop_first(),
            false,
        )
    }
}

/// The payloads of the packets from an offset on are the bytes from it on.
proof fn lemma_payloads_from(data: Seq<u8>, mtu: int, offset: int, seq: u8)
    requires
        mtu > ATT_OVERHEAD + HEADER_SIZE_FIRST,
        0 <= offset <= data.len(),
    ensures
        payloads_from(chunks_from(data, mtu, offset, seq), offset == 0) == data.subrange(
            offset,
            data.len() as int,
        ),
    decreases data.len() - offset,
{
    if offset == data.len() {
        assert(chunks_from(data, mtu, offset, seq) =~= Seq::<Seq<u8>>::empty());
        assert(data.subrange(offset, data.len() as int) =~= Seq::<u8>::empty());
    } else {
        lemma_chunks_unfold(data, mtu, offset, seq);
        let size = chunk_size(data.len() as int, mtu, offset);
        let packet = packet_at(data, mtu, offset, seq);
        let skip: int = if offset == 0 {
            4
        } else {
            2
        };
        assert(packet.subrange(skip, packet.len() as int) =~= data.subrange(offset, offset + size));
        lemma_payloads_from(data, mtu, offset + size, next_seq(seq));
        assert(data.subrange(offset, offset + size) + data.subrange(
            offset + size,
            data.len() as int,
        ) =~= data.subrange(offset, data.len() as int));
    }
}

/// Nothing is lost or added in chunking: the payloads of the packets of a
/// message, one after another, are the message.
pub proof fn lemma_chunks_carry_message(data: Seq<u8>, mtu: int)
    requires
        mtu > ATT_OVERHEAD + HEADER_SIZE_FIRST,
    ensures
        payloads_from(chunks(data, mtu), true) == data,
{
    lemma_payloads_from(data, mtu, 0, 0);
    assert(data.subrange(0, data.len() as int) =~= data);
}

/// A first packet is handled alike in every state: what was under way
/// before it is forgotten.
pub proof fn lemma_first_packet_restarts(one: Assembly, other: Assembly, packet: Seq<u8>)
    requires
        packet.len() >= 4,
        has_first(packet[0]),
    ensures
        step(one, packet) == step(other, packet),
{
}

/// Sequence integrity: after a first packet that does not end its message,
/// a continuation with any sequence number but 1 yields nothing and leaves
/// the reassembler idle, and a first packet after that is handled as by a
/// fresh reassembler.
pub proof fn lemma_wrong_sequence_drops_message(
    before: Assembly,
    first: Seq<u8>,
    wrong: Seq<u8>,
    again: Seq<u8>,
)
    requires
        first.len() >= 4,
        has_first(first[0]),
        !has_last(first[0]),
        wrong.len() >= 2,
        !has_first(wrong[0]),
        wrong[1] != 1,
        again.len() >= 4,
        has_first(again[0]),
    ensures
        step(before, first).1 is None,
        step(before, first).0.in_progress,
        step(step(before, first).0, wrong) == (idle(), None::<Seq<u8>>),
        feed(before, seq![first, wrong]) == (idle(), None::<Seq<u8>>),
        feed(before, seq![first, wrong, again]) == (step(idle(), again).0, step(idle(), again).1),
{
    let mid = step(before, first).0;
    let tail = seq![wrong];
    let two = seq![first, wrong];
    assert(two.drop_first() =~= tail);
    assert(tail.drop_first() =~= Seq::<Seq<u8>>::empty());
    assert(feed(idle(), Seq::<Seq<u8>>::empty()) == (idle(), None::<Seq<u8>>));
    assert(feed(mid, tail) == (idle(), None::<Seq<u8>>));

    let last = seq![again];
    let tail3 = seq![wrong, again];
    let three = seq![first, wrong, again];
    assert(three.drop_first() =~= tail3);
    assert(tail3.drop_first() =~= last);
    assert(last.drop_first() =~= Seq::<Seq<u8>>::empty());
    let end = step(idle(), again);
    assert(feed(end.0, Seq::<Seq<u8>>::empty()) == (end.0, None::<Seq<u8>>));
    assert(feed(idle(), last) == (end.0, end.1));
    assert(feed(mid, tail3) == (end.0, end.1));
}

/// A continuation whose sequence number is not the expected one yields
/// nothing and leaves the reassembler idle.
pub proof fn lemma_unexpected_sequence_resets(state: Assembly, packet: Seq<u8>)
    requires
        state.in_progress,
        packet.len() >= 2,
        !has_first(packet[0]),
        packet[1] != state.expected_seq,
    ensures
        step(state, packet) == (idle(), None::<Seq<u8>>),
{
}

/// Length mismatch: a message comes out only of a packet marked last, and
/// only with exactly the length that the first packet of the message
/// declared; a last packet that leaves the buffer at another length yields
/// nothing and leaves the reassembler idle.
pub proof fn lemma_length_mismatch_yields_nothing(state: Assembly, packet: Seq<u8>)
    ensures
        step(state, packet).1 matches Some(message) ==> {
            &&& packet.len() >= 2
            &&& has_last(packet[0])
            &&& step(state, packet).0 == idle()
            &&& has_first(packet[0]) ==> packet.len() >= 4 && message.len() == declared_length(
                packet[2],
                packet[3],
            ) && message == packet.subrange(4, packet.len() as int)
            &&& !has_first(packet[0]) ==> message.len() == state.expected_length && message
                == state.buffer + packet.subrange(2, packet.len() as int)
        },
        packet.len() >= 4 && has_first(packet[0]) && has_last(packet[0]) && packet.len() - 4
            != declared_length(packet[2], packet[3]) ==> step(state, packet) == (
            idle(),
            None::<Seq<u8>>,
        ),
        packet.len() >= 2 && !has_first(packet[0]) && has_last(packet[0]) && state.in_progress
            && state.buffer.len() + packet.len() - 2 != state.expected_length ==> step(
            state,
            packet,
        ) == (idle(), None::<Seq<u8>>),
{
}

/// A reassembler that is not in the middle of a message ignores
/// continuation packets.
pub proof fn lemma_continuation_without_start(state: Assembly, packet: Seq<u8>)
    requires
        !state.in_progress,
        packet.len() < 2 || !has_first(packet[0]),
    ensures
        step(state, packet) == (state, None::<Seq<u8>>),
{
}

} // verus!
