//! What the checksum of a message notices: a change of one field always
//! changes the bytes that the checksum is taken of.

use vstd::prelude::*;
use vstd::utf8::{encode_utf8, encode_utf8_decode_utf8};
use crate::crypto::{checksum_input, decimal, hex_lower, sha256};
use crate::protocol::{signed, verifies, Envelope, MessageType};

verus! {

/// The bytes that the checksum of a message is taken of under a key.
pub open spec fn hashed(message: Envelope, key: Seq<u8>) -> Seq<u8> {
    checksum_input(
        message.version,
        message.message_type.name(),
        message.payload,
        message.timestamp,
        key,
    )
}

/// Whether two messages of one version differ in exactly one of payload,
/// timestamp and kind. The checksums are not compared.
pub open spec fn one_field_changed(message: Envelope, changed: Envelope) -> bool {
    &&& changed.version == message.version
    &&& {
        ||| changed.payload != message.payload && changed.timestamp == message.timestamp
            && changed.message_type == message.message_type
        ||| changed.payload == message.payload && changed.timestamp != message.timestamp
            && changed.message_type == message.message_type
        ||| changed.payload == message.payload && changed.timestamp == message.timestamp
            && changed.message_type != message.message_type
    }
}

/// Two runs of bytes that differ in their middle part only are different.
pub proof fn lemma_middle_differs(before: Seq<u8>, one: Seq<u8>, other: Seq<u8>, after: Seq<u8>)
    requires
        one != other,
    ensures
        before + one + after != before + other + after,
{
    let left = before + one + after;
    let right = before + other + after;
    if left == right {
        assert(left.len() == right.len());
        assert forall|i: int| 0 <= i < one.len() implies one[i] == other[i] by {
            assert(left[before.len() + i] == one[i]);
            assert(right[before.len() + i] == other[i]);
        }
        assert(one =~= other);
    }
}

/// Different texts have different bytes in UTF-8.
pub proof fn lemma_utf8_differs(one: Seq<char>, other: Seq<char>)
    requires
        one != other,
    ensures
        encode_utf8(one) != encode_utf8(other),
{
    encode_utf8_decode_utf8(one);
    encode_utf8_decode_utf8(other);
}

/// A number has at least one decimal digit, and exactly one if it is
/// below ten.
pub proof fn lemma_decimal_length(n: nat)
    ensures
        decimal(n).len() >= 1,
        decimal(n).len() == 1 <==> n < 10,
    decreases n,
{
    if n >= 10 {
        lemma_decimal_length(n / 10);
    }
}

/// Different numbers have different decimal digits.
pub proof fn lemma_decimal_differs(one: nat, other: nat)
    requires
        one != other,
    ensures
        decimal(one) != decimal(other),
    decreases one,
{
    lemma_decimal_length(one);
    lemma_decimal_length(other);
    if decimal(one) == decimal(other) {
        if one < 10 {
            assert(decimal(one)[0] == (48 + one) as u8);
            assert(decimal(other)[0] == (48 + other) as u8);
        } else {
            assert(decimal(one).last() == (48 + one % 10) as u8);
            assert(decimal(other).last() == (48 + other % 10) as u8);
            assert(decimal(one).drop_last() =~= decimal(one / 10));
            assert(decimal(other).drop_last() =~= decimal(other / 10));
            if one / 10 != other / 10 {
                lemma_decimal_differs(one / 10, other / 10);
            }
        }
    }
}

/// Different kinds of message have different names.
pub proof fn lemma_names_differ(one: MessageType, other: MessageType)
    requires
        one != other,
    ensures
        one.name() != other.name(),
{
    reveal_strlit("TEXT");
    reveal_strlit("WORD");
    reveal_strlit("COMMAND");
    reveal_strlit("HEARTBEAT");
    reveal_strlit("ACK");
    reveal_strlit("PAIR_REQ");
    reveal_strlit("PAIR_ACK");
    if one.name() == other.name() {
        assert(one.name().len() == other.name().len());
        assert(one.name()[0] == other.name()[0]);
        if one.name().len() == 8 {
            assert(one.name()[5] == other.name()[5]);
        }
    }
}

/// A change of one field reaches the hash: where a message differs from
/// another in its payload, its timestamp or its kind alone, the bytes
/// that the checksum is taken of differ, under every key.
pub proof fn lemma_change_reaches_the_hash(message: Envelope, changed: Envelope, key: Seq<u8>)
    requires
        one_field_changed(message, changed),
    ensures
        hashed(changed, key) != hashed(message, key),
{
    let version = decimal(message.version as nat);
    let kind = encode_utf8(message.message_type.name());
    let payload = encode_utf8(message.payload);
    let stamp = decimal(message.timestamp as nat);
    let new_kind = encode_utf8(changed.message_type.name());
    let new_payload = encode_utf8(changed.payload);
    let new_stamp = decimal(changed.timestamp as nat);
    if changed.payload != message.payload {
        lemma_utf8_differs(message.payload, changed.payload);
        lemma_middle_differs(version + kind, payload, new_payload, stamp + key);
        assert(hashed(message, key) =~= (version + kind) + payload + (stamp + key));
        assert(hashed(changed, key) =~= (version + kind) + new_payload + (stamp + key));
    } else if changed.timestamp != message.timestamp {
        lemma_decimal_differs(message.timestamp as nat, changed.timestamp as nat);
        lemma_middle_differs(version + kind + payload, stamp, new_stamp, key);
        assert(hashed(message, key) =~= (version + kind + payload) + stamp + key);
        assert(hashed(changed, key) =~= (version + kind + payload) + new_stamp + key);
    } else {
        lemma_names_differ(message.message_type, changed.message_type);
        lemma_utf8_differs(message.message_type.name(), changed.message_type.name());
        lemma_middle_differs(version, kind, new_kind, payload + stamp + key);
        assert(hashed(message, key) =~= version + kind + (payload + stamp + key));
        assert(hashed(changed, key) =~= version + new_kind + (payload + stamp + key));
    }
}

/// Tampering is noticed unless the hash collides: a message that was
/// signed under a key and then changed in its payload, its timestamp or
/// its kind alone verifies only if SHA-256 gives the changed bytes, which
/// differ from the signed ones, a digest with the same first four bytes.
/// Signed again, the changed message verifies.
pub proof fn lemma_tampering_detected(message: Envelope, changed: Envelope, key: Seq<u8>)
    requires
        one_field_changed(message, changed),
        changed.checksum == signed(message, key).checksum,
    ensures
        hashed(changed, key) != hashed(message, key),
        verifies(changed, key) <==> hex_lower(sha256(hashed(changed, key)).subrange(0, 4))
            == hex_lower(sha256(hashed(message, key)).subrange(0, 4)),
        verifies(signed(changed, key), key),
{
    lemma_change_reaches_the_hash(message, changed, key);
}

} // verus!
