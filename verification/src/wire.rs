//! The framing of messages on the wire: each message is preceded by its
//! length, written as a variable-length integer.

use vstd::prelude::*;

verus! {

/// The longest that the length before a message can be.
pub const MAX_PREFIX_LEN: usize = 10;

/// The variable-length encoding of a number: seven bits to a byte, lowest
/// first, every byte but the last with its highest bit set.
pub open spec fn varint(value: nat) -> Seq<u8>
    decreases value,
{
    if value < 0x80 {
        seq![value as u8]
    } else {
        seq![(value % 0x80 + 0x80) as u8] + varint(value / 0x80)
    }
}

/// The number that stands at the start of `bytes` in variable-length
/// encoding, and how many bytes it takes; `depth` is the number of bytes of
/// it that went before. There is none where the bytes end before it does,
/// where it goes on beyond ten bytes, or where it does not fit in 64 bits.
pub open spec fn varint_from(bytes: Seq<u8>, depth: nat) -> Option<(nat, nat)>
    decreases bytes.len(),
{
    if bytes.len() == 0 || depth >= MAX_PREFIX_LEN {
        None
    } else if bytes[0] < 0x80 {
        if depth == MAX_PREFIX_LEN - 1 && bytes[0] >= 2 {
            None
        } else {
            Some((bytes[0] as nat, 1))
        }
    } else {
        match varint_from(bytes.drop_first(), depth + 1) {
            Some((rest, len)) => Some((((bytes[0] - 0x80) + 0x80 * rest) as nat, len + 1)),
            None => None,
        }
    }
}

/// The number at the start of `bytes`, and how many bytes it takes.
pub open spec fn varint_at(bytes: Seq<u8>) -> Option<(nat, nat)> {
    varint_from(bytes, 0)
}

/// A message as it goes over the wire: its length, then its bytes.
pub open spec fn frame_of(payload: Seq<u8>) -> Seq<u8> {
    varint(payload.len()) + payload
}

/// The first `count` of some messages as they go over the wire, one after
/// the other.
pub open spec fn frames_of(payloads: Seq<Seq<u8>>, count: nat) -> Seq<u8>
    decreases count,
{
    if count == 0 {
        Seq::empty()
    } else {
        frames_of(payloads, (count - 1) as nat) + frame_of(payloads[count - 1])
    }
}

/// The message at the start of `bytes`, and how many bytes its frame takes.
pub open spec fn frame_at(bytes: Seq<u8>) -> Option<(Seq<u8>, nat)> {
    match varint_at(bytes) {
        Some((size, len)) => if bytes.len() >= len + size {
            Some((bytes.subrange(len as int, (len + size) as int), len + size))
        } else {
            None
        },
        None => None,
    }
}

/// Appends the variable-length encoding of `value` to `buf`:
/// `encoding::encode_varint` of the crate `prost`, which writes the seven
/// lowest bits at a time, each byte but the last with its highest bit set.
#[verifier::external_body]
pub(crate) fn encode_varint(value: u64, buf: &mut Vec<u8>)
    ensures
        final(buf)@ == old(buf)@ + varint(value as nat),
{
    prost::encoding::encode_varint(value, buf)
}

/// The length that stands at the start of `bytes`: `decode_length_delimiter`
/// of the crate `prost`. It reads up to ten bytes, to the first whose
/// highest bit is clear, and fails where there is no such byte, where the
/// number does not fit in 64 bits, or where it does not fit in a `usize`.
#[verifier::external_body]
pub(crate) fn decode_length_delimiter(bytes: &Vec<u8>) -> (length: Option<usize>)
    ensures
        length == match varint_at(bytes@) {
            Some((value, len)) => if value <= usize::MAX {
                Some(value as usize)
            } else {
                None
            },
            None => None,
        },
{
    prost::decode_length_delimiter(bytes.as_slice()).ok()
}

/// A message as it goes over the wire.
pub fn encode_frame(payload: &Vec<u8>) -> (frame: Vec<u8>)
    ensures
        frame@ == frame_of(payload@),
{
    let mut serialized: Vec<u8> = Vec::new();
    encode_varint(payload.len() as u64, &mut serialized);
    serialized.extend_from_slice(payload.as_slice());
    serialized
}

/// One more than the greatest number that can stand in what is left of a
/// length after `depth` bytes of it.
pub open spec fn room(depth: nat) -> nat
    decreases 9 - depth,
{
    if depth >= 9 {
        2
    } else {
        0x80 * room(depth + 1)
    }
}

proof fn lemma_room_of_all()
    ensures
        room(0) == 0x1_0000_0000_0000_0000,
{
    reveal_with_fuel(room, 11);
}

proof fn lemma_varint_back(value: nat, rest: Seq<u8>, depth: nat)
    requires
        depth <= 9,
        value < room(depth),
    ensures
        varint_from(varint(value) + rest, depth) == Some((value, varint(value).len())),
    decreases value,
{
    let bytes = varint(value) + rest;
    if value < 0x80 {
        assert(bytes[0] == value as u8);
    } else {
        assert(depth < 9);
        let tail = varint(value / 0x80) + rest;
        assert(bytes[0] == (value % 0x80 + 0x80) as u8);
        assert(bytes.drop_first() =~= tail);
        assert(value / 0x80 < room(depth + 1));
        lemma_varint_back(value / 0x80, rest, depth + 1);
    }
}

/// A number that was written as a length is read back as it was, whatever
/// follows it.
pub proof fn law_varint_round_trip(value: u64, rest: Seq<u8>)
    ensures
        varint_at(varint(value as nat) + rest) == Some(
            (value as nat, varint(value as nat).len()),
        ),
{
    lemma_room_of_all();
    lemma_varint_back(value as nat, rest, 0);
}

/// A message that was framed is read back as it was, whatever follows it.
pub proof fn law_frame_round_trip(payload: Seq<u8>, rest: Seq<u8>)
    requires
        payload.len() <= u64::MAX,
    ensures
        frame_at(frame_of(payload) + rest) == Some((payload, frame_of(payload).len())),
{
    let prefix = varint(payload.len());
    law_varint_round_trip(payload.len() as u64, payload + rest);
    assert(frame_of(payload) + rest =~= prefix + (payload + rest));
    assert((frame_of(payload) + rest).subrange(
        prefix.len() as int,
        (prefix.len() + payload.len()) as int,
    ) =~= payload);
}

/// The shape of an encoded length: at most ten bytes, the last with its
/// highest bit clear, all before it with it set.
pub proof fn lemma_varint_shape(value: nat, depth: nat)
    requires
        depth <= 9,
        value < room(depth),
    ensures
        1 <= varint(value).len() <= MAX_PREFIX_LEN - depth,
        varint(value).last() < 0x80,
        forall|i: int| 0 <= i < varint(value).len() - 1 ==> #[trigger] varint(value)[i] >= 0x80,
    decreases value,
{
    if value >= 0x80 {
        assert(depth < 9);
        lemma_varint_shape(value / 0x80, depth + 1);
        let head = seq![(value % 0x80 + 0x80) as u8];
        let tail = varint(value / 0x80);
        assert(varint(value) =~= head + tail);
        assert forall|i: int| 0 <= i < varint(value).len() - 1 implies #[trigger] varint(
            value,
        )[i] >= 0x80 by {
            if i > 0 {
                assert(varint(value)[i] == tail[i - 1]);
            }
        }
        assert(varint(value).last() == tail.last());
    }
}

/// Every length of 64 bits has an encoding of that shape.
pub proof fn lemma_varint_shape_of_all(value: u64)
    ensures
        1 <= varint(value as nat).len() <= MAX_PREFIX_LEN,
        varint(value as nat).last() < 0x80,
        forall|i: int|
            0 <= i < varint(value as nat).len() - 1 ==> #[trigger] varint(value as nat)[i] >= 0x80,
{
    lemma_room_of_all();
    lemma_varint_shape(value as nat, 0);
}

} // verus!
