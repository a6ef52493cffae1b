//! Stateless encoding and decoding of single 64-byte USB interrupt packets.
//!
//! Every packet is `PACKET_SIZE` bytes.  The first three bytes form the
//! transport header: a frame tag, a composite flags byte whose bits `[7:2]`
//! carry a 6-bit length field, bit 0 the continuation flag and bit 1 the
//! notification flag, and a sequence number modulo 256.  Payload begins at
//! byte 3; on the first inbound packet of a response, byte 3 carries a status
//! code and the payload begins at byte 5.

use vstd::prelude::*;

verus! {

/// Fixed size of every USB interrupt packet on the wire.
pub const PACKET_SIZE: usize = 64;

/// Frame tag of outbound packets.
pub const TAG_OUT: u8 = 1;

/// Frame tag of well-formed inbound response packets.
pub const TAG_IN: u8 = 17;

/// Reduces a size or sequence number to the single byte that carries it.
pub fn tail_bits(value: usize) -> (r: u8)
    ensures
        r == value % 256,
{
    (value % 256) as u8
}

/// A run of zero padding bytes.
pub open spec fn zeros(n: nat) -> Seq<u8> {
    Seq::new(n, |i: int| 0u8)
}

/// The flags byte of an outbound packet: the length field holds the count of
/// meaningful payload bytes plus one (the trailing zero slot), shifted into
/// bits `[7:2]`; bit 0 is the continuation flag.
pub open spec fn spec_out_flags(payload_len: nat, has_more: bool) -> u8 {
    ((((payload_len + 1) % 64) * 4 + if has_more {
        1int
    } else {
        0int
    }) as u8)
}

/// A full outbound packet: tag, flags, sequence byte, payload, zero padding.
pub open spec fn spec_out_packet(payload: Seq<u8>, index: nat, has_more: bool) -> Seq<u8> {
    seq![TAG_OUT, spec_out_flags(payload.len(), has_more), (index % 256) as u8] + payload + zeros(
        (61 - payload.len()) as nat,
    )
}

/// Builds the outbound packet for one payload chunk, padded to the fixed
/// packet size.  Every chunk except the final one of a request is full.
pub fn build_packet(chunk: &[u8], packet_id: usize, has_more: bool) -> (r: Vec<u8>)
    requires
        chunk@.len() <= 61,
        has_more ==> chunk@.len() == 61,
    ensures
        r@ == spec_out_packet(chunk@, packet_id as nat, has_more),
        r@.len() == PACKET_SIZE,
{
    let mut packet: Vec<u8> = Vec::new();
    packet.push(TAG_OUT);
    let more_bit: u8 = if has_more {
        1
    } else {
        0
    };
    packet.push((chunk.len() as u8 + 1) * 4 + more_bit);
    packet.push(tail_bits(packet_id));
    packet.extend_from_slice(chunk);
    let ghost unpadded = packet@;
    proof {
        assert(unpadded =~= seq![
            TAG_OUT,
            spec_out_flags(chunk@.len(), has_more),
            ((packet_id as nat) % 256) as u8,
        ] + chunk@);
    }
    pad_to_packet_size(&mut packet);
    proof {
        assert(packet@ =~= spec_out_packet(chunk@, packet_id as nat, has_more));
    }
    packet
}

/// Extends a buffer with zero bytes up to the fixed packet size.
pub fn pad_to_packet_size(packet: &mut Vec<u8>)
    requires
        old(packet)@.len() <= PACKET_SIZE,
    ensures
        final(packet)@ == old(packet)@ + zeros((PACKET_SIZE - old(packet)@.len()) as nat),
{
    while packet.len() < PACKET_SIZE
        invariant
            old(packet)@.len() <= packet@.len() <= PACKET_SIZE,
            packet@ == old(packet)@ + zeros((packet@.len() - old(packet)@.len()) as nat),
        decreases PACKET_SIZE - packet@.len(),
    {
        packet.push(0);
        proof {
            assert(packet@ =~= old(packet)@ + zeros(
                (packet@.len() - old(packet)@.len()) as nat,
            ));
        }
    }
}

/// The acknowledgement packet sent after each continuation packet of a
/// fragmented response: tag, a length field of one with the continuation
/// bit, the sequence byte being acknowledged, zero padding.
pub open spec fn spec_ack_packet(packet_id: u8) -> Seq<u8> {
    seq![TAG_OUT, 5u8, packet_id] + zeros(61)
}

/// Builds the acknowledgement packet for one received sequence number.
pub fn build_ack(packet_id: u8) -> (r: Vec<u8>)
    ensures
        r@ == spec_ack_packet(packet_id),
        r@.len() == PACKET_SIZE,
{
    let mut packet: Vec<u8> = Vec::new();
    packet.push(TAG_OUT);
    packet.push(5);
    packet.push(packet_id);
    proof {
        assert(packet@ =~= seq![TAG_OUT, 5u8, packet_id]);
    }
    pad_to_packet_size(&mut packet);
    proof {
        assert(packet@ =~= spec_ack_packet(packet_id));
    }
    packet
}

/// The length field of an inbound packet's flags byte.
pub open spec fn spec_size_field(packet: Seq<u8>) -> nat {
    (packet[1] / 4) as nat
}

/// The continuation flag: more packets of this response follow.
pub open spec fn spec_has_more(packet: Seq<u8>) -> bool {
    packet[1] % 2 == 1
}

/// The notification flag: the packet is an asynchronous device message, not
/// part of the response being reassembled.
pub open spec fn spec_is_notification(packet: Seq<u8>) -> bool {
    (packet[1] / 2) % 2 == 1
}

/// Count of meaningful payload bytes of an inbound packet, after the status
/// bytes of a first packet and short of the trailing zero slot.
pub open spec fn spec_payload_len(packet: Seq<u8>, initial: bool) -> nat {
    let size = spec_size_field(packet);
    if initial {
        if size <= 2 {
            0
        } else {
            (size - 3) as nat
        }
    } else {
        if size == 0 {
            0
        } else {
            (size - 1) as nat
        }
    }
}

/// Offset where an inbound packet's payload begins.
pub open spec fn spec_payload_start(initial: bool) -> int {
    if initial {
        5
    } else {
        3
    }
}

/// The meaningful payload slice of an inbound packet.
pub open spec fn spec_payload(packet: Seq<u8>, initial: bool) -> Seq<u8> {
    packet.subrange(
        spec_payload_start(initial),
        spec_payload_start(initial) + spec_payload_len(packet, initial),
    )
}

/// A length field small enough that the payload slice stays inside the
/// packet; anything larger is a malformed frame.
pub open spec fn spec_size_in_bounds(packet: Seq<u8>) -> bool {
    spec_size_field(packet) <= 62
}

/// Copies the meaningful payload of an inbound packet onto the end of `out`.
pub fn append_payload(out: &mut Vec<u8>, packet: &Vec<u8>, initial: bool)
    requires
        packet@.len() == PACKET_SIZE,
        spec_size_in_bounds(packet@),
    ensures
        final(out)@ == old(out)@ + spec_payload(packet@, initial),
{
    let size_field: usize = (packet[1] / 4) as usize;
    let start: usize = if initial {
        5
    } else {
        3
    };
    let len: usize = if initial {
        if size_field <= 2 {
            0
        } else {
            size_field - 3
        }
    } else {
        if size_field == 0 {
            0
        } else {
            size_field - 1
        }
    };
    let mut i: usize = 0;
    while i < len
        invariant
            len == spec_payload_len(packet@, initial),
            start == spec_payload_start(initial),
            start + len <= packet@.len(),
            i <= len,
            out@ == old(out)@ + packet@.subrange(start as int, start as int + i as int),
        decreases len - i,
    {
        out.push(packet[start + i]);
        proof {
            assert(packet@.subrange(start as int, start as int + i as int + 1) =~= packet@
                .subrange(start as int, start as int + i as int).push(
                packet@[start as int + i as int],
            ));
        }
        i += 1;
    }
    proof {
        assert(out@ == old(out)@ + spec_payload(packet@, initial));
    }
}

} // verus!
