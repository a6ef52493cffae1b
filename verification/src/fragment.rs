//! The send path of the request engine: splitting an application payload
//! into outbound packets.
//!
//! A payload is cut into chunks of at most 61 bytes (the packet size minus
//! the three header bytes), preserving order; every chunk except the last is
//! full.  Chunk `i` travels in an outbound packet with sequence byte
//! `i % 256` and the continuation bit set exactly when more packets follow.

use vstd::prelude::*;
use vstd::seq_lib::lemma_flatten_concat;
use crate::codec::{build_packet, spec_out_packet, spec_out_flags, spec_payload, PACKET_SIZE};

verus! {

/// Largest count of payload bytes one packet can carry.
pub const CHUNK_SIZE: usize = 61;

/// How many packets a payload of `len` bytes needs.
pub open spec fn spec_chunk_count(len: nat) -> nat {
    if len == 0 {
        0
    } else {
        (len - 1) as nat / 61 + 1
    }
}

/// The end of chunk `i`: one past the last byte it carries.
pub open spec fn spec_chunk_end(len: nat, i: nat) -> int {
    if 61 * i + 61 <= len {
        (61 * i + 61) as int
    } else {
        len as int
    }
}

/// Chunk `i` of a payload: bytes `61 * i` up to `spec_chunk_end`.
pub open spec fn spec_chunk(data: Seq<u8>, i: nat) -> Seq<u8> {
    data.subrange(61 * (i as int), spec_chunk_end(data.len(), i))
}

/// All chunks of a payload, in order.
pub open spec fn spec_chunks(data: Seq<u8>) -> Seq<Seq<u8>> {
    Seq::new(spec_chunk_count(data.len()) as nat, |i: int| spec_chunk(data, i as nat))
}

/// Law: fragmentation loses nothing — the chunks of a payload, in order,
/// concatenate back to the payload.
pub proof fn lemma_chunks_flatten(data: Seq<u8>)
    ensures
        spec_chunks(data).flatten() == data,
    decreases data.len(),
{
    if data.len() == 0 {
        assert(spec_chunks(data) =~= Seq::<Seq<u8>>::empty());
        assert(spec_chunks(data).flatten() =~= data);
    } else if data.len() <= 61 {
        assert(spec_chunks(data) =~= seq![data.subrange(0, data.len() as int)]);
        spec_chunks(data).lemma_flatten_one_element();
        assert(spec_chunks(data).flatten() =~= data);
    } else {
        let rest = data.subrange(61, data.len() as int);
        lemma_chunks_flatten(rest);
        assert forall|i: int| 0 <= i < spec_chunk_count(rest.len()) implies #[trigger] spec_chunk(
            rest,
            i as nat,
        ) == spec_chunk(data, (i + 1) as nat) by {
            assert(spec_chunk(rest, i as nat) =~= spec_chunk(data, (i + 1) as nat));
        }
        assert(spec_chunks(data) =~= seq![spec_chunk(data, 0)] + spec_chunks(rest));
        lemma_flatten_concat(seq![spec_chunk(data, 0)], spec_chunks(rest));
        seq![spec_chunk(data, 0)].lemma_flatten_one_element();
        assert(spec_chunk(data, 0) =~= data.subrange(0, 61));
        assert(spec_chunks(data).flatten() =~= data);
    }
}

/// Law: the framing of every outbound packet.  The buffer is exactly 64
/// bytes; the tag is 1; the sequence byte at offset 2 is the packet index
/// modulo 256; the continuation bit (bit 0 of the flags byte) is set exactly
/// when another packet follows; the notification bit is clear; and reading
/// the payload back out of the packet yields the chunk it was built from.
pub proof fn lemma_out_packet_framing(payload: Seq<u8>, index: nat, has_more: bool)
    requires
        payload.len() <= 61,
    ensures
        spec_out_packet(payload, index, has_more).len() == PACKET_SIZE,
        spec_out_packet(payload, index, has_more)[0] == 1,
        spec_out_packet(payload, index, has_more)[2] == index % 256,
        spec_out_packet(payload, index, has_more)[1] % 2 == (if has_more {
            1int
        } else {
            0int
        }),
        (spec_out_packet(payload, index, has_more)[1] / 2) % 2 == 0,
        spec_payload(spec_out_packet(payload, index, has_more), false) == payload,
{
    let p = spec_out_packet(payload, index, has_more);
    let more: int = if has_more {
        1
    } else {
        0
    };
    assert(p[1] == spec_out_flags(payload.len(), has_more));
    assert((payload.len() + 1) % 64 == payload.len() + 1);
    assert(spec_out_flags(payload.len(), has_more) == (payload.len() + 1) * 4 + more);
    assert(((payload.len() + 1) * 4 + more) % 2 == more) by (nonlinear_arith)
        requires
            0 <= payload.len(),
            more == 0 || more == 1,
    ;
    assert((((payload.len() + 1) * 4 + more) / 2) % 2 == 0) by (nonlinear_arith)
        requires
            0 <= payload.len(),
            more == 0 || more == 1,
    ;
    assert(p[1] / 4 == payload.len() + 1) by (nonlinear_arith)
        requires
            p[1] == (payload.len() + 1) * 4 + more,
            0 <= payload.len() <= 61,
            more == 0 || more == 1,
    ;
    assert(spec_payload(p, false) =~= payload);
}

/// Law: the request round trip.  Reading the meaningful payload back out of
/// each outbound packet of a request, in order, reconstructs the request
/// exactly: no byte is lost, duplicated or misplaced, whatever the length.
pub proof fn lemma_request_roundtrip(data: Seq<u8>)
    requires
        1 <= data.len(),
    ensures
        Seq::new(
            spec_chunk_count(data.len()) as nat,
            |i: int|
                spec_payload(
                    spec_out_packet(
                        spec_chunk(data, i as nat),
                        i as nat,
                        i < spec_chunk_count(data.len()) - 1,
                    ),
                    false,
                ),
        ).flatten() == data,
{
    let n = spec_chunk_count(data.len());
    let payloads = Seq::new(
        n as nat,
        |i: int|
            spec_payload(spec_out_packet(spec_chunk(data, i as nat), i as nat, i < n - 1), false),
    );
    assert forall|i: int| 0 <= i < n implies payloads[i] == spec_chunks(data)[i] by {
        assert(spec_chunk(data, i as nat).len() <= 61);
        lemma_out_packet_framing(spec_chunk(data, i as nat), i as nat, i < n - 1);
    }
    assert(payloads =~= spec_chunks(data));
    lemma_chunks_flatten(data);
}

/// Splits a payload into its outbound packets, in order: packet `i` carries
/// chunk `i`, padded to the fixed packet size.
pub fn outbound_packets(data: &[u8]) -> (r: Vec<Vec<u8>>)
    requires
        1 <= data@.len(),
    ensures
        r@.len() == spec_chunk_count(data@.len() as nat),
        forall|i: int|
            0 <= i < r@.len() ==> r@[i]@ == spec_out_packet(
                spec_chunk(data@, i as nat),
                i as nat,
                i < r@.len() - 1,
            ),
{
    let dlen: usize = data.len();
    proof {
        assert((dlen - 1) / 61 <= dlen - 1);
    }
    let n: usize = (dlen - 1) / CHUNK_SIZE + 1;
    proof {
        vstd::arithmetic::div_mod::lemma_fundamental_div_mod(dlen - 1, 61);
        assert(61 * (n - 1) <= dlen - 1);
    }
    let mut r: Vec<Vec<u8>> = Vec::new();
    let mut i: usize = 0;
    while i < n
        invariant
            1 <= dlen == data@.len(),
            n == spec_chunk_count(data@.len() as nat),
            61 * (n - 1) <= dlen - 1,
            i <= n,
            r@.len() == i,
            forall|j: int|
                0 <= j < i ==> r@[j]@ == spec_out_packet(
                    spec_chunk(data@, j as nat),
                    j as nat,
                    j < n - 1,
                ),
        decreases n - i,
    {
        proof {
            assert(61 * i <= 61 * (n - 1)) by (nonlinear_arith)
                requires
                    i <= n - 1,
            ;
            if i + 1 < n {
                assert(61 * (i + 1) <= 61 * (n - 1)) by (nonlinear_arith)
                    requires
                        i + 1 <= n - 1,
                ;
            }
            assert(i * CHUNK_SIZE <= dlen - 1);
        }
        let start: usize = i * CHUNK_SIZE;
        let end: usize = if dlen - start > CHUNK_SIZE {
            start + CHUNK_SIZE
        } else {
            dlen
        };
        let chunk = vstd::slice::slice_subrange(data, start, end);
        proof {
            assert(chunk@ == spec_chunk(data@, i as nat));
        }
        let has_more = i + 1 < n;
        let packet = build_packet(chunk, i, has_more);
        r.push(packet);
        i += 1;
    }
    r
}

} // verus!
