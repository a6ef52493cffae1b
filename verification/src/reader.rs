//! The receive path of the request engine: reassembling a fragmented
//! response from inbound packets.
//!
//! The reader expects response packets with strictly increasing sequence
//! numbers (modulo 256), acknowledges each continuation packet, appends each
//! packet's meaningful payload to the response, and passes asynchronous
//! notification packets through without letting them advance the sequence
//! counter.  A packet with the wrong tag, a nonzero status code on the first
//! packet, or an unexpected sequence number aborts the response with a
//! protocol error.

use vstd::prelude::*;
use crate::codec::{
    append_payload, build_ack, spec_ack_packet, spec_has_more, spec_is_notification,
    spec_payload, spec_size_in_bounds, zeros, PACKET_SIZE, TAG_IN,
};
use crate::errors::{spec_status_message, status_error, PolarError};

verus! {

/// What a notification packet announces; byte 3 classifies it, and for a
/// battery notification byte 5 carries the charge percentage.
#[derive(Clone, Copy, Debug, PartialEq, Eq, Structural)]
pub enum Notification {
    PushSettings,
    Battery(u8),
    Idling,
    Unknown(u8),
}

/// The notification a packet announces.
pub open spec fn spec_classify_notification(packet: Seq<u8>) -> Notification {
    if packet[3] == 10 {
        Notification::PushSettings
    } else if packet[3] == 3 {
        Notification::Battery(packet[5])
    } else if packet[3] == 2 {
        Notification::Idling
    } else {
        Notification::Unknown(packet[3])
    }
}

/// Classifies a notification packet.
pub fn classify_notification(packet: &Vec<u8>) -> (r: Notification)
    requires
        packet@.len() == PACKET_SIZE,
    ensures
        r == spec_classify_notification(packet@),
{
    match packet[3] {
        10 => Notification::PushSettings,
        3 => Notification::Battery(packet[5]),
        2 => Notification::Idling,
        other => Notification::Unknown(other),
    }
}

/// The log line for a notification.
pub open spec fn spec_notification_message(n: Notification) -> Seq<char> {
    match n {
        Notification::PushSettings => "Notification received: push notification settings"@,
        Notification::Battery(percent) => "Notification received: battery status: "@
            + crate::text::spec_decimal(percent as nat) + "%"@,
        Notification::Idling => "Notification received: device is idling"@,
        Notification::Unknown(kind) => "Notification received: unknown type "@
            + crate::text::spec_decimal(kind as nat),
    }
}

impl Notification {
    /// Renders the notification the way the log sink reports it.
    pub fn describe(&self) -> (r: String)
        ensures
            r@ == spec_notification_message(*self),
    {
        match self {
            Notification::PushSettings => String::from_str(
                "Notification received: push notification settings",
            ),
            Notification::Battery(percent) => {
                let mut s = String::from_str("Notification received: battery status: ");
                let num = crate::text::decimal_string(*percent as u64);
                s.append(num.as_str());
                s.append("%");
                s
            },
            Notification::Idling => String::from_str("Notification received: device is idling"),
            Notification::Unknown(kind) => {
                let mut s = String::from_str("Notification received: unknown type ");
                let num = crate::text::decimal_string(*kind as u64);
                s.append(num.as_str());
                s
            },
        }
    }
}

/// The sequence number that follows `id`, wrapping modulo 256.
pub open spec fn spec_wrap(id: u8) -> u8 {
    if id == 255 {
        0
    } else {
        (id + 1) as u8
    }
}

/// The reassembly state: the sequence number expected next, and whether the
/// next response packet is the first of the response (and so carries the
/// status byte).
pub struct Reader {
    pub packet_id: u8,
    pub initial: bool,
}

/// What one step of the receive loop asks its driver to do.
pub enum ReadStep {
    /// The response is complete: the reassembly buffer holds it in full.
    Done,
    /// A continuation packet was consumed: send this acknowledgement packet
    /// and keep reading.
    Ack { ack: Vec<u8> },
    /// An asynchronous notification arrived: report it and keep reading,
    /// without advancing the sequence counter.
    Note { notification: Notification },
    /// The response is aborted by a protocol error.
    Fail { error: PolarError },
}

/// The spec-level reassembly state.
pub struct SpecReader {
    pub packet_id: u8,
    pub initial: bool,
    pub data: Seq<u8>,
}

/// The spec-level outcome of one step.
pub enum SpecStep {
    Done,
    Ack(Seq<u8>),
    Note(Notification),
    Fail(Seq<char>),
}

/// One step of the receive loop over one inbound packet: the new state and
/// the action taken.
pub open spec fn spec_step(s: SpecReader, p: Seq<u8>) -> (SpecReader, SpecStep) {
    if p[0] != TAG_IN {
        (s, SpecStep::Fail(spec_status_message(p[3])))
    } else if spec_is_notification(p) {
        (s, SpecStep::Note(spec_classify_notification(p)))
    } else if s.initial && p[3] != 0 {
        (s, SpecStep::Fail(spec_status_message(p[3])))
    } else if p[2] != s.packet_id {
        (s, SpecStep::Fail("Error: unexpected sequence number"@))
    } else if !spec_size_in_bounds(p) {
        (s, SpecStep::Fail("Error: invalid packet length"@))
    } else {
        let data = s.data + spec_payload(p, s.initial);
        if !spec_has_more(p) {
            (SpecReader { packet_id: s.packet_id, initial: s.initial, data }, SpecStep::Done)
        } else {
            (
                SpecReader { packet_id: spec_wrap(s.packet_id), initial: false, data },
                SpecStep::Ack(spec_ack_packet(s.packet_id)),
            )
        }
    }
}

/// A protocol error with exactly this message.
pub open spec fn is_protocol_error(e: PolarError, message: Seq<char>) -> bool {
    e matches PolarError::PolarError { error } && error@ == message
}

impl Reader {
    /// A reader at the start of a response: sequence number zero, first
    /// packet still to come.
    pub fn new() -> (r: Reader)
        ensures
            r.packet_id == 0,
            r.initial,
    {
        Reader { packet_id: 0, initial: true }
    }

    /// Consumes one inbound packet: appends its meaningful payload to `out`
    /// where it is part of the response, and reports what the driver must do
    /// next.
    pub fn step(&mut self, packet: &Vec<u8>, out: &mut Vec<u8>) -> (r: ReadStep)
        requires
            packet@.len() == PACKET_SIZE,
        ensures
            ({
                let s0 = SpecReader {
                    packet_id: old(self).packet_id,
                    initial: old(self).initial,
                    data: old(out)@,
                };
                let (s1, action) = spec_step(s0, packet@);
                &&& final(self).packet_id == s1.packet_id
                &&& final(self).initial == s1.initial
                &&& final(out)@ == s1.data
                &&& match action {
                    SpecStep::Done => r is Done,
                    SpecStep::Ack(a) => r matches ReadStep::Ack { ack } && ack@ == a,
                    SpecStep::Note(n) => r matches ReadStep::Note { notification }
                        && notification == n,
                    SpecStep::Fail(m) => r matches ReadStep::Fail { error }
                        && is_protocol_error(error, m),
                }
            }),
    {
        if packet[0] != TAG_IN {
            return ReadStep::Fail { error: status_error(packet[3]) };
        }
        let flags = packet[1];
        if (flags / 2) % 2 == 1 {
            return ReadStep::Note { notification: classify_notification(packet) };
        }
        if self.initial && packet[3] != 0 {
            return ReadStep::Fail { error: status_error(packet[3]) };
        }
        if packet[2] != self.packet_id {
            return ReadStep::Fail { error: PolarError::new("Error: unexpected sequence number") };
        }
        if flags / 4 > 62 {
            return ReadStep::Fail { error: PolarError::new("Error: invalid packet length") };
        }
        append_payload(out, packet, self.initial);
        if flags % 2 == 0 {
            ReadStep::Done
        } else {
            let ack = build_ack(self.packet_id);
            self.packet_id = if self.packet_id == 255 {
                0
            } else {
                self.packet_id + 1
            };
            self.initial = false;
            ReadStep::Ack { ack }
        }
    }
}

/// A synthetic inbound response packet, as the device frames one: tag 17, a
/// length field counting the meaningful payload plus the trailing zero slot
/// (plus the two status bytes on the first packet of a response), the
/// continuation bit when more packets follow, and the sequence number.
pub open spec fn spec_response_packet(chunk: Seq<u8>, index: nat, has_more: bool) -> Seq<u8> {
    let more: int = if has_more {
        1
    } else {
        0
    };
    if index == 0 {
        seq![TAG_IN, ((chunk.len() + 3) * 4 + more) as u8, 0u8, 0u8, 0u8] + chunk + zeros(
            (59 - chunk.len()) as nat,
        )
    } else {
        seq![TAG_IN, ((chunk.len() + 1) * 4 + more) as u8, (index % 256) as u8] + chunk + zeros(
            (61 - chunk.len()) as nat,
        )
    }
}

/// Builds a synthetic inbound response packet carrying one payload chunk.
/// The first packet of a response holds at most 59 payload bytes, later
/// ones at most 61.
pub fn build_response_packet(chunk: &[u8], index: usize, has_more: bool) -> (r: Vec<u8>)
    requires
        index == 0 ==> chunk@.len() <= 59,
        index > 0 ==> chunk@.len() <= 61,
    ensures
        r@ == spec_response_packet(chunk@, index as nat, has_more),
        r@.len() == PACKET_SIZE,
{
    let more_bit: u8 = if has_more {
        1
    } else {
        0
    };
    let mut packet: Vec<u8> = Vec::new();
    packet.push(TAG_IN);
    if index == 0 {
        packet.push((chunk.len() as u8 + 3) * 4 + more_bit);
        packet.push(0);
        packet.push(0);
        packet.push(0);
    } else {
        packet.push((chunk.len() as u8 + 1) * 4 + more_bit);
        packet.push((index % 256) as u8);
    }
    packet.extend_from_slice(chunk);
    crate::codec::pad_to_packet_size(&mut packet);
    proof {
        assert(packet@ =~= spec_response_packet(chunk@, index as nat, has_more));
    }
    packet
}

/// A synthetic inbound notification packet: byte 3 carries the kind and
/// byte 5 the value a battery notification reports.
pub open spec fn spec_notification_packet(kind: u8, value: u8) -> Seq<u8> {
    seq![TAG_IN, 2u8, 0u8, kind, 0u8, value] + zeros(58)
}

/// Builds a synthetic inbound notification packet.
pub fn build_notification_packet(kind: u8, value: u8) -> (r: Vec<u8>)
    ensures
        r@ == spec_notification_packet(kind, value),
        r@.len() == PACKET_SIZE,
{
    let mut packet: Vec<u8> = Vec::new();
    packet.push(TAG_IN);
    packet.push(2);
    packet.push(0);
    packet.push(kind);
    packet.push(0);
    packet.push(value);
    crate::codec::pad_to_packet_size(&mut packet);
    proof {
        assert(packet@ =~= spec_notification_packet(kind, value));
    }
    packet
}

/// What running the receive loop over a whole inbound stream produces: the
/// response or the protocol error message, the acknowledgement packets
/// written along the way, and the notifications observed.
pub struct SpecReadOutcome {
    pub result: Result<Seq<u8>, Seq<char>>,
    pub acks: Seq<Seq<u8>>,
    pub notes: Seq<Notification>,
}

/// The receive loop over a complete inbound stream, at the spec level: steps
/// through the packets until the response completes or a protocol error
/// aborts it; a stream that runs out first is a truncated response.
pub open spec fn spec_read(s: SpecReader, packets: Seq<Seq<u8>>) -> SpecReadOutcome
    decreases packets.len(),
{
    if packets.len() == 0 {
        SpecReadOutcome {
            result: Err("Error: truncated response"@),
            acks: Seq::empty(),
            notes: Seq::empty(),
        }
    } else {
        let (s1, action) = spec_step(s, packets.first());
        match action {
            SpecStep::Done => SpecReadOutcome {
                result: Ok(s1.data),
                acks: Seq::empty(),
                notes: Seq::empty(),
            },
            SpecStep::Fail(m) => SpecReadOutcome {
                result: Err(m),
                acks: Seq::empty(),
                notes: Seq::empty(),
            },
            SpecStep::Ack(a) => {
                let rest = spec_read(s1, packets.drop_first());
                SpecReadOutcome {
                    result: rest.result,
                    acks: seq![a] + rest.acks,
                    notes: rest.notes,
                }
            },
            SpecStep::Note(n) => {
                let rest = spec_read(s1, packets.drop_first());
                SpecReadOutcome {
                    result: rest.result,
                    acks: rest.acks,
                    notes: seq![n] + rest.notes,
                }
            },
        }
    }
}

/// Runs the receive loop over a complete, pre-recorded inbound stream.
/// Returns the reassembled response or the protocol error, the
/// acknowledgement packets the loop wrote, in order, and the notifications
/// it observed, in order.
pub fn read_stream(packets: &Vec<Vec<u8>>) -> (r: (
    Result<Vec<u8>, PolarError>,
    Vec<Vec<u8>>,
    Vec<Notification>,
))
    requires
        forall|i: int| 0 <= i < packets@.len() ==> (#[trigger] packets@[i])@.len() == PACKET_SIZE,
    ensures
        ({
            let o = spec_read(
                SpecReader { packet_id: 0, initial: true, data: Seq::empty() },
                packets.deep_view(),
            );
            &&& match r.0 {
                Ok(v) => o.result matches Ok(resp) && v@ == resp,
                Err(e) => o.result matches Err(m) && is_protocol_error(e, m),
            }
            &&& r.1.deep_view() == o.acks
            &&& r.2@ == o.notes
        }),
{
    let ghost all = packets.deep_view();
    let ghost s0 = SpecReader { packet_id: 0, initial: true, data: Seq::<u8>::empty() };
    proof {
        assert forall|i: int| 0 <= i < all.len() implies #[trigger] all[i] == packets@[i]@ by {
            assert(packets@[i].deep_view() =~~= packets@[i]@);
        }
    }
    let mut reader = Reader::new();
    let mut out: Vec<u8> = Vec::new();
    let mut acks: Vec<Vec<u8>> = Vec::new();
    let mut notes: Vec<Notification> = Vec::new();
    proof {
        assert(all.skip(0) =~= all);
        assert(acks.deep_view() =~= Seq::<Seq<u8>>::empty());
        assert(Seq::<Seq<u8>>::empty() + spec_read(s0, all).acks =~= spec_read(s0, all).acks);
        assert(Seq::<Notification>::empty() + spec_read(s0, all).notes =~= spec_read(
            s0,
            all,
        ).notes);
    }
    let mut i: usize = 0;
    while i < packets.len()
        invariant
            forall|k: int|
                0 <= k < packets@.len() ==> (#[trigger] packets@[k])@.len() == PACKET_SIZE,
            forall|k: int| 0 <= k < all.len() ==> #[trigger] all[k] == packets@[k]@,
            all.len() == packets@.len(),
            all == packets.deep_view(),
            s0 == (SpecReader { packet_id: 0, initial: true, data: Seq::<u8>::empty() }),
            i <= packets@.len(),
            ({
                let o = spec_read(
                    SpecReader {
                        packet_id: reader.packet_id,
                        initial: reader.initial,
                        data: out@,
                    },
                    all.skip(i as int),
                );
                let whole = spec_read(s0, all);
                &&& whole.result == o.result
                &&& whole.acks == acks.deep_view() + o.acks
                &&& whole.notes == notes@ + o.notes
            }),
        decreases packets@.len() - i,
    {
        let ghost pre = SpecReader {
            packet_id: reader.packet_id,
            initial: reader.initial,
            data: out@,
        };
        proof {
            assert(all.skip(i as int).len() > 0);
            assert(all.skip(i as int).first() == all[i as int]);
            assert(all.skip(i as int).drop_first() =~= all.skip(i as int + 1));
        }
        let packet = &packets[i];
        let step = reader.step(packet, &mut out);
        match step {
            ReadStep::Done => {
                proof {
                    let o_here = spec_read(pre, all.skip(i as int));
                    assert(acks.deep_view() + o_here.acks =~= acks.deep_view());
                    assert(notes@ + o_here.notes =~= notes@);
                }
                return (Ok(out), acks, notes);
            },
            ReadStep::Fail { error } => {
                proof {
                    let o_here = spec_read(pre, all.skip(i as int));
                    assert(acks.deep_view() + o_here.acks =~= acks.deep_view());
                    assert(notes@ + o_here.notes =~= notes@);
                }
                return (Err(error), acks, notes);
            },
            ReadStep::Ack { ack } => {
                let ghost prev_acks = acks.deep_view();
                let ghost a = ack@;
                acks.push(ack);
                proof {
                    assert(acks.deep_view() =~~= prev_acks + seq![a]);
                    let o_next = spec_read(
                        SpecReader {
                            packet_id: reader.packet_id,
                            initial: reader.initial,
                            data: out@,
                        },
                        all.skip(i as int + 1),
                    );
                    assert(spec_read(pre, all.skip(i as int)).acks =~= seq![a] + o_next.acks);
                    assert(prev_acks + (seq![a] + o_next.acks) =~= (prev_acks + seq![a])
                        + o_next.acks);
                }
            },
            ReadStep::Note { notification } => {
                let ghost prev_notes = notes@;
                notes.push(notification);
                proof {
                    let o_next = spec_read(
                        SpecReader {
                            packet_id: reader.packet_id,
                            initial: reader.initial,
                            data: out@,
                        },
                        all.skip(i as int + 1),
                    );
                    assert(prev_notes + (seq![notification] + o_next.notes) =~= (prev_notes
                        + seq![notification]) + o_next.notes);
                }
            },
        }
        i += 1;
    }
    proof {
        assert(all.skip(i as int) =~= Seq::<Seq<u8>>::empty());
        let o_here = spec_read(
            SpecReader { packet_id: reader.packet_id, initial: reader.initial, data: out@ },
            all.skip(i as int),
        );
        assert(acks.deep_view() + o_here.acks =~= acks.deep_view());
        assert(notes@ + o_here.notes =~= notes@);
    }
    (Err(PolarError::new("Error: truncated response")), acks, notes)
}

/// Chunk sizes a device can actually frame: the first packet of a response
/// carries at most 59 payload bytes, later ones at most 61.
pub open spec fn wf_chunks(chunks: Seq<Seq<u8>>) -> bool {
    &&& chunks.len() >= 1
    &&& chunks[0].len() <= 59
    &&& forall|i: int| 1 <= i < chunks.len() ==> (#[trigger] chunks[i]).len() <= 61
}

/// A packet the reader treats as a notification: inbound tag with the
/// notification bit set.
pub open spec fn is_notification_shaped(p: Seq<u8>) -> bool {
    &&& p.len() == PACKET_SIZE
    &&& p[0] == TAG_IN
    &&& spec_is_notification(p)
}

/// The inbound streams that carry chunks `base..` of a fragmented response:
/// the response packets appear in order, each with its sequence number and
/// continuation bit, with notification packets interleaved at any position,
/// and the stream ends right after the final response packet.
pub open spec fn is_interleaved_response(
    packets: Seq<Seq<u8>>,
    chunks: Seq<Seq<u8>>,
    base: nat,
) -> bool
    decreases packets.len(),
{
    if packets.len() == 0 {
        false
    } else {
        ||| (is_notification_shaped(packets.first()) && is_interleaved_response(
            packets.drop_first(),
            chunks,
            base,
        ))
        ||| (packets.first() == spec_response_packet(
            chunks[base as int],
            base,
            base + 1 < chunks.len(),
        ) && (if base + 1 < chunks.len() {
            is_interleaved_response(packets.drop_first(), chunks, base + 1)
        } else {
            packets.drop_first().len() == 0
        }))
    }
}

/// The fields encoded in a flags byte assembled as `size * 4 + more`.
proof fn lemma_flags_byte(size: nat, more: int)
    requires
        size <= 62,
        more == 0 || more == 1,
    ensures
        size * 4 + more <= 255,
        ((size * 4 + more) as u8) / 4 == size,
        ((size * 4 + more) as u8) % 2 == more,
        (((size * 4 + more) as u8) / 2) % 2 == 0,
{
    assert(size * 4 + more <= 255) by (nonlinear_arith)
        requires
            size <= 62,
            more == 0 || more == 1,
    ;
    assert((size * 4 + more) / 4 == size) by (nonlinear_arith)
        requires
            0 <= size,
            more == 0 || more == 1,
    ;
    assert((size * 4 + more) % 2 == more) by (nonlinear_arith)
        requires
            0 <= size,
            more == 0 || more == 1,
    ;
    assert(((size * 4 + more) / 2) % 2 == 0) by (nonlinear_arith)
        requires
            0 <= size,
            more == 0 || more == 1,
    ;
}

/// How the reader sees a synthetic response packet: the framing fields it
/// inspects, and that the payload it extracts is the chunk the packet
/// carries.
proof fn lemma_response_packet_framing(chunk: Seq<u8>, index: nat, has_more: bool)
    requires
        index == 0 ==> chunk.len() <= 59,
        index > 0 ==> chunk.len() <= 61,
    ensures
        ({
            let p = spec_response_packet(chunk, index, has_more);
            &&& p.len() == PACKET_SIZE
            &&& p[0] == TAG_IN
            &&& !spec_is_notification(p)
            &&& spec_has_more(p) == has_more
            &&& p[2] == index % 256
            &&& index == 0 ==> p[3] == 0
            &&& spec_size_in_bounds(p)
            &&& spec_payload(p, index == 0) == chunk
        }),
{
    let p = spec_response_packet(chunk, index, has_more);
    let more: int = if has_more {
        1
    } else {
        0
    };
    let size: nat = if index == 0 {
        (chunk.len() + 3) as nat
    } else {
        (chunk.len() + 1) as nat
    };
    lemma_flags_byte(size, more);
    assert(p[1] == (size * 4 + more) as u8);
    assert(crate::codec::spec_size_field(p) == size);
    assert(spec_payload(p, index == 0) =~= chunk);
}

/// Law: reassembly is exact.  For any response split into chunks with
/// strictly increasing sequence numbers (wrapping modulo 256), and any
/// number of notification packets injected at any positions, the receive
/// loop reassembles exactly the concatenation of the remaining chunks onto
/// what it has so far, and acknowledges exactly the continuation packets,
/// each with the sequence number it acknowledges.
pub proof fn lemma_reassembly(
    packets: Seq<Seq<u8>>,
    chunks: Seq<Seq<u8>>,
    base: nat,
    s: SpecReader,
)
    requires
        wf_chunks(chunks),
        base < chunks.len(),
        is_interleaved_response(packets, chunks, base),
        s.packet_id == base % 256,
        s.initial == (base == 0),
    ensures
        ({
            let o = spec_read(s, packets);
            &&& o.result matches Ok(response) && response == s.data + chunks.skip(
                base as int,
            ).flatten()
            &&& o.acks.len() == chunks.len() - 1 - base
            &&& forall|k: int|
                0 <= k < o.acks.len() ==> #[trigger] o.acks[k] == spec_ack_packet(
                    (((base + k) % 256) as u8),
                )
        }),
    decreases packets.len(),
{
    let p = packets.first();
    let o = spec_read(s, packets);
    let chunk = chunks[base as int];
    let has_more = base + 1 < chunks.len();
    if is_notification_shaped(p) && is_interleaved_response(packets.drop_first(), chunks, base) {
        lemma_reassembly(packets.drop_first(), chunks, base, s);
        assert(o.result == spec_read(s, packets.drop_first()).result);
        assert(o.acks =~= spec_read(s, packets.drop_first()).acks);
    } else {
        assert(p == spec_response_packet(chunk, base, has_more));
        lemma_response_packet_framing(chunk, base, has_more);
        assert(chunks.skip(base as int).first() == chunk);
        if has_more {
            let s1 = SpecReader {
                packet_id: spec_wrap(s.packet_id),
                initial: false,
                data: s.data + chunk,
            };
            assert(spec_step(s, p) == (s1, SpecStep::Ack(spec_ack_packet(s.packet_id))));
            assert(spec_wrap(s.packet_id) == (base + 1) % 256) by {
                if s.packet_id == 255 {
                    assert(base % 256 == 255);
                    vstd::arithmetic::div_mod::lemma_add_mod_noop(base as int, 1, 256);
                    assert((base % 256 + 1) % 256 == 0);
                } else {
                    vstd::arithmetic::div_mod::lemma_add_mod_noop(base as int, 1, 256);
                    assert((base % 256 + 1) % 256 == base % 256 + 1);
                }
            }
            lemma_reassembly(packets.drop_first(), chunks, base + 1, s1);
            let rest = spec_read(s1, packets.drop_first());
            assert(chunks.skip(base as int) =~= seq![chunk] + chunks.skip(base as int + 1));
            vstd::seq_lib::lemma_flatten_concat(seq![chunk], chunks.skip(base as int + 1));
            seq![chunk].lemma_flatten_one_element();
            assert(chunks.skip(base as int).flatten() == chunk + chunks.skip(
                base as int + 1,
            ).flatten());
            assert(o.result == rest.result);
            assert(s1.data + chunks.skip(base as int + 1).flatten() =~= s.data + chunks.skip(
                base as int,
            ).flatten());
            assert(o.acks =~= seq![spec_ack_packet(s.packet_id)] + rest.acks);
            assert forall|k: int| 0 <= k < o.acks.len() implies #[trigger] o.acks[k]
                == spec_ack_packet((((base + k) % 256) as u8)) by {
                if k == 0 {
                    assert(o.acks[0] == spec_ack_packet(s.packet_id));
                    assert((base + 0) % 256 == base % 256);
                } else {
                    assert(o.acks[k] == rest.acks[k - 1]);
                    assert(rest.acks[k - 1] == spec_ack_packet((((base + 1 + (k - 1)) % 256) as u8)));
                    assert(base + 1 + (k - 1) == base + k);
                }
            }
        } else {
            let s1 = SpecReader { packet_id: s.packet_id, initial: s.initial, data: s.data + chunk };
            assert(spec_step(s, p) == (s1, SpecStep::Done));
            assert(o.result == Ok::<Seq<u8>, Seq<char>>(s1.data));
            assert(chunks.skip(base as int).len() == 1);
            chunks.skip(base as int).lemma_flatten_one_element();
            assert(chunks.skip(base as int).flatten() == chunk);
            assert(o.acks.len() == 0);
        }
    }
}

/// Law: reassembly from the start of a response.  Feeding the receive loop
/// any interleaving of a complete fragmented response with notification
/// packets yields exactly the concatenation of the chunks' payloads, with
/// one acknowledgement per continuation packet, in sequence order.
pub proof fn lemma_reassembly_from_start(packets: Seq<Seq<u8>>, chunks: Seq<Seq<u8>>)
    requires
        wf_chunks(chunks),
        is_interleaved_response(packets, chunks, 0),
    ensures
        ({
            let o = spec_read(
                SpecReader { packet_id: 0, initial: true, data: Seq::empty() },
                packets,
            );
            &&& o.result matches Ok(response) && response == chunks.flatten()
            &&& o.acks.len() == chunks.len() - 1
            &&& forall|k: int|
                0 <= k < o.acks.len() ==> #[trigger] o.acks[k] == spec_ack_packet(
                    ((k % 256) as u8),
                )
        }),
{
    let s = SpecReader { packet_id: 0, initial: true, data: Seq::<u8>::empty() };
    lemma_reassembly(packets, chunks, 0, s);
    assert(chunks.skip(0) =~= chunks);
    assert(s.data + chunks.flatten() =~= chunks.flatten());
}

} // verus!
