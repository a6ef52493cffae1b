//! Tests of the packet codec, the fragmenter and the reassembler, driven
//! over synthetic inbound and outbound streams.

use polar_pftp::codec::{build_ack, build_packet, tail_bits, PACKET_SIZE};
use polar_pftp::commands::send_file_frame;
use polar_pftp::errors::PolarError;
use polar_pftp::fragment::outbound_packets;
use polar_pftp::reader::{
    build_notification_packet, build_response_packet, read_stream, Notification,
};

/// The meaningful payload of an outbound packet, as a receiver would slice
/// it: the length field counts the payload plus the trailing zero slot.
fn outbound_payload(packet: &[u8]) -> Vec<u8> {
    let size = (packet[1] >> 2) as usize;
    if size == 0 {
        Vec::new()
    } else {
        packet[3..3 + size - 1].to_vec()
    }
}

#[test]
fn tail_bits_wraps_modulo_256() {
    assert_eq!(tail_bits(0), 0);
    assert_eq!(tail_bits(255), 255);
    assert_eq!(tail_bits(256), 0);
    assert_eq!(tail_bits(999), 231);
}

#[test]
fn single_packet_framing() {
    let chunk: Vec<u8> = vec![0x41, 0x42, 0x43];
    let packet = build_packet(&chunk, 0, false);
    assert_eq!(packet.len(), PACKET_SIZE);
    assert_eq!(packet[0], 0x01);
    assert_eq!(packet[1], (chunk.len() as u8 + 1) << 2);
    assert_eq!(packet[2], 0x00);
    assert_eq!(&packet[3..6], &[0x41, 0x42, 0x43]);
    assert!(packet[6..].iter().all(|b| *b == 0));
}

#[test]
fn ack_packet_is_exact() {
    let ack = build_ack(0);
    let mut expected = vec![0x01, 0x05, 0x00];
    expected.resize(64, 0);
    assert_eq!(ack, expected);
}

#[test]
fn write_tiny_single_outbound_packet() {
    // One small upload frame travels in one full-size packet.
    let frame = send_file_frame("/U/0/TEST", &[0x41, 0x42, 0x43]);
    let mut expected = vec![13, 0x00, 0x08, 0x01, 0x12, 9];
    expected.extend_from_slice(b"/U/0/TEST");
    expected.extend_from_slice(&[0x41, 0x42, 0x43]);
    expected.push(0);
    assert_eq!(frame, expected);

    let packets = outbound_packets(&frame);
    assert_eq!(packets.len(), 1);
    let packet = &packets[0];
    assert_eq!(packet.len(), 64);
    assert_eq!(packet[0], 0x01);
    assert_eq!(packet[1], ((frame.len() as u8) + 1) << 2);
    assert_eq!(packet[2], 0x00);
    assert_eq!(&packet[3..3 + frame.len()], frame.as_slice());
    assert!(packet[3 + frame.len()..].iter().all(|b| *b == 0));
}

#[test]
fn fragmentation_by_size() {
    // Lengths that straddle the 61-byte chunk boundary and its multiples.
    for n in [1usize, 60, 61, 62, 63, 64, 65, 121, 122, 123, 999, 4321] {
        let data: Vec<u8> = (0..n).map(|i| (i % 251) as u8).collect();
        let packets = outbound_packets(&data);
        let expected_count = (n - 1) / 61 + 1;
        assert_eq!(packets.len(), expected_count, "count for {}", n);
        let mut reassembled: Vec<u8> = Vec::new();
        for (i, packet) in packets.iter().enumerate() {
            assert_eq!(packet.len(), 64, "size for {}", n);
            assert_eq!(packet[0], 0x01);
            assert_eq!(packet[2], (i % 256) as u8, "sequence for {}", n);
            let has_more = packet[1] & 0x01 != 0;
            assert_eq!(has_more, i + 1 < expected_count, "continuation for {}", n);
            assert_eq!(packet[1] & 0x02, 0, "notification bit for {}", n);
            reassembled.extend_from_slice(&outbound_payload(packet));
        }
        assert_eq!(reassembled, data, "round trip for {}", n);
    }
}

#[test]
fn reassembles_single_packet_response() {
    let payload: Vec<u8> = vec![0x41, 0x42, 0x43, 0x00];
    let packets = vec![build_response_packet(&payload, 0, false)];
    let (result, acks, notes) = read_stream(&packets);
    assert_eq!(result.unwrap(), payload);
    assert!(acks.is_empty());
    assert!(notes.is_empty());
}

#[test]
fn two_packet_response_with_exact_ack() {
    // A 75-byte response: a full first packet and a final partial packet.
    let full: Vec<u8> = (0..75).map(|i| (i as u8).wrapping_mul(3)).collect();
    let packets = vec![
        build_response_packet(&full[0..59], 0, true),
        build_response_packet(&full[59..75], 1, false),
    ];
    let (result, acks, notes) = read_stream(&packets);
    assert_eq!(result.unwrap(), full);
    let mut expected_ack = vec![0x01, 0x05, 0x00];
    expected_ack.resize(64, 0);
    assert_eq!(acks, vec![expected_ack]);
    assert!(notes.is_empty());
}

#[test]
fn error_status_aborts_response() {
    // First packet carries status 103: no such file or directory.
    let mut packet = vec![0x11, 0x08, 0x00, 103];
    packet.resize(64, 0);
    let (result, acks, _notes) = read_stream(&vec![packet]);
    match result {
        Err(PolarError::PolarError { error }) => {
            assert_eq!(error, "Error: no such file or directory");
        }
        other => panic!("expected a protocol error, got {:?}", other),
    }
    assert!(acks.is_empty());
}

#[test]
fn wrong_tag_aborts_response() {
    let mut packet = vec![0x07, 0x08, 0x00, 2];
    packet.resize(64, 0);
    let (result, _acks, _notes) = read_stream(&vec![packet]);
    match result {
        Err(PolarError::PolarError { error }) => {
            assert_eq!(error, "Error: try again");
        }
        other => panic!("expected a protocol error, got {:?}", other),
    }
}

#[test]
fn sequence_mismatch_aborts_response() {
    // The second packet skips sequence number 1.
    let full: Vec<u8> = (0..70).map(|i| i as u8).collect();
    let packets = vec![
        build_response_packet(&full[0..59], 0, true),
        build_response_packet(&full[59..70], 2, false),
    ];
    let (result, _acks, _notes) = read_stream(&packets);
    match result {
        Err(PolarError::PolarError { error }) => {
            assert_eq!(error, "Error: unexpected sequence number");
        }
        other => panic!("expected a protocol error, got {:?}", other),
    }
}

#[test]
fn battery_notification_is_transparent() {
    // A battery notification between two response packets neither changes
    // the response nor advances the sequence counter.
    let full: Vec<u8> = (0..80).map(|i| i as u8).collect();
    let packets = vec![
        build_response_packet(&full[0..59], 0, true),
        build_notification_packet(3, 87),
        build_response_packet(&full[59..80], 1, false),
    ];
    let (result, acks, notes) = read_stream(&packets);
    assert_eq!(result.unwrap(), full);
    assert_eq!(acks.len(), 1);
    assert_eq!(notes, vec![Notification::Battery(87)]);
    assert_eq!(
        notes[0].describe(),
        "Notification received: battery status: 87%"
    );
}

#[test]
fn notification_at_any_position() {
    let full: Vec<u8> = (0..70).map(|i| i as u8).collect();
    let base = vec![
        build_response_packet(&full[0..59], 0, true),
        build_response_packet(&full[59..70], 1, false),
    ];
    for position in 0..=2 {
        let mut packets = base.clone();
        packets.insert(position, build_notification_packet(2, 0));
        let (result, _acks, notes) = read_stream(&packets);
        if position == 2 {
            // After the final packet the response is already complete.
            assert_eq!(result.unwrap(), full);
            assert!(notes.is_empty());
        } else {
            assert_eq!(result.unwrap(), full);
            assert_eq!(notes, vec![Notification::Idling]);
        }
    }
}

#[test]
fn notification_kinds() {
    assert_eq!(
        Notification::PushSettings.describe(),
        "Notification received: push notification settings"
    );
    assert_eq!(
        Notification::Idling.describe(),
        "Notification received: device is idling"
    );
    assert_eq!(
        Notification::Unknown(9).describe(),
        "Notification received: unknown type 9"
    );
}

#[test]
fn sequence_wrap_over_260_packets() {
    // 260 packets: the sequence byte passes through 0xFF and wraps to 0x00.
    let mut chunks: Vec<Vec<u8>> = Vec::new();
    chunks.push((0..59).map(|i| i as u8).collect());
    for p in 1..259 {
        chunks.push((0..61).map(|i| ((i + p) % 256) as u8).collect());
    }
    chunks.push(vec![7, 7, 7]);
    let mut packets: Vec<Vec<u8>> = Vec::new();
    let total = chunks.len();
    for (i, chunk) in chunks.iter().enumerate() {
        packets.push(build_response_packet(chunk, i, i + 1 < total));
    }
    let (result, acks, _notes) = read_stream(&packets);
    let expected: Vec<u8> = chunks.concat();
    assert_eq!(expected.len(), 59 + 258 * 61 + 3);
    assert_eq!(result.unwrap(), expected);
    assert_eq!(acks.len(), 259);
    assert_eq!(acks[254][2], 254);
    assert_eq!(acks[255][2], 255);
    assert_eq!(acks[256][2], 0);
    assert_eq!(acks[257][2], 1);
}

#[test]
fn truncated_stream_is_an_error() {
    let payload: Vec<u8> = vec![1, 2, 3];
    let packets = vec![build_response_packet(&payload, 0, true)];
    let (result, acks, _notes) = read_stream(&packets);
    match result {
        Err(PolarError::PolarError { error }) => {
            assert_eq!(error, "Error: truncated response");
        }
        other => panic!("expected a protocol error, got {:?}", other),
    }
    assert_eq!(acks.len(), 1);
}
