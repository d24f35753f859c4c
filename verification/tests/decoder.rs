use rust_wintun::frame::{
    decode_frame, layout_frame, measure_network_header, measure_transport_header, IpSummary,
    TcpSummary, TransportSummary, UdpSummary,
};

fn decoder_ipv4_header(ihl: u8, protocol: u8, behind: usize) -> Vec<u8> {
    let header_len = ihl as usize * 4;
    let total = header_len + behind;
    let mut header = vec![
        0x40 | ihl,
        0,
        (total >> 8) as u8,
        total as u8,
        0,
        0,
        0x40,
        0,
        64,
        protocol,
        0,
        0,
        192,
        168,
        1,
        1,
        192,
        168,
        1,
        2,
    ];
    header.resize(header_len, 0);
    header
}

fn decoder_tcp_header(source: u16, destination: u16, words: u8, flags: u8) -> Vec<u8> {
    let mut header = vec![
        (source >> 8) as u8,
        source as u8,
        (destination >> 8) as u8,
        destination as u8,
        0,
        0,
        0,
        7,
        0,
        0,
        0,
        9,
        words << 4,
        flags,
        0x10,
        0x00,
        0,
        0,
        0,
        0,
    ];
    if words > 5 {
        header.resize(words as usize * 4, 0);
    }
    header
}

fn decoder_udp_header(source: u16, destination: u16, payload: usize) -> Vec<u8> {
    let length = 8 + payload;
    vec![
        (source >> 8) as u8,
        source as u8,
        (destination >> 8) as u8,
        destination as u8,
        (length >> 8) as u8,
        length as u8,
        0,
        0,
    ]
}

fn decoder_tcp(source_port: u16, destination_port: u16) -> TcpSummary {
    TcpSummary {
        source_port,
        destination_port,
        sequence_number: 7,
        acknowledgment_number: 9,
        window_size: 0x1000,
        syn: false,
        fin: false,
        rst: false,
        psh: true,
        ack: true,
    }
}

#[test]
fn ipv4_tcp_payload_starts_at_40() {
    let payload = b"hello";
    let mut frame = decoder_ipv4_header(5, 6, 20 + payload.len());
    frame.extend(decoder_tcp_header(40000, 80, 5, 0x18));
    frame.extend_from_slice(payload);
    let view = decode_frame(&frame);
    assert_eq!(view.network_header_len, 20);
    assert_eq!(view.transport_header_len, 20);
    assert_eq!(view.payload_offset, 40);
    assert_eq!(view.payload, &payload[..]);
    assert_eq!(
        view.ip,
        Some(IpSummary::V4 {
            source: [192, 168, 1, 1],
            destination: [192, 168, 1, 2],
            time_to_live: 64,
            protocol: 6,
            payload_len: 25,
        })
    );
    assert_eq!(view.transport, Some(TransportSummary::Tcp(decoder_tcp(40000, 80))));
}

#[test]
fn ipv4_udp_payload_starts_at_28() {
    let payload = [1u8, 2, 3];
    let mut frame = decoder_ipv4_header(5, 17, 8 + payload.len());
    frame.extend(decoder_udp_header(5353, 53, payload.len()));
    frame.extend_from_slice(&payload);
    let view = decode_frame(&frame);
    assert_eq!(view.payload_offset, 28);
    assert_eq!(view.network_header_len, 20);
    assert_eq!(view.transport_header_len, 8);
    assert_eq!(view.payload, &payload[..]);
    assert_eq!(
        view.transport,
        Some(TransportSummary::Udp(UdpSummary { source_port: 5353, destination_port: 53, length: 11 }))
    );
}

#[test]
fn short_frames_decode_to_nothing() {
    let mut frame = decoder_ipv4_header(5, 6, 20);
    frame.extend(decoder_tcp_header(1, 2, 5, 0));
    for len in 0..20 {
        let view = decode_frame(&frame[..len]);
        assert_eq!(view.payload_offset, 0);
        assert!(view.payload.is_empty());
        assert_eq!(view.ip, None);
        assert_eq!(view.transport, None);
        assert_eq!(view.network_header_len, 0);
        assert_eq!(view.transport_header_len, 0);
    }
}

#[test]
fn empty_frame_decodes_to_nothing() {
    let view = decode_frame(&[]);
    assert_eq!(view.payload_offset, 0);
    assert!(view.payload.is_empty());
    assert_eq!(view.transport, None);
}

#[test]
fn options_move_the_payload() {
    let payload = b"xy";
    let mut frame = decoder_ipv4_header(6, 6, 24 + payload.len());
    frame.extend(decoder_tcp_header(1000, 2000, 6, 0x02));
    frame.extend_from_slice(payload);
    let view = decode_frame(&frame);
    assert_eq!(view.network_header_len, 24);
    assert_eq!(view.transport_header_len, 24);
    assert_eq!(view.payload_offset, 48);
    assert_eq!(view.payload, &payload[..]);
    match view.transport {
        Some(TransportSummary::Tcp(tcp)) => {
            assert!(tcp.syn);
            assert!(!tcp.ack);
        }
        other => panic!("no tcp header: {:?}", other),
    }
}

#[test]
fn ipv6_udp_payload_starts_at_48() {
    let payload = [9u8; 4];
    let mut frame = vec![0x60, 0, 0, 0, 0, 12, 17, 64];
    frame.extend_from_slice(&[0x20; 16]);
    frame.extend_from_slice(&[0x30; 16]);
    frame.extend(decoder_udp_header(1111, 2222, payload.len()));
    frame.extend_from_slice(&payload);
    let view = decode_frame(&frame);
    assert_eq!(view.network_header_len, 40);
    assert_eq!(view.transport_header_len, 8);
    assert_eq!(view.payload_offset, 48);
    assert_eq!(view.payload, &payload[..]);
    assert_eq!(
        view.ip,
        Some(IpSummary::V6 {
            source: [0x20; 16],
            destination: [0x30; 16],
            hop_limit: 64,
            next_header: 17,
        })
    );
}

#[test]
fn unknown_version_is_rejected() {
    let mut frame = decoder_ipv4_header(5, 6, 20);
    frame.extend(decoder_tcp_header(1, 2, 5, 0));
    frame[0] = 0x15;
    let view = decode_frame(&frame);
    assert_eq!(view.transport, None);
    assert_eq!(view.ip, None);
    assert_eq!(view.payload_offset, 0);
    assert!(view.payload.is_empty());
}

#[test]
fn truncated_transport_header_is_rejected() {
    let mut frame = decoder_ipv4_header(5, 6, 20);
    frame.extend(decoder_tcp_header(1, 2, 5, 0));
    let view = decode_frame(&frame[..30]);
    assert_eq!(view.transport, None);
    assert_eq!(view.payload_offset, 0);
    assert!(view.payload.is_empty());
}

#[test]
fn other_protocols_have_no_transport_header() {
    let mut frame = decoder_ipv4_header(5, 47, 4);
    frame.extend_from_slice(&[1, 2, 3, 4]);
    let view = decode_frame(&frame);
    assert_eq!(view.transport, Some(TransportSummary::Other));
    assert_eq!(view.transport_header_len, 0);
    assert_eq!(view.payload_offset, 20);
    assert_eq!(view.payload, &[1u8, 2, 3, 4][..]);
}

#[test]
fn payload_offset_is_clamped_to_the_frame() {
    let mut frame = decoder_ipv4_header(5, 6, 20);
    frame.extend(decoder_tcp_header(1, 2, 15, 0));
    frame.truncate(40);
    let view = layout_frame(&frame, None, Some(TransportSummary::Tcp(decoder_tcp(1, 2))));
    assert_eq!(view.network_header_len, 20);
    assert_eq!(view.transport_header_len, 60);
    assert_eq!(view.payload_offset, 40);
    assert!(view.payload.is_empty());
}

#[test]
fn small_data_offset_counts_as_twenty() {
    let mut frame = decoder_ipv4_header(5, 6, 20);
    frame.extend(decoder_tcp_header(1, 2, 3, 0));
    frame.extend_from_slice(b"abc");
    let tcp = TransportSummary::Tcp(decoder_tcp(1, 2));
    assert_eq!(measure_transport_header(&frame, 20, &tcp), 20);
    let view = layout_frame(&frame, None, Some(tcp));
    assert_eq!(view.payload_offset, 40);
    assert_eq!(view.payload, &b"abc"[..]);
}

#[test]
fn data_offset_beyond_the_frame_counts_as_twenty() {
    let frame = decoder_ipv4_header(5, 6, 0);
    let tcp = TransportSummary::Tcp(decoder_tcp(1, 2));
    assert_eq!(measure_transport_header(&frame, 20, &tcp), 20);
    let view = layout_frame(&frame, None, Some(tcp));
    assert_eq!(view.payload_offset, 20);
    assert!(view.payload.is_empty());
}

#[test]
fn network_header_length_follows_the_first_byte() {
    assert_eq!(measure_network_header(&[]), 0);
    assert_eq!(measure_network_header(&[0x45]), 20);
    assert_eq!(measure_network_header(&[0x4f]), 60);
    assert_eq!(measure_network_header(&[0x40]), 0);
    assert_eq!(measure_network_header(&[0x60]), 40);
    assert_eq!(measure_network_header(&[0x6f]), 40);
    assert_eq!(measure_network_header(&[0x00]), 0);
    assert_eq!(measure_network_header(&[0xf5]), 0);
}

#[test]
fn rejected_frame_has_no_layout() {
    let frame = [0x45u8; 64];
    let view = layout_frame(&frame, None, None);
    assert_eq!(view.payload_offset, 0);
    assert_eq!(view.network_header_len, 0);
    assert!(view.payload.is_empty());
}
