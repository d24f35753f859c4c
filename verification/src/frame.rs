//! Header decoder: from the bytes of one network-layer frame to a view of its
//! headers and the place where its payload starts.
//!
//! The fields of the headers are read by `etherparse`. Where the payload
//! starts is computed here, from the frame's own bytes, and never lies beyond
//! the end of the frame. A frame that the parser rejects is not an error: it
//! decodes to a view without headers and with an empty payload.

use vstd::prelude::*;
use etherparse::{IpHeader, PacketHeaders, TransportHeader};

verus! {

/// Length of the shortest IP header. No shorter frame can be parsed.
pub const MIN_IP_HEADER_LEN: usize = 20;

/// Length of the fixed IPv6 header.
pub const IPV6_HEADER_LEN: usize = 40;

/// Length of a TCP header without options.
pub const MIN_TCP_HEADER_LEN: usize = 20;

/// Length of a UDP header.
pub const UDP_HEADER_LEN: usize = 8;

/// Offset, inside a TCP header, of the byte whose high nibble is the data offset.
pub const TCP_DATA_OFFSET_BYTE: usize = 12;

/// The fields of an IP header that are handed on to an observer.
#[allow(inconsistent_fields)]
#[derive(Clone, Copy, Debug, PartialEq, Eq)]
pub enum IpSummary {
    V4 { source: [u8; 4], destination: [u8; 4], time_to_live: u8, protocol: u8, payload_len: u16 },
    V6 { source: [u8; 16], destination: [u8; 16], hop_limit: u8, next_header: u8 },
}

/// The fields of a TCP header that are handed on to an observer.
#[derive(Clone, Copy, Debug, PartialEq, Eq)]
pub struct TcpSummary {
    pub source_port: u16,
    pub destination_port: u16,
    pub sequence_number: u32,
    pub acknowledgment_number: u32,
    pub window_size: u16,
    pub syn: bool,
    pub fin: bool,
    pub rst: bool,
    pub psh: bool,
    pub ack: bool,
}

/// The fields of a UDP header that are handed on to an observer.
#[derive(Clone, Copy, Debug, PartialEq, Eq)]
pub struct UdpSummary {
    pub source_port: u16,
    pub destination_port: u16,
    pub length: u16,
}

/// What follows the IP header of a frame that the parser accepted.
#[derive(Clone, Copy, Debug, PartialEq, Eq)]
pub enum TransportSummary {
    Tcp(TcpSummary),
    Udp(UdpSummary),
    /// Any other protocol.
    Other,
}

/// What `etherparse::IpHeader::from_slice` makes of a frame: the IP header it
/// found, or `None` where it rejects the frame.
pub uninterp spec fn ip_header_of(frame: Seq<u8>) -> Option<IpSummary>;

/// What `etherparse::PacketHeaders::from_ip_slice` makes of a frame: the
/// transport header it found behind the IP header, or `None` where it rejects
/// the frame.
pub uninterp spec fn transport_of(frame: Seq<u8>) -> Option<TransportSummary>;

/// Calls `etherparse::IpHeader::from_slice` and copies the fields of the IP
/// header it returns. The contract only gives the result its name: the parser
/// reads nothing but the frame, so equal frames give equal headers.
#[verifier::external_body]
fn read_ip_header(frame: &[u8]) -> (r: Option<IpSummary>)
    ensures
        r == ip_header_of(frame@),
{
    let (ip, _, _) = IpHeader::from_slice(frame).ok()?;
    Some(match ip {
        IpHeader::Version4(v, _) => IpSummary::V4 { source: v.source, destination: v.destination, time_to_live: v.time_to_live, protocol: v.protocol, payload_len: v.payload_len },
        IpHeader::Version6(v, _) => IpSummary::V6 { source: v.source, destination: v.destination, hop_limit: v.hop_limit, next_header: v.next_header },
    })
}

/// Calls `etherparse::PacketHeaders::from_ip_slice`, which parses the IP
/// header, its extensions and the transport header, and copies the fields of
/// the transport header. The contract only gives the result its name.
#[verifier::external_body]
fn read_transport(frame: &[u8]) -> (r: Option<TransportSummary>)
    ensures
        r == transport_of(frame@),
{
    let headers = PacketHeaders::from_ip_slice(frame).ok()?;
    Some(match headers.transport {
        Some(TransportHeader::Tcp(t)) => TransportSummary::Tcp(TcpSummary { source_port: t.source_port, destination_port: t.destination_port, sequence_number: t.sequence_number, acknowledgment_number: t.acknowledgment_number, window_size: t.window_size, syn: t.syn, fin: t.fin, rst: t.rst, psh: t.psh, ack: t.ack }),
        Some(TransportHeader::Udp(u)) => TransportSummary::Udp(UdpSummary { source_port: u.source_port, destination_port: u.destination_port, length: u.length }),
        _ => TransportSummary::Other,
    })
}

/// The high four bits of a byte.
pub open spec fn high_nibble(b: u8) -> nat {
    (b / 16) as nat
}

/// The low four bits of a byte.
pub open spec fn low_nibble(b: u8) -> nat {
    (b % 16) as nat
}

/// The IP version that a frame announces in its first byte; 0 for an empty frame.
pub open spec fn ip_version(frame: Seq<u8>) -> nat {
    if frame.len() == 0 {
        0
    } else {
        high_nibble(frame[0])
    }
}

/// Length of the network-layer header: four bytes for each word that an IPv4
/// header announces, forty bytes for IPv6, nothing for any other version.
pub open spec fn network_header_len(frame: Seq<u8>) -> nat {
    if ip_version(frame) == 4 {
        low_nibble(frame[0]) * 4
    } else if ip_version(frame) == 6 {
        IPV6_HEADER_LEN as nat
    } else {
        0
    }
}

/// Length of a TCP header that starts at `start`: four bytes for each word of
/// its data offset, and never under twenty. Where the frame ends before the
/// data offset, twenty.
pub open spec fn tcp_header_len(frame: Seq<u8>, start: nat) -> nat {
    if frame.len() > start + TCP_DATA_OFFSET_BYTE {
        let announced = high_nibble(frame[start + TCP_DATA_OFFSET_BYTE as int]) * 4;
        if announced >= MIN_TCP_HEADER_LEN {
            announced
        } else {
            MIN_TCP_HEADER_LEN as nat
        }
    } else {
        MIN_TCP_HEADER_LEN as nat
    }
}

/// Length of the transport header that starts at `start`.
pub open spec fn transport_header_len(
    frame: Seq<u8>,
    start: nat,
    transport: TransportSummary,
) -> nat {
    match transport {
        TransportSummary::Tcp(_) => tcp_header_len(frame, start),
        TransportSummary::Udp(_) => UDP_HEADER_LEN as nat,
        TransportSummary::Other => 0,
    }
}

/// Where the parts of a frame lie.
pub struct Layout {
    pub network_header_len: nat,
    pub transport_header_len: nat,
    pub payload_offset: nat,
    pub payload: Seq<u8>,
}

/// The layout of a frame whose transport header is `transport`; `None` stands
/// for a frame that the parser rejected. The payload starts behind both
/// headers, or at the end of the frame if they reach beyond it. A rejected
/// frame has no headers and no payload.
pub open spec fn layout_of(frame: Seq<u8>, transport: Option<TransportSummary>) -> Layout {
    match transport {
        None => Layout {
            network_header_len: 0,
            transport_header_len: 0,
            payload_offset: 0,
            payload: Seq::empty(),
        },
        Some(t) => {
            let network = network_header_len(frame);
            let behind = transport_header_len(frame, network, t);
            let offset = if network + behind <= frame.len() {
                network + behind
            } else {
                frame.len()
            };
            Layout {
                network_header_len: network,
                transport_header_len: behind,
                payload_offset: offset,
                payload: frame.skip(offset as int),
            }
        },
    }
}

/// A read-only interpretation of the headers of one frame. It borrows the
/// frame's bytes for the payload and cannot outlive them.
#[derive(Clone, Copy, Debug)]
pub struct HeaderView<'a> {
    /// The IP header, where the frame was accepted.
    pub ip: Option<IpSummary>,
    /// The transport header; `None` where the frame was rejected.
    pub transport: Option<TransportSummary>,
    pub network_header_len: usize,
    pub transport_header_len: usize,
    pub payload_offset: usize,
    pub payload: &'a [u8],
}

impl<'a> HeaderView<'a> {
    /// Where this view puts the parts of its frame.
    pub open spec fn layout(&self) -> Layout {
        Layout {
            network_header_len: self.network_header_len as nat,
            transport_header_len: self.transport_header_len as nat,
            payload_offset: self.payload_offset as nat,
            payload: self.payload@,
        }
    }

    /// The view is the decoding of `frame` with the given headers.
    pub open spec fn decodes(
        &self,
        frame: Seq<u8>,
        ip: Option<IpSummary>,
        transport: Option<TransportSummary>,
    ) -> bool {
        &&& self.transport == transport
        &&& self.ip == (if transport is Some { ip } else { None })
        &&& self.layout() == layout_of(frame, transport)
    }
}

/// The headers under which a frame is decoded: those that the packet parser
/// returns, and none for a frame shorter than any IP header.
pub open spec fn accepted_transport(frame: Seq<u8>) -> Option<TransportSummary> {
    if frame.len() < MIN_IP_HEADER_LEN {
        None
    } else {
        transport_of(frame)
    }
}

proof fn lemma_nibbles(b: u8)
    ensures
        (b >> 4) as nat == high_nibble(b),
        (b & 0x0f) as nat == low_nibble(b),
        high_nibble(b) <= 15,
        low_nibble(b) <= 15,
{
    assert(b >> 4 == b / 16) by (bit_vector);
    assert(b & 0x0f == b % 16) by (bit_vector);
}

/// Length of the network-layer header that the first byte of `frame` announces.
pub fn measure_network_header(frame: &[u8]) -> (len: usize)
    ensures
        len == network_header_len(frame@),
        len <= 60,
{
    if frame.len() == 0 {
        return 0;
    }
    let first = frame[0];
    proof {
        lemma_nibbles(first);
    }
    let version = first >> 4;
    if version == 4 {
        ((first & 0x0f) as usize) * 4
    } else if version == 6 {
        IPV6_HEADER_LEN
    } else {
        0
    }
}

/// Length of the transport header of `frame` that starts at `start`.
pub fn measure_transport_header(frame: &[u8], start: usize, transport: &TransportSummary) -> (len:
    usize)
    ensures
        len == transport_header_len(frame@, start as nat, *transport),
        len <= 60,
{
    match transport {
        TransportSummary::Tcp(_) => {
            if frame.len() > TCP_DATA_OFFSET_BYTE && start < frame.len() - TCP_DATA_OFFSET_BYTE {
                let at = frame[start + TCP_DATA_OFFSET_BYTE];
                proof {
                    lemma_nibbles(at);
                }
                let announced = ((at >> 4) as usize) * 4;
                if announced >= MIN_TCP_HEADER_LEN {
                    announced
                } else {
                    MIN_TCP_HEADER_LEN
                }
            } else {
                MIN_TCP_HEADER_LEN
            }
        },
        TransportSummary::Udp(_) => UDP_HEADER_LEN,
        TransportSummary::Other => 0,
    }
}

/// Lays out a frame whose headers are known. `transport` is `None` for a frame
/// that the parser rejected: such a frame decodes to an empty view.
pub fn layout_frame<'a>(
    frame: &'a [u8],
    ip: Option<IpSummary>,
    transport: Option<TransportSummary>,
) -> (view: HeaderView<'a>)
    ensures
        view.decodes(frame@, ip, transport),
        view.payload_offset <= frame@.len(),
{
    match transport {
        None => {
            let empty = vstd::slice::slice_subrange(frame, 0, 0);
            assert(empty@ =~= Seq::<u8>::empty());
            HeaderView {
                ip: None,
                transport: None,
                network_header_len: 0,
                transport_header_len: 0,
                payload_offset: 0,
                payload: empty,
            }
        },
        Some(t) => {
            let network = measure_network_header(frame);
            let behind = measure_transport_header(frame, network, &t);
            let reach = network + behind;
            let offset = if reach <= frame.len() {
                reach
            } else {
                frame.len()
            };
            let payload = vstd::slice::slice_subrange(frame, offset, frame.len());
            assert(payload@ =~= frame@.skip(offset as int));
            HeaderView {
                ip,
                transport: Some(t),
                network_header_len: network,
                transport_header_len: behind,
                payload_offset: offset,
                payload,
            }
        },
    }
}

/// Decodes one frame. Never fails: a frame that is too short or that the
/// parser rejects decodes to a view without headers, with payload offset 0 and
/// an empty payload.
pub fn decode_frame<'a>(frame: &'a [u8]) -> (view: HeaderView<'a>)
    ensures
        view.decodes(frame@, ip_header_of(frame@), accepted_transport(frame@)),
        view.payload_offset <= frame@.len(),
        frame@.len() < MIN_IP_HEADER_LEN ==> view.payload_offset == 0 && view.payload@.len() == 0,
{
    if frame.len() < MIN_IP_HEADER_LEN {
        return layout_frame(frame, None, None);
    }
    let transport = read_transport(frame);
    let ip = match transport {
        Some(_) => read_ip_header(frame),
        None => None,
    };
    layout_frame(frame, ip, transport)
}

/// An accepted IPv4 frame whose IP header has five words, followed by a TCP
/// header of five words, has its payload at offset 40.
pub proof fn lemma_ipv4_tcp_payload_offset(frame: Seq<u8>, tcp: TcpSummary)
    requires
        frame.len() >= 40,
        ip_version(frame) == 4,
        low_nibble(frame[0]) == 5,
        high_nibble(frame[32]) == 5,
    ensures
        layout_of(frame, Some(TransportSummary::Tcp(tcp))).payload_offset == 40,
        layout_of(frame, Some(TransportSummary::Tcp(tcp))).payload == frame.skip(40),
{
}

/// An accepted IPv4 frame whose IP header has five words, followed by a UDP
/// header, has its payload at offset 28.
pub proof fn lemma_ipv4_udp_payload_offset(frame: Seq<u8>, udp: UdpSummary)
    requires
        frame.len() >= 28,
        ip_version(frame) == 4,
        low_nibble(frame[0]) == 5,
    ensures
        layout_of(frame, Some(TransportSummary::Udp(udp))).payload_offset == 28,
        layout_of(frame, Some(TransportSummary::Udp(udp))).payload == frame.skip(28),
{
}

/// A frame shorter than the shortest IP header is decoded without headers, to
/// payload offset 0 and an empty payload.
pub proof fn lemma_short_frame_is_empty(frame: Seq<u8>)
    requires
        frame.len() < MIN_IP_HEADER_LEN,
    ensures
        accepted_transport(frame) is None,
        layout_of(frame, accepted_transport(frame)).payload_offset == 0,
        layout_of(frame, accepted_transport(frame)).payload.len() == 0,
{
}

/// The payload never starts beyond the end of the frame, and it is what the
/// frame holds from there on or, for a rejected frame, nothing.
pub proof fn lemma_payload_within_frame(frame: Seq<u8>, transport: Option<TransportSummary>)
    ensures
        layout_of(frame, transport).payload_offset <= frame.len(),
        layout_of(frame, transport).payload.len() <= frame.len() - layout_of(
            frame,
            transport,
        ).payload_offset,
        layout_of(frame, transport).payload_offset <= layout_of(frame, transport).network_header_len
            + layout_of(frame, transport).transport_header_len,
{
}

} // verus!
