//! Raw-capture frame classification.
//!
//! The raw-capture listener strategy watches a link-layer channel and must
//! decide, frame by frame, whether what arrived is a probe worth recording.
//! This module decodes Ethernet, IPv4, TCP and UDP headers directly from the
//! captured bytes and applies the recording rules: keep only IPv4 frames
//! addressed to the local endpoint, drop pure RST/ACK housekeeping segments,
//! and never record the operator's own management traffic on the access
//! port.

use crate::event::Ipv4Address;
use crate::event::PacketInfo;
use crate::event::PacketInfoView;
use crate::event::Protocol;
use crate::flags::spec_flag_names;
use crate::flags::tcp_flags_to_iter;
use crate::flags::TCP_ACK;
use crate::flags::TCP_RST;
use vstd::prelude::*;

verus! {

/// The decoded five-tuple of a recordable frame, with the TCP control bits
/// where the frame carried a TCP segment (and 0 for UDP).
#[derive(Clone, Copy, PartialEq, Eq, Structural, Debug)]
pub struct Flow {
    pub source_ip: Ipv4Address,
    pub dest_ip: Ipv4Address,
    pub source_port: u16,
    pub dest_port: u16,
    pub protocol: Protocol,
    pub tcp_flags: u8,
}

/// The big-endian 16-bit value at offset `i` of `b`.
pub open spec fn spec_be16(b: Seq<u8>, i: int) -> u16
    recommends
        0 <= i,
        i + 2 <= b.len(),
{
    (b[i] as u16 as int * 256 + b[i + 1] as int) as u16
}

/// The IPv4 address spelled by the four bytes at offset `i` of `b`.
pub open spec fn spec_ipv4_at(b: Seq<u8>, i: int) -> Ipv4Address
    recommends
        0 <= i,
        i + 4 <= b.len(),
{
    Ipv4Address { o0: b[i], o1: b[i + 1], o2: b[i + 2], o3: b[i + 3] }
}

/// The frame is long enough for an Ethernet header and its EtherType marks
/// an IPv4 payload.
pub open spec fn spec_eth_is_ipv4(f: Seq<u8>) -> bool {
    f.len() >= 14 && f[12] == 8 && f[13] == 0
}

/// The IPv4 header starting right after the Ethernet header is well formed:
/// version 4, a header length of at least five words that fits in the frame.
pub open spec fn spec_ipv4_well_formed(f: Seq<u8>) -> bool {
    &&& f.len() >= 34
    &&& f[14] >> 4 == 4
    &&& (f[14] & 0x0f) >= 5
    &&& 14 + (f[14] & 0x0f) as int * 4 <= f.len()
}

/// The first byte offset after the IPv4 header.
pub open spec fn spec_ipv4_payload_offset(f: Seq<u8>) -> int {
    14 + (f[14] & 0x0f) as int * 4
}

/// The transport protocol number carried by the IPv4 header.
pub open spec fn spec_ipv4_protocol(f: Seq<u8>) -> u8 {
    f[23]
}

/// The IPv4 source address of the frame.
pub open spec fn spec_ipv4_source(f: Seq<u8>) -> Ipv4Address {
    spec_ipv4_at(f, 26int)
}

/// The IPv4 destination address of the frame.
pub open spec fn spec_ipv4_dest(f: Seq<u8>) -> Ipv4Address {
    spec_ipv4_at(f, 30int)
}

/// A TCP segment whose control bits are all within RST and ACK carries no
/// connection-initiating or data-bearing signal; it is connection
/// housekeeping and is not recorded.
pub open spec fn spec_tcp_housekeeping(flags: u8) -> bool {
    flags & !(TCP_RST | TCP_ACK) == 0
}

/// What the raw-capture strategy records for a captured frame: the decoded
/// flow of an IPv4 TCP or UDP frame addressed to `local_ip`, excluding pure
/// RST/ACK TCP housekeeping, and excluding any frame whose source or
/// destination port is the operator's `access_port`; `None` otherwise.
pub open spec fn spec_classify(f: Seq<u8>, local_ip: Ipv4Address, access_port: u16) -> Option<
    Flow,
> {
    if !(spec_eth_is_ipv4(f) && spec_ipv4_well_formed(f)) {
        None
    } else if spec_ipv4_dest(f) != local_ip {
        None
    } else {
        let p = spec_ipv4_payload_offset(f);
        if spec_ipv4_protocol(f) == 6 {
            if f.len() >= p + 20 {
                let sport = spec_be16(f, p);
                let dport = spec_be16(f, p + 2);
                let fl = f[p + 13];
                if !spec_tcp_housekeeping(fl) && sport != access_port && dport != access_port {
                    Some(
                        Flow {
                            source_ip: spec_ipv4_source(f),
                            dest_ip: spec_ipv4_dest(f),
                            source_port: sport,
                            dest_port: dport,
                            protocol: Protocol::Tcp,
                            tcp_flags: fl,
                        },
                    )
                } else {
                    None
                }
            } else {
                None
            }
        } else if spec_ipv4_protocol(f) == 17 {
            if f.len() >= p + 8 {
                let sport = spec_be16(f, p);
                let dport = spec_be16(f, p + 2);
                if sport != access_port && dport != access_port {
                    Some(
                        Flow {
                            source_ip: spec_ipv4_source(f),
                            dest_ip: spec_ipv4_dest(f),
                            source_port: sport,
                            dest_port: dport,
                            protocol: Protocol::Udp,
                            tcp_flags: 0,
                        },
                    )
                } else {
                    None
                }
            } else {
                None
            }
        } else {
            None
        }
    }
}

/// Reads the big-endian 16-bit value at offset `i`.
fn read_be16(f: &Vec<u8>, i: usize) -> (r: u16)
    requires
        i + 2 <= f@.len(),
    ensures
        r == spec_be16(f@, i as int),
{
    let _n = f.len();
    (f[i] as u16) * 256 + (f[i + 1] as u16)
}

/// Reads the IPv4 address spelled at offset `i`.
fn read_ipv4_at(f: &Vec<u8>, i: usize) -> (r: Ipv4Address)
    requires
        i + 4 <= f@.len(),
    ensures
        r == spec_ipv4_at(f@, i as int),
{
    let _n = f.len();
    Ipv4Address { o0: f[i], o1: f[i + 1], o2: f[i + 2], o3: f[i + 3] }
}

/// Decodes one captured frame and decides whether it is recorded, per the
/// raw-capture recording rules.
pub fn classify_frame(f: &Vec<u8>, local_ip: Ipv4Address, access_port: u16) -> (r: Option<Flow>)
    ensures
        r == spec_classify(f@, local_ip, access_port),
{
    let n = f.len();
    if n < 34 {
        return None;
    }
    if !(f[12] == 8 && f[13] == 0) {
        return None;
    }
    let vihl = f[14];
    if vihl >> 4 != 4 {
        return None;
    }
    let ihl = (vihl & 0x0f) as usize;
    if ihl < 5 {
        return None;
    }
    if 14 + ihl * 4 > n {
        return None;
    }
    let p = 14 + ihl * 4;
    let dest = read_ipv4_at(f, 14 + 16);
    if dest != local_ip {
        return None;
    }
    let proto = f[23];
    if proto == 6 {
        if n < p + 20 {
            return None;
        }
        let sport = read_be16(f, p);
        let dport = read_be16(f, p + 2);
        let fl = f[p + 13];
        if fl & !(TCP_RST | TCP_ACK) != 0 && sport != access_port && dport != access_port {
            Some(
                Flow {
                    source_ip: read_ipv4_at(f, 14 + 12),
                    dest_ip: dest,
                    source_port: sport,
                    dest_port: dport,
                    protocol: Protocol::Tcp,
                    tcp_flags: fl,
                },
            )
        } else {
            None
        }
    } else if proto == 17 {
        if n < p + 8 {
            return None;
        }
        let sport = read_be16(f, p);
        let dport = read_be16(f, p + 2);
        if sport != access_port && dport != access_port {
            Some(
                Flow {
                    source_ip: read_ipv4_at(f, 14 + 12),
                    dest_ip: dest,
                    source_port: sport,
                    dest_port: dport,
                    protocol: Protocol::Udp,
                    tcp_flags: 0,
                },
            )
        } else {
            None
        }
    } else {
        None
    }
}

/// The event a recorded flow turns into: the observing endpoint is the
/// listener, the flow's destination port is the probed target port, and a
/// TCP flow carries its decoded control-bit names.
pub open spec fn spec_capture_event(flow: Flow, tag: Seq<char>, ts: u64) -> PacketInfoView {
    PacketInfoView {
        listener_ip: flow.dest_ip,
        network_tag: tag,
        source_ip: flow.source_ip,
        source_port: flow.source_port,
        target_port: flow.dest_port,
        protocol: flow.protocol,
        flags: if flow.protocol is Tcp {
            spec_flag_names(flow.tcp_flags)
        } else {
            Seq::empty()
        },
        timestamp: ts,
    }
}

/// Builds the log event for a recorded flow.
pub fn capture_event(flow: &Flow, network_tag: String, timestamp: u64) -> (r: PacketInfo)
    ensures
        r@ == spec_capture_event(*flow, network_tag@, timestamp),
{
    let flags: Vec<String> = match flow.protocol {
        Protocol::Tcp => tcp_flags_to_iter(flow.tcp_flags),
        Protocol::Udp => Vec::new(),
    };
    let r = PacketInfo {
        listener_ip: flow.dest_ip,
        network_tag,
        source_ip: flow.source_ip,
        source_port: flow.source_port,
        target_port: flow.dest_port,
        protocol: flow.protocol,
        flags,
        timestamp,
    };
    proof {
        assert(r@.flags =~~= spec_capture_event(*flow, r.network_tag@, timestamp).flags);
    }
    r
}

/// Relies on chrono's `Utc::now` and `timestamp_millis`: the current UTC
/// wall-clock instant in milliseconds.  The value depends on the clock, so
/// nothing is promised of it.
#[verifier::external_body]
fn now_millis() -> i64 {
    chrono::Utc::now().timestamp_millis()
}

/// The current UTC instant as the log's unsigned millisecond timestamp;
/// instants before the epoch clamp to zero.
fn now_timestamp() -> u64 {
    let ms = now_millis();
    if ms < 0 {
        0
    } else {
        ms as u64
    }
}

/// Classifies one captured frame and, when it is recorded, stamps it with
/// the current clock reading.  Whatever the clock returned, the emitted
/// event carries the decoded flow.
pub fn observe_frame(f: &Vec<u8>, local_ip: Ipv4Address, access_port: u16, network_tag: String) -> (r:
    Option<PacketInfo>)
    ensures
        r.is_some() == spec_classify(f@, local_ip, access_port).is_some(),
        r.is_some() ==> r.unwrap()@ == spec_capture_event(
            spec_classify(f@, local_ip, access_port).unwrap(),
            network_tag@,
            r.unwrap()@.timestamp,
        ),
{
    match classify_frame(f, local_ip, access_port) {
        None => None,
        Some(flow) => {
            let ts = now_timestamp();
            Some(capture_event(&flow, network_tag, ts))
        },
    }
}

} // verus!
