use seg::capture::capture_event;
use seg::capture::classify_frame;
use seg::event::encode_event_line;
use seg::event::Ipv4Address;
use seg::event::Protocol;

const LOCAL: Ipv4Address = Ipv4Address { o0: 10, o1: 0, o2: 0, o3: 5 };
const ACCESS_PORT: u16 = 22;

/// A minimal Ethernet + IPv4 + TCP frame addressed to `dst`.
fn tcp_frame(src: [u8; 4], dst: [u8; 4], sport: u16, dport: u16, flags: u8) -> Vec<u8> {
    let mut f = vec![0u8; 14 + 20 + 20];
    f[12] = 0x08;
    f[13] = 0x00;
    f[14] = 0x45; // version 4, header length 5 words
    f[23] = 6; // protocol: TCP
    f[26..30].copy_from_slice(&src);
    f[30..34].copy_from_slice(&dst);
    let p = 34;
    f[p] = (sport >> 8) as u8;
    f[p + 1] = (sport & 0xff) as u8;
    f[p + 2] = (dport >> 8) as u8;
    f[p + 3] = (dport & 0xff) as u8;
    f[p + 13] = flags;
    f
}

/// A minimal Ethernet + IPv4 + UDP frame addressed to `dst`.
fn udp_frame(src: [u8; 4], dst: [u8; 4], sport: u16, dport: u16) -> Vec<u8> {
    let mut f = vec![0u8; 14 + 20 + 8];
    f[12] = 0x08;
    f[13] = 0x00;
    f[14] = 0x45;
    f[23] = 17; // protocol: UDP
    f[26..30].copy_from_slice(&src);
    f[30..34].copy_from_slice(&dst);
    let p = 34;
    f[p] = (sport >> 8) as u8;
    f[p + 1] = (sport & 0xff) as u8;
    f[p + 2] = (dport >> 8) as u8;
    f[p + 3] = (dport & 0xff) as u8;
    f
}

#[test]
fn ack_only_segment_is_not_recorded() {
    let f = tcp_frame([10, 0, 0, 9], [10, 0, 0, 5], 40000, 5555, 0x10);
    assert!(classify_frame(&f, LOCAL, ACCESS_PORT).is_none());
}

#[test]
fn rst_ack_segment_is_not_recorded() {
    let f = tcp_frame([10, 0, 0, 9], [10, 0, 0, 5], 40000, 5555, 0x14);
    assert!(classify_frame(&f, LOCAL, ACCESS_PORT).is_none());
}

#[test]
fn syn_segment_is_recorded() {
    let f = tcp_frame([10, 0, 0, 9], [10, 0, 0, 5], 40000, 5555, 0x02);
    let flow = classify_frame(&f, LOCAL, ACCESS_PORT).unwrap();
    assert_eq!(flow.source_port, 40000);
    assert_eq!(flow.dest_port, 5555);
    assert_eq!(flow.tcp_flags, 0x02);
    assert!(matches!(flow.protocol, Protocol::Tcp));
    assert_eq!(flow.source_ip, Ipv4Address { o0: 10, o1: 0, o2: 0, o3: 9 });
    assert_eq!(flow.dest_ip, LOCAL);
}

#[test]
fn syn_ack_segment_is_recorded() {
    // Not pure RST/ACK housekeeping: SYN is set alongside ACK.
    let f = tcp_frame([10, 0, 0, 9], [10, 0, 0, 5], 40000, 5555, 0x12);
    assert!(classify_frame(&f, LOCAL, ACCESS_PORT).is_some());
}

#[test]
fn access_port_destination_is_never_recorded() {
    let f = tcp_frame([10, 0, 0, 9], [10, 0, 0, 5], 40000, ACCESS_PORT, 0x02);
    assert!(classify_frame(&f, LOCAL, ACCESS_PORT).is_none());
}

#[test]
fn access_port_source_is_never_recorded() {
    let f = tcp_frame([10, 0, 0, 9], [10, 0, 0, 5], ACCESS_PORT, 5555, 0x02);
    assert!(classify_frame(&f, LOCAL, ACCESS_PORT).is_none());
}

#[test]
fn access_port_udp_is_never_recorded() {
    let f = udp_frame([10, 0, 0, 9], [10, 0, 0, 5], ACCESS_PORT, 5555);
    assert!(classify_frame(&f, LOCAL, ACCESS_PORT).is_none());
    let f = udp_frame([10, 0, 0, 9], [10, 0, 0, 5], 40000, ACCESS_PORT);
    assert!(classify_frame(&f, LOCAL, ACCESS_PORT).is_none());
}

#[test]
fn udp_datagram_is_recorded() {
    let f = udp_frame([10, 0, 0, 9], [10, 0, 0, 5], 40000, 5555);
    let flow = classify_frame(&f, LOCAL, ACCESS_PORT).unwrap();
    assert_eq!(flow.source_port, 40000);
    assert_eq!(flow.dest_port, 5555);
    assert!(matches!(flow.protocol, Protocol::Udp));
    assert_eq!(flow.tcp_flags, 0);
}

#[test]
fn frame_for_another_destination_is_ignored() {
    let f = tcp_frame([10, 0, 0, 9], [10, 0, 0, 6], 40000, 5555, 0x02);
    assert!(classify_frame(&f, LOCAL, ACCESS_PORT).is_none());
}

#[test]
fn non_ipv4_ethertype_is_ignored() {
    let mut f = tcp_frame([10, 0, 0, 9], [10, 0, 0, 5], 40000, 5555, 0x02);
    f[12] = 0x86;
    f[13] = 0xdd;
    assert!(classify_frame(&f, LOCAL, ACCESS_PORT).is_none());
}

#[test]
fn truncated_frame_is_ignored() {
    let f = tcp_frame([10, 0, 0, 9], [10, 0, 0, 5], 40000, 5555, 0x02);
    let short = f[..40].to_vec();
    assert!(classify_frame(&short, LOCAL, ACCESS_PORT).is_none());
}

#[test]
fn ipv4_options_shift_the_transport_header() {
    // Header length of six words: the TCP header starts four bytes later.
    let mut f = vec![0u8; 14 + 24 + 20];
    f[12] = 0x08;
    f[13] = 0x00;
    f[14] = 0x46;
    f[23] = 6;
    f[26..30].copy_from_slice(&[10, 0, 0, 9]);
    f[30..34].copy_from_slice(&[10, 0, 0, 5]);
    let p = 38;
    f[p] = (40000u16 >> 8) as u8;
    f[p + 1] = (40000u16 & 0xff) as u8;
    f[p + 2] = (5555u16 >> 8) as u8;
    f[p + 3] = (5555u16 & 0xff) as u8;
    f[p + 13] = 0x02;
    let flow = classify_frame(&f, LOCAL, ACCESS_PORT).unwrap();
    assert_eq!(flow.source_port, 40000);
    assert_eq!(flow.dest_port, 5555);
}

#[test]
fn capture_event_carries_decoded_flags() {
    let f = tcp_frame([10, 0, 0, 9], [10, 0, 0, 5], 40000, 5555, 0x02 | 0x10);
    let flow = classify_frame(&f, LOCAL, ACCESS_PORT).unwrap();
    let e = capture_event(&flow, String::from("seg-a"), 42);
    assert_eq!(e.flags, vec!["SYN".to_string(), "ACK".to_string()]);
    assert_eq!(e.listener_ip, LOCAL);
    assert_eq!(e.target_port, 5555);
    assert_eq!(e.timestamp, 42);
    let line = encode_event_line(&e);
    let v: serde_json::Value = serde_json::from_str(line.trim_end()).unwrap();
    assert_eq!(v["flags"].as_array().unwrap().len(), 2);
    assert_eq!(v["flags"][0].as_str().unwrap(), "SYN");
    assert_eq!(v["flags"][1].as_str().unwrap(), "ACK");
}
