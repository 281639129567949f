use seg::event::encode_event_line;
use seg::event::socket_tcp_event;
use seg::event::socket_udp_event;
use seg::event::Ipv4Address;
use seg::event::PacketInfo;
use seg::event::Protocol;
use seg::flags::tcp_flags_to_iter;

fn addr(a: u8, b: u8, c: u8, d: u8) -> Ipv4Address {
    Ipv4Address::new(a, b, c, d)
}

fn sample_event() -> PacketInfo {
    PacketInfo {
        listener_ip: addr(10, 0, 0, 5),
        network_tag: String::from("seg-a"),
        source_ip: addr(192, 168, 1, 77),
        source_port: 44123,
        target_port: 5555,
        protocol: Protocol::Tcp,
        flags: vec![String::from("SYN")],
        timestamp: 1700000000000,
    }
}

#[test]
fn encode_exact_line() {
    let line = encode_event_line(&sample_event());
    assert_eq!(
        line,
        "{\"listener_ip\":\"10.0.0.5\",\"network_tag\":\"seg-a\",\"source_ip\":\"192.168.1.77\",\"source_port\":44123,\"target_port\":5555,\"protocol\":\"tcp\",\"flags\":[\"SYN\"],\"timestamp\":1700000000000}\n"
    );
}

#[test]
fn encoded_line_parses_as_json() {
    let line = encode_event_line(&sample_event());
    let v: serde_json::Value = serde_json::from_str(line.trim_end()).unwrap();
    assert_eq!(v["listener_ip"].as_str().unwrap(), "10.0.0.5");
    assert_eq!(v["network_tag"].as_str().unwrap(), "seg-a");
    assert_eq!(v["source_ip"].as_str().unwrap(), "192.168.1.77");
    assert_eq!(v["source_port"].as_u64().unwrap(), 44123);
    assert_eq!(v["target_port"].as_u64().unwrap(), 5555);
    assert_eq!(v["protocol"].as_str().unwrap(), "tcp");
    assert_eq!(v["flags"].as_array().unwrap().len(), 1);
    assert_eq!(v["flags"][0].as_str().unwrap(), "SYN");
    assert_eq!(v["timestamp"].as_u64().unwrap(), 1700000000000);
}

#[test]
fn tag_escaping_round_trips_through_json() {
    let mut e = sample_event();
    e.network_tag = String::from("a\"b\\c\nd");
    let line = encode_event_line(&e);
    // One line: the terminator is the only newline left in the text.
    assert_eq!(line.matches('\n').count(), 1);
    assert!(line.ends_with('\n'));
    let v: serde_json::Value = serde_json::from_str(line.trim_end()).unwrap();
    assert_eq!(v["network_tag"].as_str().unwrap(), "a\"b\\c\nd");
}

#[test]
fn log_of_three_writes_has_three_ordered_lines() {
    let mut log = String::new();
    let mut tags = Vec::new();
    for i in 0..3u16 {
        let mut e = sample_event();
        e.network_tag = format!("seg-{}", i);
        e.source_port = 1000 + i;
        tags.push(e.network_tag.clone());
        log.push_str(&encode_event_line(&e));
    }
    let lines: Vec<&str> = log.lines().collect();
    assert_eq!(lines.len(), 3);
    for (i, line) in lines.iter().enumerate() {
        let v: serde_json::Value = serde_json::from_str(line).unwrap();
        assert_eq!(v["network_tag"].as_str().unwrap(), tags[i]);
        assert_eq!(v["source_port"].as_u64().unwrap(), 1000 + i as u64);
    }
}

#[test]
fn listener_socket_tcp_event_fields() {
    // A listener with access_port=22 and redirect_port=5555 accepts a TCP
    // client from an ephemeral port: the logged line carries the bound
    // port as the target, the client's port as the source, and no flags.
    let e = socket_tcp_event(
        addr(10, 0, 0, 5),
        5555,
        addr(10, 0, 0, 9),
        49152,
        String::from("seg-a"),
        7,
    );
    let line = encode_event_line(&e);
    let v: serde_json::Value = serde_json::from_str(line.trim_end()).unwrap();
    assert_eq!(v["protocol"].as_str().unwrap(), "tcp");
    assert_eq!(v["target_port"].as_u64().unwrap(), 5555);
    assert_eq!(v["source_port"].as_u64().unwrap(), 49152);
    assert_eq!(v["flags"].as_array().unwrap().len(), 0);
}

#[test]
fn socket_udp_event_has_target_port_zero() {
    let e = socket_udp_event(addr(10, 0, 0, 5), addr(10, 0, 0, 9), 5353, String::from("seg-a"), 7);
    assert_eq!(e.target_port, 0);
    assert!(matches!(e.protocol, Protocol::Udp));
    assert!(e.flags.is_empty());
    let line = encode_event_line(&e);
    let v: serde_json::Value = serde_json::from_str(line.trim_end()).unwrap();
    assert_eq!(v["target_port"].as_u64().unwrap(), 0);
    assert_eq!(v["protocol"].as_str().unwrap(), "udp");
}

#[test]
fn dotted_quad_formatting() {
    assert_eq!(addr(0, 0, 0, 0).dotted(), "0.0.0.0");
    assert_eq!(addr(255, 255, 255, 255).dotted(), "255.255.255.255");
    assert_eq!(addr(10, 0, 0, 5).dotted(), "10.0.0.5");
}

#[test]
fn flag_names_follow_header_order() {
    let none = tcp_flags_to_iter(0);
    assert!(none.is_empty());
    let syn_ack = tcp_flags_to_iter(0x02 | 0x10);
    assert_eq!(syn_ack, vec!["SYN".to_string(), "ACK".to_string()]);
    let all = tcp_flags_to_iter(0xff);
    assert_eq!(
        all,
        vec![
            "FIN".to_string(),
            "SYN".to_string(),
            "RST".to_string(),
            "PSH".to_string(),
            "ACK".to_string(),
            "URG".to_string(),
            "ECE".to_string(),
            "CWR".to_string(),
        ]
    );
}

#[test]
fn decode_recovers_the_encoded_event() {
    let mut e = sample_event();
    e.network_tag = String::from("a\"b\\c\nd");
    e.flags = vec![String::from("SYN"), String::from("ACK")];
    let line = encode_event_line(&e);
    let d = seg::event::decode_event_line(&line).unwrap();
    assert_eq!(d.listener_ip, e.listener_ip);
    assert_eq!(d.network_tag, e.network_tag);
    assert_eq!(d.source_ip, e.source_ip);
    assert_eq!(d.source_port, e.source_port);
    assert_eq!(d.target_port, e.target_port);
    assert_eq!(d.flags, e.flags);
    assert_eq!(d.timestamp, e.timestamp);
    assert_eq!(encode_event_line(&d), line);
}

#[test]
fn decode_round_trips_an_empty_flags_event() {
    let e = socket_udp_event(addr(10, 0, 0, 5), addr(10, 0, 0, 9), 5353, String::from("seg-a"), 7);
    let line = encode_event_line(&e);
    let d = seg::event::decode_event_line(&line).unwrap();
    assert_eq!(d.target_port, 0);
    assert!(d.flags.is_empty());
    assert_eq!(encode_event_line(&d), line);
}

#[test]
fn decode_rejects_non_canonical_lines() {
    let good = encode_event_line(&sample_event());
    // Only exact encoder output is accepted.
    assert!(seg::event::decode_event_line(good.trim_end()).is_none());
    assert!(seg::event::decode_event_line(&good.replace("44123", "044123")).is_none());
    assert!(seg::event::decode_event_line(&good.replace("\"flags\"", "\"Flags\"")).is_none());
    assert!(seg::event::decode_event_line(&format!("{} ", good)).is_none());
    assert!(seg::event::decode_event_line("garbage\n").is_none());
    assert!(seg::event::decode_event_line("").is_none());
}
