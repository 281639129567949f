use seg::event::Protocol;
use seg::scan::nmap_args;
use seg::scan::parse_target_line;
use seg::scan::parse_targets;
use seg::scan::probe_address;
use seg::scan::probe_plan;
use seg::scan::probe_report_line;
use seg::scan::progress_line_flags;
use seg::scan::scan_output_base;
use seg::scan::scan_output_name;
use seg::scan::AdmissionGate;
use seg::scan::ScanProtocol;
use seg::scan::ScanStats;
use seg::scan::Scanner;
use seg::text::parse_port;

#[test]
fn well_formed_target_line_parses() {
    let t = parse_target_line("seg-a,10.0.0.5").unwrap();
    assert_eq!(t.network_tag, "seg-a");
    assert_eq!(t.listener_ip, "10.0.0.5");
}

#[test]
fn malformed_target_lines_are_rejected() {
    assert!(parse_target_line("garbage").is_none());
    assert!(parse_target_line("a,b,c").is_none());
    assert!(parse_target_line("").is_none());
}

#[test]
fn a_lone_comma_splits_into_empty_fields() {
    // One comma means two fields, as the original comma split gives them,
    // even when both are empty.
    let t = parse_target_line(",").unwrap();
    assert_eq!(t.network_tag, "");
    assert_eq!(t.listener_ip, "");
}

#[test]
fn all_lines_malformed_leaves_no_targets() {
    let lines = vec![String::from("x"), String::from("a,b,c")];
    let (targets, skipped) = parse_targets(&lines);
    assert!(targets.is_empty());
    assert_eq!(skipped, 2);
}

#[test]
fn scan_skips_malformed_line_and_counts_one_network() {
    // Target file: one good record and one malformed line.  The malformed
    // line is skipped, the counter reaches one, and only the good target's
    // address is probed.
    let lines = vec![String::from("seg-a,10.0.0.5"), String::from("garbage")];
    let (targets, skipped) = parse_targets(&lines);
    assert_eq!(targets.len(), 1);
    assert_eq!(skipped, 1);
    let mut stats = ScanStats::new();
    for _t in &targets {
        stats.record_network();
    }
    assert_eq!(stats.networks_scanned, 1);
    let args = nmap_args(
        &targets[0].listener_ip,
        &scan_output_base(&targets[0].network_tag),
        ScanProtocol::BOTH,
    );
    assert!(args.contains(&String::from("10.0.0.5")));
    assert!(!args.iter().any(|a| a.contains("garbage")));
}

#[test]
fn admission_gate_never_exceeds_capacity() {
    // An instrumented run of ten probe tasks against a gate of capacity
    // three: the high-water mark of concurrent admissions stays at three.
    let capacity = 3u64;
    let mut gate = AdmissionGate::new(capacity);
    let mut granted = 0u64;
    let mut high_water = 0u64;
    for _probe in 0..10 {
        if gate.try_acquire() {
            granted += 1;
        }
        assert!(gate.in_use <= capacity);
        if gate.in_use > high_water {
            high_water = gate.in_use;
        }
    }
    assert_eq!(granted, 3);
    assert_eq!(high_water, 3);
    gate.release();
    assert!(gate.try_acquire());
    assert_eq!(gate.in_use, 3);
    while gate.in_use > 0 {
        gate.release();
    }
    assert!(gate.try_acquire());
}

#[test]
fn probe_plan_has_one_task_per_probe_kind() {
    let both = probe_plan(1, 3, ScanProtocol::BOTH);
    assert_eq!(both.len(), 6);
    assert_eq!(both[0], (1, Protocol::Tcp));
    assert_eq!(both[1], (1, Protocol::Udp));
    assert_eq!(both[4], (3, Protocol::Tcp));
    assert_eq!(both[5], (3, Protocol::Udp));
    let tcp = probe_plan(1, 3, ScanProtocol::TCP);
    assert_eq!(tcp.len(), 3);
    assert!(tcp.iter().all(|p| matches!(p.1, Protocol::Tcp)));
    let empty = probe_plan(5, 4, ScanProtocol::BOTH);
    assert!(empty.is_empty());
    let edge = probe_plan(65535, 65535, ScanProtocol::UDP);
    assert_eq!(edge, vec![(65535, Protocol::Udp)]);
}

#[test]
fn port_parsing_accepts_exactly_valid_ports() {
    assert_eq!(parse_port("22"), Some(22));
    assert_eq!(parse_port("0"), Some(0));
    assert_eq!(parse_port("65535"), Some(65535));
    assert_eq!(parse_port("65536"), None);
    assert_eq!(parse_port("99999"), None);
    assert_eq!(parse_port(""), None);
    assert_eq!(parse_port("2x"), None);
    assert_eq!(parse_port("+5"), None);
    assert_eq!(parse_port(" 5"), None);
}

#[test]
fn engine_arguments_select_the_scan_kind() {
    let args = nmap_args("10.0.0.5", "scan_seg-a", ScanProtocol::TCP);
    assert_eq!(
        args,
        vec![
            "-p".to_string(),
            "1-65535".to_string(),
            "-sT".to_string(),
            "10.0.0.5".to_string(),
            "--stats-every".to_string(),
            "10s".to_string(),
            "-oN".to_string(),
            "scan_seg-a_tcp".to_string(),
        ]
    );
    let both = nmap_args("10.0.0.5", "scan_seg-a", ScanProtocol::BOTH);
    assert!(both.contains(&"-sT".to_string()));
    assert!(both.contains(&"-sU".to_string()));
    assert!(both.contains(&"scan_seg-a_both".to_string()));
}

#[test]
fn output_names_carry_the_kind_suffix() {
    assert_eq!(scan_output_name("scan_seg-a", ScanProtocol::TCP), "scan_seg-a_tcp");
    assert_eq!(scan_output_name("scan_seg-a", ScanProtocol::UDP), "scan_seg-a_udp");
    assert_eq!(scan_output_name("scan_seg-a", ScanProtocol::BOTH), "scan_seg-a_both");
    assert_eq!(scan_output_base("seg-a"), "scan_seg-a");
}

#[test]
fn progress_lines_update_the_right_counters() {
    assert_eq!(progress_line_flags("Discovered open port 80/tcp on 10.0.0.5"), (true, false));
    assert_eq!(progress_line_flags("1 host scanned in 3.2s"), (false, true));
    assert_eq!(progress_line_flags("Starting engine"), (false, false));
    assert_eq!(progress_line_flags(""), (false, false));
}

#[test]
fn probe_lines_are_exact() {
    assert_eq!(probe_address("10.0.0.5", 80), "10.0.0.5:80");
    assert_eq!(probe_report_line(Protocol::Tcp, "10.0.0.5:80", 80), "tcp/10.0.0.5:80/80");
    assert_eq!(probe_report_line(Protocol::Udp, "10.0.0.5:53", 53), "udp/10.0.0.5:53/53");
}

#[test]
fn scanner_starts_with_all_slots_free() {
    let s = Scanner::new(String::from("10.0.0.5"), 2000);
    assert_eq!(s.target, "10.0.0.5");
    assert_eq!(s.timeout_ms, 2000);
    assert_eq!(s.gate.capacity, 1024);
    assert_eq!(s.gate.in_use, 0);
}

#[test]
fn stats_counters_are_independent() {
    let mut stats = ScanStats::new();
    stats.record_network();
    stats.record_host();
    stats.record_host();
    stats.record_open_port();
    stats.record_open_port();
    stats.record_open_port();
    assert_eq!(stats.networks_scanned, 1);
    assert_eq!(stats.hosts_scanned, 2);
    assert_eq!(stats.open_ports_found, 3);
}
