use seg::firewall::command_outcome;
use seg::firewall::render_rules;
use seg::firewall::render_default_rules;
use seg::firewall::render_template;
use seg::firewall::teardown_commands;

#[test]
fn default_rules_exact_text() {
    let text = render_default_rules(22, 5555);
    assert_eq!(
        text,
        "table ip nat {\n  chain prerouting {\n    type nat hook prerouting priority -100; policy accept;\n    tcp dport 22 accept\n    udp dport 22 accept\n    tcp dport 1-65535 redirect to :5555\n    udp dport 1-65535 redirect to :5555\n  }\n}\ntable ip filter {\n  chain input {\n    type filter hook input priority 0; policy accept;\n    tcp dport 22 accept\n    udp dport 22 accept\n  }\n}\n"
    );
}

#[test]
fn access_port_accept_stands_before_any_redirect() {
    // Anti-lockout ordering: for any port pair, the accept for the access
    // port appears in the rendered text before every catch-all redirect.
    for (access, redirect) in [(22u16, 5555u16), (2222, 80), (1, 65535)] {
        let text = render_default_rules(access, redirect);
        let accept = format!("tcp dport {} accept", access);
        let first_accept = text.find(&accept).unwrap();
        let first_redirect = text.find("redirect to :").unwrap();
        assert!(first_accept < first_redirect);
        // No redirect line anywhere before the first accept.
        assert!(!text[..first_accept].contains("redirect"));
    }
}

#[test]
fn custom_template_substitutes_every_placeholder() {
    let t = "A {access_port} B {listener_port} C {access_port}";
    assert_eq!(render_template(t, 22, 5555), "A 22 B 5555 C 22");
}

#[test]
fn template_without_placeholders_is_unchanged() {
    let t = "flush ruleset";
    assert_eq!(render_template(t, 22, 5555), "flush ruleset");
}

#[test]
fn teardown_attempts_all_three_commands() {
    let cmds = teardown_commands();
    assert_eq!(
        cmds,
        vec![
            "delete table ip nat".to_string(),
            "delete table ip filter".to_string(),
            "flush ruleset".to_string(),
        ]
    );
}

#[test]
fn teardown_twice_repeats_all_three_commands() {
    // Idempotence: a second teardown still attempts the same three
    // cleanup commands, independently of the first.
    let first = teardown_commands();
    let second = teardown_commands();
    assert_eq!(first, second);
    assert_eq!(second.len(), 3);
}

#[test]
fn command_outcome_maps_exit_status() {
    assert!(command_outcome(true, String::new(), String::new()).is_ok());
    let err = command_outcome(false, String::from("out"), String::from("boom")).unwrap_err();
    assert_eq!(err.stdout, "out");
    assert_eq!(err.stderr, "boom");
}

#[test]
fn rules_selection_prefers_the_supplied_template() {
    assert_eq!(render_rules(Some("p {listener_port}"), 22, 5555), "p 5555");
    assert_eq!(render_rules(None, 22, 5555), render_default_rules(22, 5555));
}
