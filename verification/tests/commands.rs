use shannon::adapters::adguard::AdguardStatus;
use shannon::adapters::crowdsec::{CrowdsecDecision, CrowdsecStatus};
use shannon::adapters::dnsmasq::{DhcpLease, DnsRecord};
use shannon::adapters::nftables::PortForward;
use shannon::adapters::wireguard::{WireguardPeer, WireguardStatus};
use shannon::commands::{ddns, dhcp, dns, fw, sec, status, vpn};
use shannon::error::Error;
use shannon::location::ShellOutput;
use shannon::number::IntError;

fn output(success: bool, stdout: &str, stderr: &str) -> ShellOutput {
    ShellOutput { success, stdout: stdout.to_string(), stderr: stderr.to_string() }
}

#[test]
fn leases_are_tabled_under_four_headers() {
    let rows = vec![DhcpLease {
        mac: "aa:bb".to_string(),
        ip: "10.0.0.5".to_string(),
        hostname: "nas".to_string(),
        expires: "static".to_string(),
        is_static: true,
    }];
    let table = dhcp::leases(rows);
    assert_eq!(table.headers, vec!["MAC", "IP", "Hostname", "Expires"]);
    assert_eq!(table.rows.len(), 1);
    assert_eq!(table.render(), "MAC    IP        Hostname  Expires\n-----  --------  --------  -------\naa:bb  10.0.0.5  nas       static \n");
}

#[test]
fn a_reservation_is_asked_about_and_reported() {
    assert_eq!(dhcp::reserve_prompt("aa:bb", "10.0.0.5"), "Add reservation for aa:bb -> 10.0.0.5?");
    let result = dhcp::reserve("aa:bb", "10.0.0.5", true).unwrap();
    assert!(result.success);
    assert_eq!(result.mac, "aa:bb");
    assert_eq!(result.ip, "10.0.0.5");
    assert_eq!(result.render(), "Added reservation: aa:bb -> 10.0.0.5");
    assert!(matches!(dhcp::reserve("aa:bb", "10.0.0.5", false), Err(Error::Cancelled)));
}

#[test]
fn removing_a_reservation_is_asked_about_and_reported() {
    assert_eq!(dhcp::unreserve_prompt("aa:bb"), "Remove reservation for aa:bb?");
    let result = dhcp::unreserve("aa:bb", true).unwrap();
    assert!(result.success);
    assert_eq!(result.target, "aa:bb");
    assert_eq!(result.render(), "Removed reservation for aa:bb");
    let err = dhcp::unreserve("aa:bb", false).unwrap_err();
    assert!(matches!(err, Error::Cancelled));
    assert_eq!(err.message(), "Operation cancelled");
}

#[test]
fn records_are_tabled_under_three_headers() {
    let rows = vec![DnsRecord { hostname: "nas.lan".to_string(), ip: "10.0.0.5".to_string(), source: "custom".to_string() }];
    let table = dns::list(rows);
    assert_eq!(table.headers, vec!["Hostname", "IP", "Source"]);
    assert_eq!(table.render(), "Hostname  IP        Source\n--------  --------  ------\nnas.lan   10.0.0.5  custom\n");
}

#[test]
fn adding_and_removing_records_is_reported() {
    let added = dns::add("nas.lan", "10.0.0.5");
    assert!(added.success);
    assert_eq!((added.hostname.as_str(), added.ip.as_str()), ("nas.lan", "10.0.0.5"));
    assert_eq!(added.render(), "Added DNS record: nas.lan -> 10.0.0.5");
    let removed = dns::remove("nas.lan");
    assert!(removed.success);
    assert_eq!(removed.hostname, "nas.lan");
    assert_eq!(removed.render(), "Removed DNS record: nas.lan");
}

#[test]
fn forwards_are_tabled_under_four_headers() {
    let rows = vec![PortForward {
        external_port: 8080,
        internal_ip: "10.0.0.2".to_string(),
        internal_port: 80,
        protocol: "tcp".to_string(),
        comment: Some("web".to_string()),
    }];
    let table = fw::list(rows);
    assert_eq!(table.headers, vec!["External", "Internal", "Proto", "Comment"]);
    assert_eq!(
        table.render(),
        "External  Internal     Proto  Comment\n--------  -----------  -----  -------\n8080      10.0.0.2:80  tcp    web    \n"
    );
}

#[test]
fn a_target_is_an_address_and_a_port() {
    assert_eq!(fw::parse_target("192.168.4.84:80").unwrap(), ("192.168.4.84".to_string(), 80));
    assert_eq!(fw::parse_target(":+7").unwrap(), ("".to_string(), 7));
    assert!(matches!(fw::parse_target("192.168.4.84"), Err(Error::TargetFormat)));
    assert!(matches!(fw::parse_target("a:b:c"), Err(Error::TargetFormat)));
    assert!(matches!(fw::parse_target(""), Err(Error::TargetFormat)));
    assert!(matches!(fw::parse_target("host:"), Err(Error::Port { kind: IntError::Empty })));
    assert!(matches!(fw::parse_target("host:http"), Err(Error::Port { kind: IntError::InvalidDigit })));
    assert!(matches!(fw::parse_target("host:65536"), Err(Error::Port { kind: IntError::PosOverflow })));
}

#[test]
fn a_forward_is_asked_about_and_reported() {
    assert_eq!(fw::forward_prompt(8080, "192.168.4.84", 80, "tcp"), "Forward port 8080 -> 192.168.4.84:80 (tcp)?");
    let plan = fw::forward(8080, "192.168.4.84:80", "tcp", true).unwrap();
    assert_eq!(plan.rule.external_port, 8080);
    assert_eq!(plan.rule.internal_ip, "192.168.4.84");
    assert_eq!(plan.rule.internal_port, 80);
    assert_eq!(plan.rule.protocol, "tcp");
    assert_eq!(plan.rule.comment, None);
    assert!(plan.result.success);
    assert_eq!(plan.result.external_port, 8080);
    assert_eq!(plan.result.internal, "192.168.4.84:80");
    assert_eq!(plan.result.protocol, "tcp");
    assert_eq!(plan.result.render(), "Added port forward: 8080 -> 192.168.4.84:80 (tcp)");
}

#[test]
fn a_forward_is_refused_for_its_target_before_it_is_refused_for_lack_of_consent() {
    assert!(matches!(fw::forward(8080, "192.168.4.84", "tcp", false), Err(Error::TargetFormat)));
    assert!(matches!(fw::forward(8080, "192.168.4.84", "tcp", true), Err(Error::TargetFormat)));
    assert!(matches!(fw::forward(8080, "h:x", "tcp", false), Err(Error::Port { kind: IntError::InvalidDigit })));
    assert!(matches!(fw::forward(8080, "h:80", "tcp", false), Err(Error::Cancelled)));
}

#[test]
fn removing_a_forward_is_asked_about_and_reported() {
    assert_eq!(fw::unforward_prompt(8080), "Remove forward for port 8080?");
    let result = fw::unforward(8080, true).unwrap();
    assert!(result.success);
    assert_eq!(result.external_port, 8080);
    assert_eq!(result.render(), "Removed forward for port 8080");
    assert!(matches!(fw::unforward(8080, false), Err(Error::Cancelled)));
}

#[test]
fn blocking_and_unblocking_are_asked_about_and_reported() {
    assert_eq!(fw::block_prompt("203.0.113.7"), "Block 203.0.113.7?");
    let blocked = fw::block("203.0.113.7", true).unwrap();
    assert!(blocked.success);
    assert_eq!(blocked.target, "203.0.113.7");
    assert_eq!(blocked.render(), "Blocked 203.0.113.7");
    assert!(matches!(fw::block("203.0.113.7", false), Err(Error::Cancelled)));
    assert_eq!(fw::unblock_prompt("203.0.113.7"), "Unblock 203.0.113.7?");
    let unblocked = fw::unblock("203.0.113.7", true).unwrap();
    assert!(unblocked.success);
    assert_eq!(unblocked.target, "203.0.113.7");
    assert_eq!(unblocked.render(), "Unblocked 203.0.113.7");
    assert!(matches!(fw::unblock("203.0.113.7", false), Err(Error::Cancelled)));
}

fn peer(name: &str, connected: bool) -> WireguardPeer {
    WireguardPeer {
        name: name.to_string(),
        public_key: "key".to_string(),
        allowed_ips: "10.8.0.2/32".to_string(),
        last_handshake: if connected { Some("now".to_string()) } else { None },
        transfer_rx: "1 B".to_string(),
        transfer_tx: "2 B".to_string(),
        connected,
    }
}

fn tunnel(up: bool, port: Option<u16>, peers: Vec<WireguardPeer>) -> WireguardStatus {
    WireguardStatus { interface_up: up, listening_port: port, public_key: "server".to_string(), peers }
}

#[test]
fn the_security_services_are_shown_under_one_heading() {
    let all = sec::status(
        AdguardStatus { running: true, dns_queries_today: 10, blocked_today: 2, blocklist_count: 3 },
        CrowdsecStatus { running: false, active_decisions: 0, scenarios_loaded: 0 },
        tunnel(true, Some(51820), vec![peer("a", true), peer("b", false)]),
    );
    assert!(all.adguard.running);
    assert!(!all.crowdsec.running);
    assert_eq!(all.wireguard.peers.len(), 2);
    assert_eq!(
        all.render(),
        "Security Stack Status\n=====================\n  AdGuard Home: active (10 queries, 2 blocked, 3 rules)\n  CrowdSec: not running\n  WireGuard: up (port 51820)\n  Peers: 1/2 connected\n"
    );
}

fn decision(id: u64, ip: &str) -> CrowdsecDecision {
    CrowdsecDecision {
        id,
        source_ip: ip.to_string(),
        reason: "ssh-bf".to_string(),
        action: "ban".to_string(),
        duration: "4h".to_string(),
        origin: "crowdsec".to_string(),
    }
}

#[test]
fn blocks_are_counted_and_shown() {
    let result = sec::blocks(vec![decision(1, "203.0.113.7"), decision(2, "203.0.113.8")]);
    assert_eq!(result.count, 2);
    assert_eq!(result.decisions.len(), 2);
    assert_eq!(
        result.render(),
        "CrowdSec Active Blocks\n======================\n2 blocked IPs:\n\n  203.0.113.7 — ssh-bf (4h)\n     Action: ban | Origin: crowdsec\n  203.0.113.8 — ssh-bf (4h)\n     Action: ban | Origin: crowdsec\n"
    );
    let none = sec::blocks(vec![]);
    assert_eq!(none.count, 0);
    assert_eq!(none.render(), "CrowdSec Active Blocks\n======================\nNo active blocks.\n");
}

fn finding(severity: &str, details: &str) -> sec::SecurityFinding {
    sec::SecurityFinding {
        timestamp: "2026-01-01T00:00:00Z".to_string(),
        severity: severity.to_string(),
        category: "ssh".to_string(),
        summary: "Repeated logins".to_string(),
        details: details.to_string(),
    }
}

#[test]
fn a_finding_is_shown_with_its_severity_in_capitals() {
    assert_eq!(
        finding("high", "from 203.0.113.7").render(),
        "🔴 [HIGH] Repeated logins\n   Category: ssh\n   Time: 2026-01-01T00:00:00Z\n   Details: from 203.0.113.7\n"
    );
    assert_eq!(
        finding("critical", "").render(),
        "🔴 [CRITICAL] Repeated logins\n   Category: ssh\n   Time: 2026-01-01T00:00:00Z\n"
    );
    assert_eq!(finding("medium", "").render(), "🟡 [MEDIUM] Repeated logins\n   Category: ssh\n   Time: 2026-01-01T00:00:00Z\n");
    assert_eq!(finding("low", "").render(), "🟢 [LOW] Repeated logins\n   Category: ssh\n   Time: 2026-01-01T00:00:00Z\n");
    assert_eq!(finding("High", "").render(), "🟢 [HIGH] Repeated logins\n   Category: ssh\n   Time: 2026-01-01T00:00:00Z\n");
}

#[test]
fn a_finding_is_shown_with_the_capitals_it_is_given() {
    let mut out = String::from(">");
    finding("high", "").render_with("Hoch", &mut out);
    assert_eq!(out, ">🔴 [Hoch] Repeated logins\n   Category: ssh\n   Time: 2026-01-01T00:00:00Z\n");
    let mut out = String::new();
    finding("straße", "").render_into(&mut out);
    assert_eq!(out, "🟢 [STRASSE] Repeated logins\n   Category: ssh\n   Time: 2026-01-01T00:00:00Z\n");
}

#[test]
fn a_scan_finds_nothing_yet() {
    let result = sec::scan();
    assert_eq!(result.findings.len(), 0);
    assert_eq!(result.logs_analyzed, 0);
    assert_eq!(result.time_window_hours, 1);
    assert_eq!(
        result.render(),
        "Security Scan Results\n=====================\nAnalyzed 0 log entries (last 1 hours)\n\nNo security issues detected.\n"
    );
    assert_eq!(
        sec::scan_note(),
        "\nNote: LLM-based security analysis not yet implemented.\nRun 'shannon sec blocks' to view active CrowdSec decisions."
    );
}

#[test]
fn a_report_covers_the_hours_asked_for() {
    let result = sec::report(24);
    assert_eq!(result.findings.len(), 0);
    assert_eq!(result.logs_analyzed, 0);
    assert_eq!(result.time_window_hours, 24);
    assert_eq!(
        result.render(),
        "Security Scan Results\n=====================\nAnalyzed 0 log entries (last 24 hours)\n\nNo security issues detected.\n"
    );
    assert_eq!(sec::report_note(), "\nNote: No findings stored yet. Run 'shannon sec scan' first.");
}

#[test]
fn findings_are_shown_with_an_empty_line_after_each() {
    let result = sec::ScanResult { findings: vec![finding("low", ""), finding("medium", "x")], logs_analyzed: 1200, time_window_hours: 6 };
    assert_eq!(
        result.render(),
        "Security Scan Results\n=====================\nAnalyzed 1200 log entries (last 6 hours)\n\nFound 2 issues:\n\n🟢 [LOW] Repeated logins\n   Category: ssh\n   Time: 2026-01-01T00:00:00Z\n\n🟡 [MEDIUM] Repeated logins\n   Category: ssh\n   Time: 2026-01-01T00:00:00Z\n   Details: x\n\n"
    );
}

#[test]
fn peers_are_shown_under_the_port() {
    let result = vpn::peers(tunnel(true, Some(51820), vec![peer("a", true), peer("b", false)]));
    assert!(result.interface_up);
    assert_eq!(result.listening_port, Some(51820));
    assert_eq!(result.peers.len(), 2);
    assert_eq!(
        result.render(),
        "WireGuard Peers (port 51820)\n=========================\n● a (10.8.0.2/32)\n    Last handshake: now\n    Transfer: 1 B rx / 2 B tx\n○ b (10.8.0.2/32)\n    Transfer: 1 B rx / 2 B tx\n"
    );
    assert_eq!(
        vpn::peers(tunnel(true, None, vec![])).render(),
        "WireGuard Peers (port 0)\n=========================\nNo peers configured.\n"
    );
    assert_eq!(vpn::peers(tunnel(false, Some(1), vec![peer("a", true)])).render(), "WireGuard interface is down.\n");
}

#[test]
fn the_tunnel_is_shown_in_short() {
    assert_eq!(vpn::status(&tunnel(true, Some(51820), vec![peer("a", true)])), "  WireGuard: up (port 51820)\n  Peers: 1/1 connected\n");
    assert_eq!(vpn::status(&tunnel(false, None, vec![])), "  WireGuard: down\n");
}

#[test]
fn the_overview_lists_five_services() {
    assert_eq!(status::services(), vec!["dnsmasq", "ssh", "crowdsec", "AdGuardHome", "wg-quick@wg0"]);
    let overview = status::status(
        Some("198.51.100.4".to_string()),
        "up 3 days".to_string(),
        "41.3".to_string(),
        "0.25".to_string(),
        &vec![Some(true), Some(false), None, Some(true)],
    );
    assert_eq!(overview.wan_ip, "198.51.100.4");
    let services: Vec<(String, bool)> = overview.services.iter().map(|s| (s.name.clone(), s.active)).collect();
    assert_eq!(
        services,
        vec![
            ("dnsmasq".to_string(), true),
            ("ssh".to_string(), false),
            ("crowdsec".to_string(), false),
            ("AdGuardHome".to_string(), true),
            ("wg-quick@wg0".to_string(), false),
        ]
    );
    assert_eq!(
        overview.render(),
        "SHANNON Router Status\n=====================\nWAN IP:     198.51.100.4\nUptime:     up 3 days\nMemory:     41.3%\nCPU Load:   0.25\n\nServices:\n  ✓ dnsmasq\n  ✗ ssh\n  ✗ crowdsec\n  ✓ AdGuardHome\n  ✗ wg-quick@wg0\n"
    );
}

#[test]
fn an_outward_address_that_is_not_known_shows_as_unknown() {
    let overview = status::status(None, String::new(), "0.0".to_string(), "0.00".to_string(), &vec![]);
    assert_eq!(overview.wan_ip, "unknown");
    assert_eq!(overview.services.len(), 5);
    assert!(overview.services.iter().all(|s| !s.active));
}

#[test]
fn a_ping_is_judged_by_how_it_went() {
    assert_eq!(status::ping_command("192.168.4.1"), "ping -c 1 -W 2 192.168.4.1");
    assert_eq!(status::gateway(), "192.168.4.1");
    assert_eq!(status::internet(), "1.1.1.1");
    let check = status::check_ping("Gateway", &Ok(output(true, "", "")));
    assert_eq!((check.name.as_str(), check.passed, check.message.as_str()), ("Gateway", true, "reachable"));
    let check = status::check_ping("Gateway", &Ok(output(false, "", " ping: unknown host \n")));
    assert_eq!((check.name.as_str(), check.passed, check.message.as_str()), ("Gateway", false, "unreachable: ping: unknown host"));
    let check = status::check_ping("Gateway", &Err("Failed to execute command via SSH".to_string()));
    assert_eq!(
        (check.name.as_str(), check.passed, check.message.as_str()),
        ("Gateway", false, "error: Failed to execute command via SSH")
    );
}

#[test]
fn name_resolution_is_judged_by_how_it_went() {
    assert_eq!(
        status::dns_command(),
        "getent hosts google.com 2>/dev/null || ping -c 1 -W 2 google.com 2>&1 | grep -q 'bytes from'"
    );
    let check = status::check_dns(&Ok(output(true, "", "")));
    assert_eq!((check.name.as_str(), check.passed, check.message.as_str()), ("DNS resolution", true, "working"));
    let check = status::check_dns(&Ok(output(false, "", "whatever")));
    assert_eq!(
        (check.name.as_str(), check.passed, check.message.as_str()),
        ("DNS resolution", false, "failed to resolve google.com")
    );
    let check = status::check_dns(&Err("no shell".to_string()));
    assert_eq!((check.name.as_str(), check.passed, check.message.as_str()), ("DNS resolution", false, "error: no shell"));
}

#[test]
fn all_checks_pass_only_if_each_does() {
    let good = Ok(output(true, "", ""));
    let bad = Ok(output(false, "", "timeout"));
    let result = status::doctor(&good, &good, &good, Some(true), Some(true));
    assert!(result.all_passed);
    assert_eq!(
        result.render(),
        "SHANNON Doctor\n==============\n✓ Gateway: reachable\n✓ DNS resolution: working\n✓ Internet (1.1.1.1): reachable\n✓ dnsmasq service: running\n\nAll checks passed!\n"
    );
    let result = status::doctor(&good, &good, &bad, Some(true), Some(true));
    assert!(!result.all_passed);
    assert_eq!(
        result.render(),
        "SHANNON Doctor\n==============\n✓ Gateway: reachable\n✓ DNS resolution: working\n✗ Internet (1.1.1.1): unreachable: timeout\n✓ dnsmasq service: running\n\nSome checks failed.\n"
    );
    assert!(!status::doctor(&bad, &good, &good, Some(true), Some(true)).all_passed);
    assert!(!status::doctor(&good, &bad, &good, Some(true), Some(true)).all_passed);
    assert!(!status::doctor(&good, &good, &good, Some(false), Some(true)).all_passed);
    assert!(!status::doctor(&good, &good, &good, None, Some(true)).all_passed);
}

#[test]
fn the_name_server_is_asked_twice() {
    let good = Ok(output(true, "", ""));
    let result = status::doctor(&good, &good, &good, Some(true), Some(false));
    assert!(result.all_passed);
    assert!(result.checks[3].passed);
    assert_eq!(result.checks[3].name, "dnsmasq service");
    assert_eq!(result.checks[3].message, "not running");
    let result = status::doctor(&good, &good, &good, Some(false), None);
    assert_eq!(result.checks[3].message, "not running");
    let result = status::doctor(&good, &good, &good, None, Some(true));
    assert!(!result.checks[3].passed);
    assert_eq!(result.checks[3].message, "running");
}

#[test]
fn the_outward_address_is_the_first_word_with_a_slash_and_a_dot() {
    let listing = "2: enxc84d4421f975    inet 198.51.100.4/24 brd 198.51.100.255 scope global dynamic enxc84d4421f975\\       valid_lft 3000sec";
    assert_eq!(ddns::get_wan_ip(listing), Some("198.51.100.4".to_string()));
    assert_eq!(ddns::get_wan_ip("a/b c.d e.f/g/h"), Some("e.f".to_string()));
    assert_eq!(ddns::get_wan_ip("/.x"), Some("".to_string()));
    assert_eq!(ddns::get_wan_ip("no address here"), None);
    assert_eq!(ddns::get_wan_ip(""), None);
}

#[test]
fn the_programs_of_the_dynamic_name_are_run_directly() {
    let ip = ddns::wan_ip_invocation();
    assert_eq!(ip.program, "ip");
    assert_eq!(ip.args, vec!["-4", "-o", "addr", "show", "enxc84d4421f975"]);
    let timer = ddns::timer_invocation();
    assert_eq!(timer.program, "systemctl");
    assert_eq!(timer.args, vec!["is-active", "--quiet", "shannon-ddns.timer"]);
    assert_eq!(ddns::state_file(), "/var/cache/shannon-ddns-state.json");
    let plain = ddns::update(false);
    assert_eq!(plain.program, "/usr/local/bin/shannon-ddns");
    assert_eq!(plain.args, Vec::<String>::new());
    let forced = ddns::update(true);
    assert_eq!(forced.program, "/usr/local/bin/shannon-ddns");
    assert_eq!(forced.args, vec!["--force"]);
}

#[test]
fn a_failed_update_is_reported_as_json() {
    assert_eq!(ddns::update_failure(" token \"abc\" rejected\n"), "{\"error\": \"token \\\"abc\\\" rejected\"}");
    assert_eq!(ddns::update_failure(""), "{\"error\": \"\"}");
}

fn state(ip: &str, message: &str) -> ddns::DdnsState {
    ddns::DdnsState {
        ip: ip.to_string(),
        status: "ok".to_string(),
        message: message.to_string(),
        timestamp: "2026-01-01T00:00:00Z".to_string(),
        fqdn: "shannon.example.org".to_string(),
        interface: "enxc84d4421f975".to_string(),
        ttl: 300,
    }
}

#[test]
fn the_dynamic_name_matches_if_the_addresses_are_the_same() {
    let s = ddns::status(Some("198.51.100.4".to_string()), Some(state("198.51.100.4", "No change")), true);
    assert!(s.ip_match);
    assert_eq!(s.wan_ip, "198.51.100.4");
    assert_eq!(s.dns_record, "198.51.100.4");
    assert_eq!(s.fqdn, "shannon.example.org");
    assert_eq!(s.status, "ok");
    assert_eq!(s.last_check, "2026-01-01T00:00:00Z");
    assert_eq!(s.message, "No change");
    assert!(s.timer_active);
    assert_eq!(
        s.render(),
        "Dynamic DNS: shannon.example.org\n  WAN IP:      198.51.100.4\n  DNS record:  198.51.100.4\n  Status:      ok\n  Last check:  2026-01-01T00:00:00Z\n  Timer:       active\n"
    );
}

#[test]
fn a_mismatch_is_warned_about() {
    let s = ddns::status(Some("198.51.100.9".to_string()), Some(state("198.51.100.4", "Updated")), false);
    assert!(!s.ip_match);
    assert_eq!(
        s.render(),
        "Dynamic DNS: shannon.example.org\n  WAN IP:      198.51.100.9\n  DNS record:  198.51.100.4\n  Status:      ok\n  Last check:  2026-01-01T00:00:00Z\n  Timer:       inactive\n  Message:     Updated\n  WARNING:     IP mismatch \u{e2}\u{20ac}\u{201d} DNS needs update\n"
    );
}

#[test]
fn a_name_that_was_never_set_is_not_warned_about() {
    let s = ddns::status(None, None, false);
    assert_eq!(s.wan_ip, "unknown");
    assert_eq!(s.dns_record, "never updated");
    assert_eq!(s.fqdn, "shannon.fredrikbranstrom.se");
    assert_eq!(s.status, "unknown");
    assert_eq!(s.last_check, "never");
    assert_eq!(s.message, "");
    assert!(!s.ip_match);
    assert_eq!(
        s.render(),
        "Dynamic DNS: shannon.fredrikbranstrom.se\n  WAN IP:      unknown\n  DNS record:  never updated\n  Status:      unknown\n  Last check:  never\n  Timer:       inactive\n"
    );
    let odd = ddns::status(None, Some(state("unknown", "")), true);
    assert!(odd.ip_match);
}
