use shannon::adapters::dnsmasq::{
    DhcpLease, DnsRecord, DnsmasqAdapter, DNSMASQ_CONF, DNSMASQ_CUSTOM, DNSMASQ_LEASES, HOSTS,
};
use shannon::error::Error;
use shannon::location::ShellOutput;

fn record(r: &DnsRecord) -> (String, String, String) {
    (r.hostname.clone(), r.ip.clone(), r.source.clone())
}

fn records(rs: &Vec<DnsRecord>) -> Vec<(String, String, String)> {
    rs.iter().map(record).collect()
}

fn triple(a: &str, b: &str, c: &str) -> (String, String, String) {
    (a.to_string(), b.to_string(), c.to_string())
}

fn lease(l: &DhcpLease) -> (String, String, String, String, bool) {
    (l.mac.clone(), l.ip.clone(), l.hostname.clone(), l.expires.clone(), l.is_static)
}

fn leases(ls: &Vec<DhcpLease>) -> Vec<(String, String, String, String, bool)> {
    ls.iter().map(lease).collect()
}

fn five(a: &str, b: &str, c: &str, d: &str, e: bool) -> (String, String, String, String, bool) {
    (a.to_string(), b.to_string(), c.to_string(), d.to_string(), e)
}

#[test]
fn the_files_are_where_the_server_keeps_them() {
    assert_eq!(DNSMASQ_CONF, "/etc/dnsmasq.conf");
    assert_eq!(DNSMASQ_CUSTOM, "/etc/dnsmasq.d/custom.conf");
    assert_eq!(DNSMASQ_LEASES, "/var/lib/misc/dnsmasq.leases");
    assert_eq!(HOSTS, "/etc/hosts");
}

#[test]
fn address_lines_give_records() {
    let adapter = DnsmasqAdapter::new();
    let content = "# custom\naddress=/nas.lan/192.168.4.7\n  address=/cam.lan/192.168.4.9/extra  \nserver=1.1.1.1\naddress=/broken\naddress=/v6.lan/fe80::1\n";
    assert_eq!(
        records(&adapter.parse_dns_entries(content, "custom")),
        vec![
            triple("nas.lan", "192.168.4.7", "custom"),
            triple("cam.lan", "192.168.4.9", "custom"),
            triple("v6.lan", "fe80::1", "custom"),
        ]
    );
}

#[test]
fn an_address_line_keeps_what_is_written_as_the_address() {
    let adapter = DnsmasqAdapter::new();
    assert_eq!(
        records(&adapter.parse_dns_entries("address=/x.lan/not-an-address", "main")),
        vec![triple("x.lan", "not-an-address", "main")]
    );
    assert_eq!(records(&adapter.parse_dns_entries("address=/address=/x.lan/1.2.3.4", "main")),
        vec![triple("x.lan", "1.2.3.4", "main")]);
    assert_eq!(records(&adapter.parse_dns_entries("", "main")), vec![]);
}

#[test]
fn the_hosts_table_gives_a_record_for_each_name_but_localhost() {
    let adapter = DnsmasqAdapter::new();
    let content = "127.0.0.1 localhost\n# comment\n\n192.168.4.1\tshannon router  gw\n::1 localhost ip6-localhost\nlonely\n";
    assert_eq!(
        records(&adapter.parse_hosts(content)),
        vec![
            triple("shannon", "192.168.4.1", "hosts"),
            triple("router", "192.168.4.1", "hosts"),
            triple("gw", "192.168.4.1", "hosts"),
            triple("ip6-localhost", "::1", "hosts"),
        ]
    );
}

#[test]
fn records_are_listed_main_first_then_custom_then_hosts() {
    let adapter = DnsmasqAdapter::new();
    let all = adapter.list_dns_entries(
        Some("address=/a.lan/10.0.0.1\n"),
        Some("address=/b.lan/10.0.0.2\n"),
        Some("10.0.0.3 c.lan\n"),
    );
    assert_eq!(
        records(&all),
        vec![
            triple("a.lan", "10.0.0.1", "main"),
            triple("b.lan", "10.0.0.2", "custom"),
            triple("c.lan", "10.0.0.3", "hosts"),
        ]
    );
    let some = adapter.list_dns_entries(None, Some("address=/b.lan/10.0.0.2\n"), None);
    assert_eq!(records(&some), vec![triple("b.lan", "10.0.0.2", "custom")]);
    assert_eq!(records(&adapter.list_dns_entries(None, None, None)), vec![]);
}

#[test]
fn only_records_with_a_recognised_address_stay() {
    let adapter = DnsmasqAdapter::new();
    let found = adapter.parse_dns_entries("address=/a/::0001\naddress=/b/nope\naddress=/c/1.2.3.4\n", "main");
    let addresses = vec![Some("::1".to_string()), None, Some("1.2.3.4".to_string())];
    let pairs: Vec<(DnsRecord, Option<String>)> = found.into_iter().zip(addresses).collect();
    assert_eq!(
        records(&adapter.with_addresses(pairs)),
        vec![triple("a", "::1", "main"), triple("c", "1.2.3.4", "main")]
    );
    assert_eq!(records(&adapter.with_addresses(vec![])), vec![]);
}

#[test]
fn adding_a_record_appends_a_line() {
    let adapter = DnsmasqAdapter::new();
    assert_eq!(
        adapter.add_dns_entry("address=/a.lan/10.0.0.1\n", "b.lan", "10.0.0.2").unwrap(),
        "address=/a.lan/10.0.0.1\naddress=/b.lan/10.0.0.2\n"
    );
    assert_eq!(adapter.add_dns_entry("", "b.lan", "10.0.0.2").unwrap(), "address=/b.lan/10.0.0.2\n");
    assert_eq!(
        adapter.add_dns_entry("no newline", "b.lan", "10.0.0.2").unwrap(),
        "no newlineaddress=/b.lan/10.0.0.2\n"
    );
}

#[test]
fn adding_a_record_twice_is_refused() {
    let adapter = DnsmasqAdapter::new();
    let err = adapter.add_dns_entry("address=/b.lan/10.0.0.9\n", "b.lan", "10.0.0.2").unwrap_err();
    assert!(matches!(&err, Error::DnsEntryExists { hostname } if hostname == "b.lan"));
    assert_eq!(err.message(), "DNS entry for b.lan already exists");
    assert!(adapter.add_dns_entry("address=/ab.lan/10.0.0.9\n", "b.lan", "10.0.0.2").is_ok());
}

#[test]
fn adding_then_removing_a_record_gives_the_configuration_back() {
    let adapter = DnsmasqAdapter::new();
    let before = "address=/a.lan/10.0.0.1\n";
    let added = adapter.add_dns_entry(before, "b.lan", "10.0.0.2").unwrap();
    assert_eq!(adapter.remove_dns_entry(&added, "b.lan").unwrap(), before);
}

#[test]
fn removing_a_record_drops_its_lines() {
    let adapter = DnsmasqAdapter::new();
    let content = "address=/a.lan/10.0.0.1\naddress=/b.lan/10.0.0.2\n# address=/b.lan/ old\nserver=1.1.1.1\n";
    assert_eq!(
        adapter.remove_dns_entry(content, "b.lan").unwrap(),
        "address=/a.lan/10.0.0.1\nserver=1.1.1.1\n"
    );
    assert_eq!(adapter.remove_dns_entry("address=/b.lan/10.0.0.2\n", "b.lan").unwrap(), "\n");
}

#[test]
fn removing_a_record_that_is_not_there_is_refused() {
    let adapter = DnsmasqAdapter::new();
    let err = adapter.remove_dns_entry("address=/a.lan/10.0.0.1\n", "b.lan").unwrap_err();
    assert!(matches!(&err, Error::DnsEntryMissing { hostname } if hostname == "b.lan"));
    assert_eq!(err.message(), "DNS entry for b.lan not found in custom config");
}

#[test]
fn removing_from_a_text_without_a_final_line_feed_adds_one() {
    let adapter = DnsmasqAdapter::new();
    assert_eq!(adapter.remove_dns_entry("address=/a.lan/10.0.0.1", "b.lan").unwrap(), "address=/a.lan/10.0.0.1\n");
    assert_eq!(adapter.remove_dns_entry("a\r\nb\r\n", "zzz").unwrap(), "a\nb\n");
}

#[test]
fn the_lease_file_gives_the_leases_handed_out() {
    let adapter = DnsmasqAdapter::new();
    let content = "1735689600 aa:bb:cc:dd:ee:ff 192.168.4.20 laptop 01:aa:bb:cc:dd:ee:ff\n1735689700 11:22:33:44:55:66 192.168.4.21 *\nshort line\n";
    assert_eq!(
        leases(&adapter.parse_active_leases(content)),
        vec![
            five("aa:bb:cc:dd:ee:ff", "192.168.4.20", "laptop", "1735689600", false),
            five("11:22:33:44:55:66", "192.168.4.21", "*", "1735689700", false),
        ]
    );
}

#[test]
fn reservation_lines_give_static_leases() {
    let adapter = DnsmasqAdapter::new();
    let content = "dhcp-range=192.168.4.10,192.168.4.200\ndhcp-host=aa:bb:cc:dd:ee:ff,192.168.4.50,nas\n  dhcp-host=11:22:33:44:55:66,192.168.4.51\ndhcp-host=lonely\n#dhcp-host=x,y\n";
    assert_eq!(
        leases(&adapter.parse_static_reservations(content)),
        vec![
            five("aa:bb:cc:dd:ee:ff", "192.168.4.50", "nas", "static", true),
            five("11:22:33:44:55:66", "192.168.4.51", "", "static", true),
        ]
    );
}

#[test]
fn leases_are_listed_before_reservations() {
    let adapter = DnsmasqAdapter::new();
    let all = adapter.list_leases(
        Some("1 aa:aa:aa:aa:aa:aa 10.0.0.5 a\n"),
        Some("dhcp-host=bb:bb:bb:bb:bb:bb,10.0.0.6,b\n"),
    );
    assert_eq!(
        leases(&all),
        vec![
            five("aa:aa:aa:aa:aa:aa", "10.0.0.5", "a", "1", false),
            five("bb:bb:bb:bb:bb:bb", "10.0.0.6", "b", "static", true),
        ]
    );
    assert_eq!(leases(&adapter.list_leases(None, None)), vec![]);
    assert_eq!(
        leases(&adapter.list_leases(None, Some("dhcp-host=bb:bb:bb:bb:bb:bb,10.0.0.6\n"))),
        vec![five("bb:bb:bb:bb:bb:bb", "10.0.0.6", "", "static", true)]
    );
}

#[test]
fn adding_a_reservation_appends_a_line_after_trimming() {
    let adapter = DnsmasqAdapter::new();
    assert_eq!(
        adapter.add_reservation("port=53\n\n\n", "aa:bb:cc:dd:ee:ff", "192.168.4.50", Some("nas")).unwrap(),
        "port=53\ndhcp-host=aa:bb:cc:dd:ee:ff,192.168.4.50,nas\n"
    );
    assert_eq!(
        adapter.add_reservation("port=53", "aa:bb:cc:dd:ee:ff", "192.168.4.50", None).unwrap(),
        "port=53\ndhcp-host=aa:bb:cc:dd:ee:ff,192.168.4.50\n"
    );
    assert_eq!(
        adapter.add_reservation("", "aa:bb:cc:dd:ee:ff", "192.168.4.50", None).unwrap(),
        "\ndhcp-host=aa:bb:cc:dd:ee:ff,192.168.4.50\n"
    );
}

#[test]
fn a_reservation_for_a_known_hardware_address_is_refused() {
    let adapter = DnsmasqAdapter::new();
    let err = adapter
        .add_reservation("# aa:bb:cc:dd:ee:ff was here\n", "aa:bb:cc:dd:ee:ff", "192.168.4.50", None)
        .unwrap_err();
    assert!(matches!(&err, Error::ReservationExists { mac } if mac == "aa:bb:cc:dd:ee:ff"));
    assert_eq!(err.message(), "Reservation for MAC aa:bb:cc:dd:ee:ff already exists");
}

#[test]
fn removing_a_reservation_drops_its_lines_only() {
    let adapter = DnsmasqAdapter::new();
    let content = "port=53\ndhcp-host=aa:bb:cc:dd:ee:ff,192.168.4.50,nas\n# 192.168.4.50 is the nas\n dhcp-host=aa:bb:cc:dd:ee:ff,192.168.4.50\ndhcp-host=11:22:33:44:55:66,192.168.4.51\n";
    assert_eq!(
        adapter.remove_reservation(content, "192.168.4.50").unwrap(),
        "port=53\n# 192.168.4.50 is the nas\n dhcp-host=aa:bb:cc:dd:ee:ff,192.168.4.50\ndhcp-host=11:22:33:44:55:66,192.168.4.51\n"
    );
}

#[test]
fn removing_a_reservation_that_is_not_there_is_refused() {
    let adapter = DnsmasqAdapter::new();
    let err = adapter.remove_reservation("port=53\ndhcp-host=aa,10.0.0.1\n", "bb").unwrap_err();
    assert!(matches!(&err, Error::ReservationMissing { target } if target == "bb"));
    assert_eq!(err.message(), "Reservation for bb not found");
}

#[test]
fn a_reload_that_fails_says_why() {
    let adapter = DnsmasqAdapter::new();
    assert_eq!(adapter.reload_command(), "systemctl reload dnsmasq");
    let good = ShellOutput { success: true, stdout: String::new(), stderr: String::new() };
    assert!(adapter.reload(&good).is_ok());
    let bad = ShellOutput { success: false, stdout: String::new(), stderr: "not loaded".to_string() };
    let err = adapter.reload(&bad).unwrap_err();
    assert!(matches!(&err, Error::Reload { stderr } if stderr == "not loaded"));
    assert_eq!(err.message(), "Failed to reload dnsmasq: systemctl reload dnsmasq failed: not loaded");
}

#[test]
fn a_record_that_was_added_cannot_be_added_again() {
    let adapter = DnsmasqAdapter::new();
    for existing in ["", "address=/a.lan/10.0.0.1\n", "no newline"] {
        let added = adapter.add_dns_entry(existing, "b.lan", "10.0.0.2").unwrap();
        assert!(matches!(
            adapter.add_dns_entry(&added, "b.lan", "10.0.0.3"),
            Err(Error::DnsEntryExists { .. })
        ));
    }
}

#[test]
fn what_is_left_after_removing_a_record_holds_no_line_of_it() {
    let adapter = DnsmasqAdapter::new();
    let content = "address=/b.lan/1.1.1.1\nx\naddress=/b.lan/2.2.2.2\ny address=/b.lan/ z\n";
    let left = adapter.remove_dns_entry(content, "b.lan").unwrap();
    assert_eq!(left, "x\n");
    assert!(matches!(adapter.remove_dns_entry(&left, "b.lan"), Err(Error::DnsEntryMissing { .. })));
}

#[test]
fn a_record_that_was_added_is_listed() {
    let adapter = DnsmasqAdapter::new();
    let added = adapter.add_dns_entry("address=/a.lan/10.0.0.1\n", "b.lan", "10.0.0.2").unwrap();
    assert_eq!(
        records(&adapter.parse_dns_entries(&added, "custom")),
        vec![triple("a.lan", "10.0.0.1", "custom"), triple("b.lan", "10.0.0.2", "custom")]
    );
}

#[test]
fn a_reservation_that_was_added_is_listed_and_can_be_removed() {
    let adapter = DnsmasqAdapter::new();
    let before = "port=53\n";
    let added = adapter.add_reservation(before, "aa:bb:cc:dd:ee:ff", "192.168.4.50", Some("nas")).unwrap();
    assert_eq!(
        leases(&adapter.parse_static_reservations(&added)),
        vec![five("aa:bb:cc:dd:ee:ff", "192.168.4.50", "nas", "static", true)]
    );
    assert_eq!(adapter.remove_reservation(&added, "aa:bb:cc:dd:ee:ff").unwrap(), before);
    assert_eq!(adapter.remove_reservation(&added, "192.168.4.50").unwrap(), before);
}
