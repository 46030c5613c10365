use shannon::adapters::dnsmasq::{DhcpLease, DnsRecord};
use shannon::adapters::nftables::PortForward;
use shannon::output::{
    confirm, format_output, push_padded, push_repeated, says_yes, LineStatus, StatusLine,
    StatusReport,
    TableOutput, TableRow,
};

fn line(key: &str, value: &str, status: Option<LineStatus>) -> StatusLine {
    StatusLine { key: key.to_string(), value: value.to_string(), status }
}

#[test]
fn a_status_line_begins_with_its_mark() {
    assert_eq!(line("DNS", "up", Some(LineStatus::Okay)).render(), "✓ DNS: up");
    assert_eq!(line("Disk", "81%", Some(LineStatus::Warning)).render(), "! Disk: 81%");
    assert_eq!(line("VPN", "down", Some(LineStatus::Error)).render(), "✗ VPN: down");
    assert_eq!(line("Host", "shannon", None).render(), "  Host: shannon");
}

#[test]
fn a_report_shows_each_line_on_its_own() {
    let report = StatusReport { lines: vec![line("a", "1", None), line("b", "2", Some(LineStatus::Okay))] };
    assert_eq!(report.render(), "  a: 1\n✓ b: 2\n");
    assert_eq!(StatusReport { lines: vec![] }.render(), "");
}

#[test]
fn padding_fills_up_to_the_width() {
    let mut out = String::from("[");
    push_padded(&mut out, "ab", 5);
    out.push(']');
    assert_eq!(out, "[ab   ]");
    let mut out = String::new();
    push_padded(&mut out, "abcdef", 3);
    assert_eq!(out, "abcdef");
    let mut out = String::new();
    push_padded(&mut out, "é", 3);
    assert_eq!(out, format!("{:3}", "é"));
    let mut out = String::new();
    push_repeated(&mut out, '-', 4);
    assert_eq!(out, "----");
    push_repeated(&mut out, '-', 0);
    assert_eq!(out, "----");
}

fn lease(mac: &str, ip: &str, hostname: &str, expires: &str) -> DhcpLease {
    DhcpLease {
        mac: mac.to_string(),
        ip: ip.to_string(),
        hostname: hostname.to_string(),
        expires: expires.to_string(),
        is_static: false,
    }
}

#[test]
fn a_table_pads_each_column_to_its_widest_cell() {
    let table = TableOutput {
        headers: vec!["MAC".to_string(), "IP".to_string(), "Hostname".to_string(), "Expires".to_string()],
        rows: vec![lease("aa:bb:cc:dd:ee:ff", "192.168.4.20", "nas", "static"), lease("11:22", "10.0.0.1", "printer-upstairs", "1735689600")],
    };
    assert_eq!(table.widths(), vec![17, 12, 16, 10]);
    assert_eq!(
        table.render(),
        "MAC                IP            Hostname          Expires   \n\
         -----------------  ------------  ----------------  ----------\n\
         aa:bb:cc:dd:ee:ff  192.168.4.20  nas               static    \n\
         11:22              10.0.0.1      printer-upstairs  1735689600\n"
    );
}

#[test]
fn an_empty_table_shows_headers_and_rule() {
    let table: TableOutput<DhcpLease> = TableOutput { headers: vec!["A".to_string(), "Bee".to_string()], rows: vec![] };
    assert_eq!(table.render(), "A  Bee\n-  ---\n");
    let bare: TableOutput<DhcpLease> = TableOutput { headers: vec![], rows: vec![] };
    assert_eq!(bare.render(), "\n\n");
}

#[test]
fn cells_beyond_the_last_column_leave_only_their_blanks() {
    let table = TableOutput { headers: vec!["M".to_string(), "I".to_string()], rows: vec![lease("a", "b", "c", "d")] };
    assert_eq!(table.render(), "M  I\n-  -\na  b    \n");
}

#[test]
fn widths_are_counted_in_bytes_and_padding_in_characters() {
    let table = TableOutput {
        headers: vec!["Hostname".to_string(), "IP".to_string(), "Source".to_string()],
        rows: vec![
            DnsRecord { hostname: "bücherei.lan".to_string(), ip: "10.0.0.1".to_string(), source: "main".to_string() },
            DnsRecord { hostname: "nas".to_string(), ip: "10.0.0.2".to_string(), source: "custom".to_string() },
        ],
    };
    assert_eq!(table.widths(), vec![13, 8, 6]);
    assert_eq!(
        table.render(),
        "Hostname       IP        Source\n\
         -------------  --------  ------\n\
         bücherei.lan   10.0.0.1  main  \n\
         nas            10.0.0.2  custom\n"
    );
}

#[test]
fn rows_say_what_their_cells_are() {
    assert_eq!(lease("m", "i", "h", "e").cells(), vec!["m", "i", "h", "e"]);
    let record = DnsRecord { hostname: "h".to_string(), ip: "i".to_string(), source: "s".to_string() };
    assert_eq!(record.cells(), vec!["h", "i", "s"]);
    let forward = PortForward {
        external_port: 8080,
        internal_ip: "10.0.0.2".to_string(),
        internal_port: 80,
        protocol: "tcp".to_string(),
        comment: None,
    };
    assert_eq!(forward.cells(), vec!["8080", "10.0.0.2:80", "tcp", ""]);
    let forward = PortForward { comment: Some("web".to_string()), ..forward };
    assert_eq!(forward.cells(), vec!["8080", "10.0.0.2:80", "tcp", "web"]);
}

#[test]
fn plain_text_is_printed_unless_json_is_asked_for() {
    assert_eq!(format_output("plain", None), "plain");
    assert_eq!(format_output("plain", Some(Ok("{\"a\": 1}".to_string()))), "{\"a\": 1}");
    assert_eq!(
        format_output("plain", Some(Err("key must be a string".to_string()))),
        "{\"error\": \"key must be a string\"}"
    );
}

#[test]
fn only_y_and_yes_confirm() {
    for answer in ["y", "Y", "yes", "YES", "Yes", " y\n", "\tyEs \r\n"] {
        assert!(confirm(Some(answer), false), "{:?}", answer);
    }
    for answer in ["", "\n", "n", "no", "yeah", "y es", "ye", "yes!", "1"] {
        assert!(!confirm(Some(answer), false), "{:?}", answer);
    }
    assert!(!confirm(None, false));
}

#[test]
fn an_answer_in_lower_case_says_yes_if_it_is_y_or_yes() {
    assert!(says_yes("y"));
    assert!(says_yes("yes"));
    assert!(!says_yes("Y"));
    assert!(!says_yes("yes "));
    assert!(!says_yes(""));
}

#[test]
fn the_flag_confirms_without_an_answer() {
    assert!(confirm(None, true));
    assert!(confirm(Some("no"), true));
}
