use shannon::error::Error;
use shannon::number::IntError;
use shannon::location::{
    append_file, append_file_command, is_local, is_router, names_router, read_file,
    read_file_command,
    shell_invocation, succeeded, systemctl, systemctl_command, write_file, write_file_command, ShellOutput,
};

fn output(success: bool, stdout: &str, stderr: &str) -> ShellOutput {
    ShellOutput { success, stdout: stdout.to_string(), stderr: stderr.to_string() }
}

#[test]
fn test_is_local_returns_bool() {
    // Just verify it doesn't panic
    let _ = is_local();
}

#[test]
fn the_router_is_known_by_its_name_in_any_case() {
    assert!(is_router(Some("shannon")));
    assert!(is_router(Some("SHANNON")));
    assert!(is_router(Some("Shannon")));
    assert!(!is_router(Some("shannon.lan")));
    assert!(!is_router(Some("")));
    assert!(!is_router(None));
}

#[test]
fn only_the_name_in_lower_case_names_the_router() {
    assert!(names_router("shannon"));
    assert!(!names_router("SHANNON"));
    assert!(!names_router("shanno"));
    assert!(!names_router(""));
}

#[test]
fn commands_run_through_sh_on_the_router_and_through_ssh_elsewhere() {
    let local = shell_invocation(true, "uptime");
    assert_eq!(local.program, "sh");
    assert_eq!(local.args, vec!["-c".to_string(), "uptime".to_string()]);
    let remote = shell_invocation(false, "uptime");
    assert_eq!(remote.program, "ssh");
    assert_eq!(remote.args, vec!["shannon".to_string(), "uptime".to_string()]);
}

#[test]
fn a_command_succeeded_if_it_ran_and_exited_with_zero() {
    assert!(succeeded(Some(&output(true, "", ""))));
    assert!(!succeeded(Some(&output(false, "", ""))));
    assert!(!succeeded(None));
}

#[test]
fn reading_a_file_prints_it() {
    assert_eq!(read_file_command("/etc/hosts"), "cat /etc/hosts");
    let content = read_file("/etc/hosts", &output(true, "127.0.0.1 localhost\n", "")).unwrap();
    assert_eq!(content, "127.0.0.1 localhost\n");
}

#[test]
fn a_failed_read_names_the_file_and_the_reason() {
    let err = read_file("/etc/none", &output(false, "", "cat: /etc/none: No such file")).unwrap_err();
    assert!(matches!(&err, Error::Read { path, stderr } if path == "/etc/none" && stderr == "cat: /etc/none: No such file"));
    assert_eq!(err.message(), "Failed to read /etc/none: cat: /etc/none: No such file");
}

#[test]
fn writing_a_file_quotes_its_content_for_the_shell() {
    assert_eq!(
        write_file_command("/etc/dnsmasq.d/custom.conf", "address=/a/1.2.3.4\n"),
        "printf '%s' 'address=/a/1.2.3.4\n' > /etc/dnsmasq.d/custom.conf"
    );
    assert_eq!(write_file_command("/tmp/x", "it's"), "printf '%s' 'it'\\''s' > /tmp/x");
    assert_eq!(write_file_command("/tmp/x", ""), "printf '%s' '' > /tmp/x");
    assert!(write_file("/tmp/x", &output(true, "", "")).is_ok());
}

#[test]
fn a_failed_write_names_the_file_and_the_reason() {
    let err = write_file("/tmp/x", &output(false, "", "denied")).unwrap_err();
    assert!(matches!(&err, Error::Write { path, stderr } if path == "/tmp/x" && stderr == "denied"));
    assert_eq!(err.message(), "Failed to write /tmp/x: denied");
}

#[test]
fn appending_to_a_file_quotes_its_content_for_the_shell() {
    assert_eq!(append_file_command("/tmp/x", "a'b'c"), "printf '%s' 'a'\\''b'\\''c' >> /tmp/x");
    assert!(append_file("/tmp/x", &output(true, "", "")).is_ok());
    let err = append_file("/tmp/x", &output(false, "", "denied")).unwrap_err();
    assert!(matches!(&err, Error::Append { path, stderr } if path == "/tmp/x" && stderr == "denied"));
    assert_eq!(err.message(), "Failed to append to /tmp/x: denied");
}

#[test]
fn systemctl_reports_what_failed() {
    assert_eq!(systemctl_command("reload", "dnsmasq"), "systemctl reload dnsmasq");
    assert!(systemctl("reload", "dnsmasq", &output(true, "", "")).is_ok());
    let err = systemctl("restart", "ssh", &output(false, "", "no such unit")).unwrap_err();
    assert!(matches!(&err, Error::Systemctl { action, service, stderr }
        if action == "restart" && service == "ssh" && stderr == "no such unit"));
    assert_eq!(err.message(), "systemctl restart ssh failed: no such unit");
}

#[test]
fn every_failure_has_its_text() {
    assert_eq!(Error::Reload { stderr: "boom".to_string() }.message(),
        "Failed to reload dnsmasq: systemctl reload dnsmasq failed: boom");
    assert_eq!(Error::DnsEntryExists { hostname: "nas".to_string() }.message(), "DNS entry for nas already exists");
    assert_eq!(Error::DnsEntryMissing { hostname: "nas".to_string() }.message(),
        "DNS entry for nas not found in custom config");
    assert_eq!(Error::ReservationExists { mac: "aa:bb".to_string() }.message(),
        "Reservation for MAC aa:bb already exists");
    assert_eq!(Error::ReservationMissing { target: "aa:bb".to_string() }.message(),
        "Reservation for aa:bb not found");
    assert_eq!(Error::TargetFormat.message(), "Internal target must be in ip:port format");
    assert_eq!(Error::Port { kind: IntError::Empty }.message(), "cannot parse integer from empty string");
    assert_eq!(Error::Port { kind: IntError::InvalidDigit }.message(), "invalid digit found in string");
    assert_eq!(Error::Port { kind: IntError::PosOverflow }.message(), "number too large to fit in target type");
    assert_eq!(Error::Cancelled.message(), "Operation cancelled");
}

#[test]
fn the_texts_of_port_errors_are_those_of_the_standard_parser() {
    assert_eq!(Error::Port { kind: IntError::Empty }.message(), "".parse::<u16>().unwrap_err().to_string());
    assert_eq!(Error::Port { kind: IntError::InvalidDigit }.message(), "x".parse::<u16>().unwrap_err().to_string());
    assert_eq!(Error::Port { kind: IntError::PosOverflow }.message(), "65536".parse::<u16>().unwrap_err().to_string());
}
