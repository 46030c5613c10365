//! The overview of the router and the diagnostic checks.

use vstd::prelude::*;
use crate::location::ShellOutput;
use crate::text::{from_chars, to_chars, trim, trimmed};

verus! {

/// A service and whether it runs.
#[derive(Debug)]
pub struct ServiceStatus {
    pub name: String,
    pub active: bool,
}

/// The overview of the router. The two measurements are held as the text
/// that is shown for them: the share of memory in use with one decimal, the
/// load with two.
#[derive(Debug)]
pub struct SystemStatus {
    pub wan_ip: String,
    pub uptime: String,
    pub memory_used_percent: String,
    pub cpu_load: String,
    pub services: Vec<ServiceStatus>,
}

/// One diagnostic check and how it went.
#[derive(Debug)]
pub struct DiagnosticCheck {
    pub name: String,
    pub passed: bool,
    pub message: String,
}

/// The diagnostic checks, and whether all of them passed.
#[derive(Debug)]
pub struct DiagnosticResult {
    pub checks: Vec<DiagnosticCheck>,
    pub all_passed: bool,
}

/// The services that the overview lists, in order.
pub open spec fn service_names() -> Seq<Seq<char>> {
    seq!["dnsmasq"@, "ssh"@, "crowdsec"@, "AdGuardHome"@, "wg-quick@wg0"@]
}

/// Whether the `i`-th of `states` says that its service runs: a state that
/// is missing or unknown counts as not running.
pub open spec fn runs(states: Seq<Option<bool>>, i: int) -> bool {
    0 <= i < states.len() && states[i] == Some(true)
}

/// The services that the overview lists, in order.
pub fn services() -> (r: Vec<String>)
    ensures
        r.deep_view() == service_names(),
{
    let mut out: Vec<String> = Vec::new();
    out.push(String::from_str("dnsmasq"));
    out.push(String::from_str("ssh"));
    out.push(String::from_str("crowdsec"));
    out.push(String::from_str("AdGuardHome"));
    out.push(String::from_str("wg-quick@wg0"));
    assert(out.deep_view() =~= service_names());
    out
}

/// The overview of the router. `wan_ip` is the outward address, `None`
/// where it could not be asked for, which shows as `unknown`. `states`
/// holds for each listed service, in order, whether it runs, `None` where
/// that could not be asked.
pub fn status(
    wan_ip: Option<String>,
    uptime: String,
    memory_used_percent: String,
    cpu_load: String,
    states: &Vec<Option<bool>>,
) -> (r: SystemStatus)
    ensures
        r.wan_ip@ == (match wan_ip {
            Some(ip) => ip@,
            None => "unknown"@,
        }),
        r.uptime == uptime,
        r.memory_used_percent == memory_used_percent,
        r.cpu_load == cpu_load,
        r.services@.len() == service_names().len(),
        forall|i: int|
            0 <= i < r.services@.len() ==> (#[trigger] r.services@[i]).name@ == service_names()[i]
                && r.services@[i].active == runs(states@, i),
{
    let names = services();
    let mut list: Vec<ServiceStatus> = Vec::new();
    let mut i: usize = 0;
    while i < names.len()
        invariant
            i <= names.len(),
            names.deep_view() == service_names(),
            list@.len() == i,
            forall|k: int|
                0 <= k < i ==> (#[trigger] list@[k]).name@ == service_names()[k] && list@[k].active
                    == runs(states@, k),
        decreases names.len() - i,
    {
        let active = if i < states.len() {
            match states[i] {
                Some(b) => b,
                None => false,
            }
        } else {
            false
        };
        assert(names.deep_view()[i as int] == names@[i as int]@);
        list.push(ServiceStatus { name: names[i].clone(), active });
        i += 1;
    }
    assert(names.deep_view().len() == names@.len());
    SystemStatus {
        wan_ip: match wan_ip {
            Some(ip) => ip,
            None => String::from_str("unknown"),
        },
        uptime,
        memory_used_percent,
        cpu_load,
        services: list,
    }
}

/// The sign for passed or running, and for the opposite.
pub open spec fn mark(good: bool) -> Seq<char> {
    if good {
        "✓"@
    } else {
        "✗"@
    }
}

/// The services `services` as lines.
pub open spec fn rendered_services(services: Seq<ServiceStatus>) -> Seq<char>
    decreases services.len(),
{
    if services.len() == 0 {
        Seq::empty()
    } else {
        rendered_services(services.drop_last()) + "  "@ + mark(services.last().active) + " "@
            + services.last().name@ + "\n"@
    }
}

impl SystemStatus {
    /// The overview as text.
    pub open spec fn rendered(&self) -> Seq<char> {
        "SHANNON Router Status\n"@ + "=====================\n"@ + "WAN IP:     "@ + self.wan_ip@
            + "\n"@ + "Uptime:     "@ + self.uptime@ + "\n"@ + "Memory:     "@
            + self.memory_used_percent@ + "%\n"@ + "CPU Load:   "@ + self.cpu_load@ + "\n"@ + "\n"@
            + "Services:\n"@ + rendered_services(self.services@)
    }

    /// The overview as text.
    pub fn render(&self) -> (r: String)
        ensures
            r@ == self.rendered(),
    {
        let mut out = String::from_str("SHANNON Router Status\n");
        out.append("=====================\n");
        out.append("WAN IP:     ");
        out.append(self.wan_ip.as_str());
        out.append("\n");
        out.append("Uptime:     ");
        out.append(self.uptime.as_str());
        out.append("\n");
        out.append("Memory:     ");
        out.append(self.memory_used_percent.as_str());
        out.append("%\n");
        out.append("CPU Load:   ");
        out.append(self.cpu_load.as_str());
        out.append("\n");
        out.append("\n");
        out.append("Services:\n");
        let ghost head = out@;
        let mut i: usize = 0;
        assert(self.services@.take(0) =~= Seq::<ServiceStatus>::empty());
        assert(out@ =~= head + rendered_services(self.services@.take(0)));
        while i < self.services.len()
            invariant
                i <= self.services.len(),
                out@ == head + rendered_services(self.services@.take(i as int)),
            decreases self.services.len() - i,
        {
            assert(self.services@.take(i + 1).drop_last() =~= self.services@.take(i as int));
            out.append("  ");
            if self.services[i].active {
                out.append("✓");
            } else {
                out.append("✗");
            }
            out.append(" ");
            out.append(self.services[i].name.as_str());
            out.append("\n");
            assert(out@ =~= head + rendered_services(self.services@.take(i + 1)));
            i += 1;
        }
        assert(self.services@.take(i as int) =~= self.services@);
        out
    }
}

/// The command that sends one echo request to `target` and waits two
/// seconds for the answer.
pub fn ping_command(target: &str) -> (r: String)
    ensures
        r@ == "ping -c 1 -W 2 "@ + target@,
{
    let mut out = String::from_str("ping -c 1 -W 2 ");
    out.append(target);
    out
}

/// The command that tries to resolve a well-known name.
pub fn dns_command() -> (r: String)
    ensures
        r@
            == "getent hosts google.com 2>/dev/null || ping -c 1 -W 2 google.com 2>&1 | grep -q 'bytes from'"@,
{
    String::from_str(
        "getent hosts google.com 2>/dev/null || ping -c 1 -W 2 google.com 2>&1 | grep -q 'bytes from'",
    )
}

/// What a ping says: `reachable` if it went through, else what it wrote to
/// standard error; for a ping that could not be run, why.
pub open spec fn ping_message(outcome: &Result<ShellOutput, String>) -> Seq<char> {
    match outcome {
        Ok(output) => if output.success {
            "reachable"@
        } else {
            "unreachable: "@ + trimmed(output.stderr@)
        },
        Err(reason) => "error: "@ + reason@,
    }
}

/// What resolving a name says.
pub open spec fn dns_message(outcome: &Result<ShellOutput, String>) -> Seq<char> {
    match outcome {
        Ok(output) => if output.success {
            "working"@
        } else {
            "failed to resolve google.com"@
        },
        Err(reason) => "error: "@ + reason@,
    }
}

/// Whether a command was run and went through.
pub open spec fn went_through(outcome: &Result<ShellOutput, String>) -> bool {
    outcome matches Ok(output) && output.success
}

/// The check called `name`, from the outcome of pinging its target.
pub fn check_ping(name: &str, outcome: &Result<ShellOutput, String>) -> (r: DiagnosticCheck)
    ensures
        r.name@ == name@,
        r.passed == went_through(outcome),
        r.message@ == ping_message(outcome),
{
    match outcome {
        Ok(output) => {
            if output.success {
                DiagnosticCheck {
                    name: String::from_str(name),
                    passed: true,
                    message: String::from_str("reachable"),
                }
            } else {
                let mut message = String::from_str("unreachable: ");
                let reason = from_chars(&trim(&to_chars(output.stderr.as_str())));
                message.append(reason.as_str());
                DiagnosticCheck { name: String::from_str(name), passed: false, message }
            }
        },
        Err(reason) => {
            let mut message = String::from_str("error: ");
            message.append(reason.as_str());
            DiagnosticCheck { name: String::from_str(name), passed: false, message }
        },
    }
}

/// The check of name resolution, from the outcome of its command.
pub fn check_dns(outcome: &Result<ShellOutput, String>) -> (r: DiagnosticCheck)
    ensures
        r.name@ == "DNS resolution"@,
        r.passed == went_through(outcome),
        r.message@ == dns_message(outcome),
{
    match outcome {
        Ok(output) => {
            if output.success {
                DiagnosticCheck {
                    name: String::from_str("DNS resolution"),
                    passed: true,
                    message: String::from_str("working"),
                }
            } else {
                DiagnosticCheck {
                    name: String::from_str("DNS resolution"),
                    passed: false,
                    message: String::from_str("failed to resolve google.com"),
                }
            }
        },
        Err(reason) => {
            let mut message = String::from_str("error: ");
            message.append(reason.as_str());
            DiagnosticCheck { name: String::from_str("DNS resolution"), passed: false, message }
        },
    }
}

/// The address of the gateway that the first check pings.
pub fn gateway() -> (r: String)
    ensures
        r@ == "192.168.4.1"@,
{
    String::from_str("192.168.4.1")
}

/// The address on the internet that the third check pings.
pub fn internet() -> (r: String)
    ensures
        r@ == "1.1.1.1"@,
{
    String::from_str("1.1.1.1")
}

/// The four checks: gateway, name resolution, internet, name server. The
/// name server is asked twice whether it runs: the first answer decides
/// whether the check passed, the second what it says. An answer of `None`
/// counts as not running. All have passed if each has.
pub fn doctor(
    gateway: &Result<ShellOutput, String>,
    dns: &Result<ShellOutput, String>,
    internet: &Result<ShellOutput, String>,
    dnsmasq: Option<bool>,
    dnsmasq_again: Option<bool>,
) -> (r: DiagnosticResult)
    ensures
        r.checks@.len() == 4,
        r.checks@[0].name@ == "Gateway"@,
        r.checks@[0].passed == went_through(gateway),
        r.checks@[0].message@ == ping_message(gateway),
        r.checks@[1].name@ == "DNS resolution"@,
        r.checks@[1].passed == went_through(dns),
        r.checks@[1].message@ == dns_message(dns),
        r.checks@[2].name@ == "Internet (1.1.1.1)"@,
        r.checks@[2].passed == went_through(internet),
        r.checks@[2].message@ == ping_message(internet),
        r.checks@[3].name@ == "dnsmasq service"@,
        r.checks@[3].passed == (dnsmasq == Some(true)),
        r.checks@[3].message@ == if dnsmasq_again == Some(true) {
            "running"@
        } else {
            "not running"@
        },
        r.all_passed == (went_through(gateway) && went_through(dns) && went_through(internet)
            && dnsmasq == Some(true)),
{
    let first = check_ping("Gateway", gateway);
    let second = check_dns(dns);
    let third = check_ping("Internet (1.1.1.1)", internet);
    let passed = match dnsmasq {
        Some(b) => b,
        None => false,
    };
    let running = match dnsmasq_again {
        Some(b) => b,
        None => false,
    };
    let fourth = DiagnosticCheck {
        name: String::from_str("dnsmasq service"),
        passed,
        message: if running {
            String::from_str("running")
        } else {
            String::from_str("not running")
        },
    };
    let all_passed = first.passed && second.passed && third.passed && fourth.passed;
    let mut checks: Vec<DiagnosticCheck> = Vec::new();
    checks.push(first);
    checks.push(second);
    checks.push(third);
    checks.push(fourth);
    DiagnosticResult { checks, all_passed }
}

/// The checks `checks` as lines.
pub open spec fn rendered_checks(checks: Seq<DiagnosticCheck>) -> Seq<char>
    decreases checks.len(),
{
    if checks.len() == 0 {
        Seq::empty()
    } else {
        rendered_checks(checks.drop_last()) + mark(checks.last().passed) + " "@
            + checks.last().name@ + ": "@ + checks.last().message@ + "\n"@
    }
}

impl DiagnosticResult {
    /// The checks under a heading, and a verdict.
    pub open spec fn rendered(&self) -> Seq<char> {
        "SHANNON Doctor\n"@ + "==============\n"@ + rendered_checks(self.checks@) + "\n"@
            + if self.all_passed {
            "All checks passed!\n"@
        } else {
            "Some checks failed.\n"@
        }
    }

    /// The checks under a heading, and a verdict.
    pub fn render(&self) -> (r: String)
        ensures
            r@ == self.rendered(),
    {
        let mut out = String::from_str("SHANNON Doctor\n");
        out.append("==============\n");
        let ghost head = out@;
        let mut i: usize = 0;
        assert(self.checks@.take(0) =~= Seq::<DiagnosticCheck>::empty());
        assert(out@ =~= head + rendered_checks(self.checks@.take(0)));
        while i < self.checks.len()
            invariant
                i <= self.checks.len(),
                out@ == head + rendered_checks(self.checks@.take(i as int)),
            decreases self.checks.len() - i,
        {
            assert(self.checks@.take(i + 1).drop_last() =~= self.checks@.take(i as int));
            if self.checks[i].passed {
                out.append("✓");
            } else {
                out.append("✗");
            }
            out.append(" ");
            out.append(self.checks[i].name.as_str());
            out.append(": ");
            out.append(self.checks[i].message.as_str());
            out.append("\n");
            assert(out@ =~= head + rendered_checks(self.checks@.take(i + 1)));
            i += 1;
        }
        assert(self.checks@.take(i as int) =~= self.checks@);
        out.append("\n");
        if self.all_passed {
            out.append("All checks passed!\n");
        } else {
            out.append("Some checks failed.\n");
        }
        out
    }
}

} // verus!
