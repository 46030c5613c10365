//! The router itself: its outward address, its services, and how long it
//! has been up.

use vstd::prelude::*;
use crate::location::ShellOutput;
use crate::text::{from_chars, to_chars, trim, trimmed};

verus! {

/// The command that prints for how long the router has been up.
pub fn uptime_command() -> (r: String)
    ensures
        r@ == "uptime -p 2>/dev/null || uptime"@,
{
    String::from_str("uptime -p 2>/dev/null || uptime")
}

/// The command that prints the share of memory in use, in percent.
pub fn memory_command() -> (r: String)
    ensures
        r@ == "free -m | awk '/^Mem:/ {print $3/$2*100}'"@,
{
    String::from_str("free -m | awk '/^Mem:/ {print $3/$2*100}'")
}

/// The command that prints the load average of the last minute.
pub fn load_command() -> (r: String)
    ensures
        r@ == "cat /proc/loadavg | awk '{print $1}'"@,
{
    String::from_str("cat /proc/loadavg | awk '{print $1}'")
}

/// The command that prints the router's outward address: that of the
/// outward interface, else what a service on the internet sees, else
/// `unknown`.
pub fn wan_ip_command() -> (r: String)
    ensures
        r@
            == "ip -4 addr show enxc84d4421f975 2>/dev/null | grep -oP 'inet \\K[\\d.]+' || curl -s --max-time 2 ifconfig.me 2>/dev/null || echo 'unknown'"@,
{
    String::from_str(
        "ip -4 addr show enxc84d4421f975 2>/dev/null | grep -oP 'inet \\K[\\d.]+' || curl -s --max-time 2 ifconfig.me 2>/dev/null || echo 'unknown'",
    )
}

/// The command that asks whether `service` runs.
pub fn service_command(service: &str) -> (r: String)
    ensures
        r@ == "systemctl is-active "@ + service@ + " 2>/dev/null"@,
{
    let mut out = String::from_str("systemctl is-active ");
    out.append(service);
    out.append(" 2>/dev/null");
    out
}

/// What a command printed, without the white space around it.
pub fn printed(output: &ShellOutput) -> (r: String)
    ensures
        r@ == trimmed(output.stdout@),
{
    from_chars(&trim(&to_chars(output.stdout.as_str())))
}

/// The router's outward address, from the output of its command.
pub fn get_wan_ip(output: &ShellOutput) -> (r: String)
    ensures
        r@ == trimmed(output.stdout@),
{
    printed(output)
}

/// Whether a service runs, from the output of asking.
pub fn get_service_status(output: &ShellOutput) -> (r: bool)
    ensures
        r == output.success,
{
    output.success
}

} // verus!
