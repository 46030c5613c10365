//! Leases and reservations.

use vstd::prelude::*;
use crate::adapters::dnsmasq::DhcpLease;
use crate::error::Error;
use crate::output::{TableOutput, TableRow};

verus! {

impl TableRow for DhcpLease {
    /// Hardware address, address, name, expiry.
    open spec fn cells_of(&self) -> Seq<Seq<char>> {
        seq![self.mac@, self.ip@, self.hostname@, self.expires@]
    }

    fn cells(&self) -> (r: Vec<String>) {
        let mut out: Vec<String> = Vec::new();
        out.push(self.mac.clone());
        out.push(self.ip.clone());
        out.push(self.hostname.clone());
        out.push(self.expires.clone());
        assert(out.deep_view() =~= self.cells_of());
        out
    }
}

/// The headers of the table of leases.
pub open spec fn lease_headers() -> Seq<Seq<char>> {
    seq!["MAC"@, "IP"@, "Hostname"@, "Expires"@]
}

/// The table of the leases `rows`.
pub fn leases(rows: Vec<DhcpLease>) -> (r: TableOutput<DhcpLease>)
    ensures
        r.headers.deep_view() == lease_headers(),
        r.rows@ == rows@,
{
    let mut headers: Vec<String> = Vec::new();
    headers.push(String::from_str("MAC"));
    headers.push(String::from_str("IP"));
    headers.push(String::from_str("Hostname"));
    headers.push(String::from_str("Expires"));
    assert(headers.deep_view() =~= lease_headers());
    TableOutput { headers, rows }
}

/// What adding a reservation reports.
#[derive(Debug)]
pub struct ReserveResult {
    pub success: bool,
    pub mac: String,
    pub ip: String,
}

/// What removing a reservation reports.
#[derive(Debug)]
pub struct UnreserveResult {
    pub success: bool,
    pub target: String,
}

/// The question asked before `ip` is reserved for `mac`.
pub fn reserve_prompt(mac: &str, ip: &str) -> (r: String)
    ensures
        r@ == "Add reservation for "@ + mac@ + " -> "@ + ip@ + "?"@,
{
    let mut out = String::from_str("Add reservation for ");
    out.append(mac);
    out.append(" -> ");
    out.append(ip);
    out.append("?");
    out
}

/// What to report once `ip` is reserved for `mac`; a reservation that was
/// not confirmed is refused.
pub fn reserve(mac: &str, ip: &str, confirmed: bool) -> (r: Result<ReserveResult, Error>)
    ensures
        match r {
            Ok(result) => confirmed && result.success && result.mac@ == mac@ && result.ip@ == ip@,
            Err(Error::Cancelled) => !confirmed,
            Err(_) => false,
        },
{
    if !confirmed {
        return Err(Error::Cancelled);
    }
    Ok(ReserveResult { success: true, mac: String::from_str(mac), ip: String::from_str(ip) })
}

/// The question asked before the reservation for `target` is removed.
pub fn unreserve_prompt(target: &str) -> (r: String)
    ensures
        r@ == "Remove reservation for "@ + target@ + "?"@,
{
    let mut out = String::from_str("Remove reservation for ");
    out.append(target);
    out.append("?");
    out
}

/// What to report once the reservation for `target` is removed; a removal
/// that was not confirmed is refused.
pub fn unreserve(target: &str, confirmed: bool) -> (r: Result<UnreserveResult, Error>)
    ensures
        match r {
            Ok(result) => confirmed && result.success && result.target@ == target@,
            Err(Error::Cancelled) => !confirmed,
            Err(_) => false,
        },
{
    if !confirmed {
        return Err(Error::Cancelled);
    }
    Ok(UnreserveResult { success: true, target: String::from_str(target) })
}

impl ReserveResult {
    /// The report as text.
    pub open spec fn rendered(&self) -> Seq<char> {
        "Added reservation: "@ + self.mac@ + " -> "@ + self.ip@
    }

    /// The report as text.
    pub fn render(&self) -> (r: String)
        ensures
            r@ == self.rendered(),
    {
        let mut out = String::from_str("Added reservation: ");
        out.append(self.mac.as_str());
        out.append(" -> ");
        out.append(self.ip.as_str());
        out
    }
}

impl UnreserveResult {
    /// The report as text.
    pub open spec fn rendered(&self) -> Seq<char> {
        "Removed reservation for "@ + self.target@
    }

    /// The report as text.
    pub fn render(&self) -> (r: String)
        ensures
            r@ == self.rendered(),
    {
        let mut out = String::from_str("Removed reservation for ");
        out.append(self.target.as_str());
        out
    }
}

} // verus!
