//! Address records.

use vstd::prelude::*;
use crate::adapters::dnsmasq::DnsRecord;
use crate::output::{TableOutput, TableRow};

verus! {

impl TableRow for DnsRecord {
    /// Name, address, source.
    open spec fn cells_of(&self) -> Seq<Seq<char>> {
        seq![self.hostname@, self.ip@, self.source@]
    }

    fn cells(&self) -> (r: Vec<String>) {
        let mut out: Vec<String> = Vec::new();
        out.push(self.hostname.clone());
        out.push(self.ip.clone());
        out.push(self.source.clone());
        assert(out.deep_view() =~= self.cells_of());
        out
    }
}

/// The headers of the table of records.
pub open spec fn record_headers() -> Seq<Seq<char>> {
    seq!["Hostname"@, "IP"@, "Source"@]
}

/// The table of the records `records`.
pub fn list(records: Vec<DnsRecord>) -> (r: TableOutput<DnsRecord>)
    ensures
        r.headers.deep_view() == record_headers(),
        r.rows@ == records@,
{
    let mut headers: Vec<String> = Vec::new();
    headers.push(String::from_str("Hostname"));
    headers.push(String::from_str("IP"));
    headers.push(String::from_str("Source"));
    assert(headers.deep_view() =~= record_headers());
    TableOutput { headers, rows: records }
}

/// What adding a record reports.
#[derive(Debug)]
pub struct AddResult {
    pub success: bool,
    pub hostname: String,
    pub ip: String,
}

/// What removing a record reports.
#[derive(Debug)]
pub struct RemoveResult {
    pub success: bool,
    pub hostname: String,
}

/// What to report once `hostname` has a record at `ip`.
pub fn add(hostname: &str, ip: &str) -> (r: AddResult)
    ensures
        r.success,
        r.hostname@ == hostname@,
        r.ip@ == ip@,
{
    AddResult { success: true, hostname: String::from_str(hostname), ip: String::from_str(ip) }
}

/// What to report once the record of `hostname` is removed.
pub fn remove(hostname: &str) -> (r: RemoveResult)
    ensures
        r.success,
        r.hostname@ == hostname@,
{
    RemoveResult { success: true, hostname: String::from_str(hostname) }
}

impl AddResult {
    /// The report as text.
    pub open spec fn rendered(&self) -> Seq<char> {
        "Added DNS record: "@ + self.hostname@ + " -> "@ + self.ip@
    }

    /// The report as text.
    pub fn render(&self) -> (r: String)
        ensures
            r@ == self.rendered(),
    {
        let mut out = String::from_str("Added DNS record: ");
        out.append(self.hostname.as_str());
        out.append(" -> ");
        out.append(self.ip.as_str());
        out
    }
}

impl RemoveResult {
    /// The report as text.
    pub open spec fn rendered(&self) -> Seq<char> {
        "Removed DNS record: "@ + self.hostname@
    }

    /// The report as text.
    pub fn render(&self) -> (r: String)
        ensures
            r@ == self.rendered(),
    {
        let mut out = String::from_str("Removed DNS record: ");
        out.append(self.hostname.as_str());
        out
    }
}

} // verus!
