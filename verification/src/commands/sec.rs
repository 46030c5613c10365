//! The security services taken together, the addresses blocked, and the
//! findings of a scan.

use vstd::prelude::*;
use crate::adapters::adguard::AdguardStatus;
use crate::adapters::crowdsec::{count32, CrowdsecDecision, CrowdsecStatus};
use crate::adapters::wireguard::WireguardStatus;
use crate::number::{decimal, push_decimal};
use crate::text::{same, to_uppercase, uppercase};

verus! {

/// The states of the three security services.
#[derive(Debug)]
pub struct SecurityStatus {
    pub adguard: AdguardStatus,
    pub crowdsec: CrowdsecStatus,
    pub wireguard: WireguardStatus,
}

/// The decisions in force, and how many they are.
#[derive(Debug)]
pub struct BlocksResult {
    pub count: u32,
    pub decisions: Vec<CrowdsecDecision>,
}

/// Something that a scan found.
#[derive(Debug, Clone)]
pub struct SecurityFinding {
    pub timestamp: String,
    pub severity: String,
    pub category: String,
    pub summary: String,
    pub details: String,
}

/// What a scan found.
#[derive(Debug)]
pub struct ScanResult {
    pub findings: Vec<SecurityFinding>,
    pub logs_analyzed: usize,
    pub time_window_hours: u32,
}

/// The states of the three security services, put together.
pub fn status(adguard: AdguardStatus, crowdsec: CrowdsecStatus, wireguard: WireguardStatus) -> (r:
    SecurityStatus)
    ensures
        r.adguard == adguard,
        r.crowdsec == crowdsec,
        r.wireguard == wireguard,
{
    SecurityStatus { adguard, crowdsec, wireguard }
}

/// The decisions `decisions` with their number, as a 32-bit count.
pub fn blocks(decisions: Vec<CrowdsecDecision>) -> (r: BlocksResult)
    ensures
        r.decisions@ == decisions@,
        r.count == count32(decisions@.len()),
{
    let n = decisions.len();
    #[verifier::truncate]
    let count = n as u32;
    assert(count == count32(n as nat)) by (bit_vector)
        requires
            count == n as u32,
    ;
    BlocksResult { count, decisions }
}

/// The result of a scan: nothing found in no log entries, over one hour.
pub fn scan() -> (r: ScanResult)
    ensures
        r.findings@.len() == 0,
        r.logs_analyzed == 0,
        r.time_window_hours == 1,
{
    ScanResult { findings: Vec::new(), logs_analyzed: 0, time_window_hours: 1 }
}

/// What is said after the result of a scan.
pub fn scan_note() -> (r: String)
    ensures
        r@
            == "\nNote: LLM-based security analysis not yet implemented.\nRun 'shannon sec blocks' to view active CrowdSec decisions."@,
{
    String::from_str(
        "\nNote: LLM-based security analysis not yet implemented.\nRun 'shannon sec blocks' to view active CrowdSec decisions.",
    )
}

/// The findings of the last `hours` hours: none are kept.
pub fn report(hours: u32) -> (r: ScanResult)
    ensures
        r.findings@.len() == 0,
        r.logs_analyzed == 0,
        r.time_window_hours == hours,
{
    ScanResult { findings: Vec::new(), logs_analyzed: 0, time_window_hours: hours }
}

/// What is said after a report.
pub fn report_note() -> (r: String)
    ensures
        r@ == "\nNote: No findings stored yet. Run 'shannon sec scan' first."@,
{
    String::from_str("\nNote: No findings stored yet. Run 'shannon sec scan' first.")
}

impl SecurityStatus {
    /// The three states under a heading.
    pub open spec fn rendered(&self) -> Seq<char> {
        "Security Stack Status\n"@ + "=====================\n"@ + self.adguard.rendered()
            + self.crowdsec.rendered() + self.wireguard.rendered()
    }

    /// The three states under a heading.
    pub fn render(&self) -> (r: String)
        ensures
            r@ == self.rendered(),
    {
        let mut out = String::from_str("Security Stack Status\n");
        out.append("=====================\n");
        out.append(self.adguard.render().as_str());
        out.append(self.crowdsec.render().as_str());
        out.append(self.wireguard.render().as_str());
        out
    }
}

/// The decisions `decisions` as text, one after the other.
pub open spec fn rendered_decisions(decisions: Seq<CrowdsecDecision>) -> Seq<char>
    decreases decisions.len(),
{
    if decisions.len() == 0 {
        Seq::empty()
    } else {
        rendered_decisions(decisions.drop_last()) + decisions.last().rendered()
    }
}

impl BlocksResult {
    /// The decisions under a heading, or a line that says there are none.
    pub open spec fn rendered(&self) -> Seq<char> {
        "CrowdSec Active Blocks\n"@ + "======================\n"@ + if self.decisions@.len() == 0 {
            "No active blocks.\n"@
        } else {
            decimal(self.count as nat) + " blocked IPs:\n"@ + "\n"@ + rendered_decisions(
                self.decisions@,
            )
        }
    }

    /// The decisions under a heading.
    pub fn render(&self) -> (r: String)
        ensures
            r@ == self.rendered(),
    {
        let mut out = String::from_str("CrowdSec Active Blocks\n");
        out.append("======================\n");
        if self.decisions.len() == 0 {
            out.append("No active blocks.\n");
            return out;
        }
        push_decimal(&mut out, self.count as u64);
        out.append(" blocked IPs:\n");
        out.append("\n");
        let ghost head = out@;
        let mut i: usize = 0;
        assert(self.decisions@.take(0) =~= Seq::<CrowdsecDecision>::empty());
        assert(out@ =~= head + rendered_decisions(self.decisions@.take(0)));
        while i < self.decisions.len()
            invariant
                i <= self.decisions.len(),
                out@ == head + rendered_decisions(self.decisions@.take(i as int)),
            decreases self.decisions.len() - i,
        {
            assert(self.decisions@.take(i + 1).drop_last() =~= self.decisions@.take(i as int));
            self.decisions[i].render_into(&mut out);
            assert(out@ =~= head + rendered_decisions(self.decisions@.take(i + 1)));
            i += 1;
        }
        assert(self.decisions@.take(i as int) =~= self.decisions@);
        assert(out@ =~= self.rendered());
        out
    }
}

/// The sign for a severity: red for `critical` and `high`, yellow for
/// `medium`, green for anything else.
pub open spec fn severity_sign(severity: Seq<char>) -> Seq<char> {
    if severity == "critical"@ || severity == "high"@ {
        "🔴"@
    } else if severity == "medium"@ {
        "🟡"@
    } else {
        "🟢"@
    }
}

impl SecurityFinding {
    /// The finding as text, with `capitals` for its severity: sign,
    /// severity and summary, then category and time, then the details if
    /// there are any.
    pub open spec fn rendered_with(&self, capitals: Seq<char>) -> Seq<char> {
        severity_sign(self.severity@) + " ["@ + capitals + "] "@ + self.summary@ + "\n"@
            + "   Category: "@ + self.category@ + "\n"@ + "   Time: "@ + self.timestamp@ + "\n"@
            + if self.details@.len() > 0 {
            "   Details: "@ + self.details@ + "\n"@
        } else {
            Seq::empty()
        }
    }

    /// The finding as text, with its severity in upper case.
    pub open spec fn rendered(&self) -> Seq<char> {
        self.rendered_with(uppercase(self.severity@))
    }

    /// Appends the finding as text to `out`, with `capitals` for its
    /// severity.
    pub fn render_with(&self, capitals: &str, out: &mut String)
        ensures
            final(out)@ == old(out)@ + self.rendered_with(capitals@),
    {
        let severity = self.severity.as_str();
        if same(severity, "critical") || same(severity, "high") {
            out.append("🔴");
        } else if same(severity, "medium") {
            out.append("🟡");
        } else {
            out.append("🟢");
        }
        out.append(" [");
        out.append(capitals);
        out.append("] ");
        out.append(self.summary.as_str());
        out.append("\n");
        out.append("   Category: ");
        out.append(self.category.as_str());
        out.append("\n");
        out.append("   Time: ");
        out.append(self.timestamp.as_str());
        out.append("\n");
        if !self.details.as_str().is_empty() {
            out.append("   Details: ");
            out.append(self.details.as_str());
            out.append("\n");
        }
        assert(out@ =~= old(out)@ + self.rendered_with(capitals@));
    }

    /// Appends the finding as text to `out`.
    pub fn render_into(&self, out: &mut String)
        ensures
            final(out)@ == old(out)@ + self.rendered(),
    {
        let capitals = to_uppercase(self.severity.as_str());
        self.render_with(capitals.as_str(), out);
    }

    /// The finding as text.
    pub fn render(&self) -> (r: String)
        ensures
            r@ == self.rendered(),
    {
        let mut out = String::new();
        self.render_into(&mut out);
        assert(Seq::<char>::empty() + self.rendered() =~= self.rendered());
        out
    }
}

/// The findings `findings` as text, an empty line after each.
pub open spec fn rendered_findings(findings: Seq<SecurityFinding>) -> Seq<char>
    decreases findings.len(),
{
    if findings.len() == 0 {
        Seq::empty()
    } else {
        rendered_findings(findings.drop_last()) + findings.last().rendered() + "\n"@
    }
}

impl ScanResult {
    /// The result under a heading: how much was looked at, then the
    /// findings, or a line that says there are none.
    pub open spec fn rendered(&self) -> Seq<char> {
        "Security Scan Results\n"@ + "=====================\n"@ + "Analyzed "@ + decimal(
            self.logs_analyzed as nat,
        ) + " log entries (last "@ + decimal(self.time_window_hours as nat) + " hours)\n"@ + "\n"@
            + if self.findings@.len() == 0 {
            "No security issues detected.\n"@
        } else {
            "Found "@ + decimal(self.findings@.len()) + " issues:\n"@ + "\n"@ + rendered_findings(
                self.findings@,
            )
        }
    }

    /// The result under a heading.
    pub fn render(&self) -> (r: String)
        ensures
            r@ == self.rendered(),
    {
        let mut out = String::from_str("Security Scan Results\n");
        out.append("=====================\n");
        out.append("Analyzed ");
        push_decimal(&mut out, self.logs_analyzed as u64);
        out.append(" log entries (last ");
        push_decimal(&mut out, self.time_window_hours as u64);
        out.append(" hours)\n");
        out.append("\n");
        if self.findings.len() == 0 {
            out.append("No security issues detected.\n");
            return out;
        }
        out.append("Found ");
        push_decimal(&mut out, self.findings.len() as u64);
        out.append(" issues:\n");
        out.append("\n");
        let ghost head = out@;
        let mut i: usize = 0;
        assert(self.findings@.take(0) =~= Seq::<SecurityFinding>::empty());
        assert(out@ =~= head + rendered_findings(self.findings@.take(0)));
        while i < self.findings.len()
            invariant
                i <= self.findings.len(),
                out@ == head + rendered_findings(self.findings@.take(i as int)),
            decreases self.findings.len() - i,
        {
            assert(self.findings@.take(i + 1).drop_last() =~= self.findings@.take(i as int));
            self.findings[i].render_into(&mut out);
            out.append("\n");
            assert(out@ =~= head + rendered_findings(self.findings@.take(i + 1)));
            i += 1;
        }
        assert(self.findings@.take(i as int) =~= self.findings@);
        assert(out@ =~= self.rendered());
        out
    }
}

} // verus!
