//! The intrusion detection: whether it runs, and the decisions and
//! scenarios that its command-line tool lists.

use vstd::prelude::*;
use crate::location::{succeeded, ShellOutput};
use crate::number::{decimal, push_decimal};
use crate::text::{equals, from_chars, to_chars, trim, trimmed};

verus! {

/// `serde_json::Value`, a JSON value of any kind; nothing is known of what
/// one holds.
#[verifier::external_type_specification]
#[verifier::external_body]
pub struct ExJsonValue(serde_json::Value);

/// How many elements the JSON array written in `text` has; `None` where
/// `text` is not one JSON array.
pub uninterp spec fn json_array_len(text: Seq<char>) -> Option<nat>;

/// `serde_json::from_str` at the type `Vec<Value>`: the values of the JSON
/// array written in `text`, as many as the array has elements, or `None`
/// for a text that is not one JSON array.
#[verifier::external_body]
fn parse_array(text: &str) -> (r: Option<Vec<serde_json::Value>>)
    ensures
        match r {
            Some(values) => json_array_len(text@) == Some(values@.len()),
            None => json_array_len(text@) is None,
        },
{
    match serde_json::from_str::<Vec<serde_json::Value>>(text) {
        Ok(values) => Some(values),
        Err(_) => None,
    }
}

/// The state of the intrusion detection.
#[derive(Debug)]
pub struct CrowdsecStatus {
    pub running: bool,
    pub active_decisions: u32,
    pub scenarios_loaded: u32,
}

/// A decision in force against an address.
#[derive(Debug)]
pub struct CrowdsecDecision {
    pub id: u64,
    pub source_ip: String,
    pub reason: String,
    pub action: String,
    pub duration: String,
    pub origin: String,
}

/// The command that asks whether the intrusion detection runs.
pub fn active_command() -> (r: String)
    ensures
        r@ == "systemctl is-active crowdsec 2>/dev/null"@,
{
    String::from_str("systemctl is-active crowdsec 2>/dev/null")
}

/// The command that lists the decisions in force.
pub fn decisions_command() -> (r: String)
    ensures
        r@ == "cscli decisions list -o json 2>/dev/null"@,
{
    String::from_str("cscli decisions list -o json 2>/dev/null")
}

/// The command that lists the scenarios loaded.
pub fn scenarios_command() -> (r: String)
    ensures
        r@ == "cscli scenarios list -o json 2>/dev/null"@,
{
    String::from_str("cscli scenarios list -o json 2>/dev/null")
}

/// A length as a 32-bit count: what is left of it modulo 2^32.
pub open spec fn count32(len: nat) -> u32 {
    (len % 0x1_0000_0000) as u32
}

/// The count that the length of a listing gives: zero where there is none.
pub open spec fn listed(len: Option<nat>) -> u32 {
    match len {
        Some(n) => count32(n),
        None => 0,
    }
}

/// Whether a trimmed listing holds nothing: it is empty, or `null`.
pub open spec fn is_blank(t: Seq<char>) -> bool {
    t.len() == 0 || t == "null"@
}

/// How many entries the listing `text` has: none where, trimmed, it is
/// blank or no JSON array.
pub open spec fn entries_in(text: Seq<char>) -> u32 {
    if is_blank(trimmed(text)) {
        0
    } else {
        listed(json_array_len(trimmed(text)))
    }
}

/// The count that the length of a listing gives: zero where there is none.
pub fn array_count(len: Option<usize>) -> (r: u32)
    ensures
        r == listed(
            match len {
                Some(n) => Some(n as nat),
                None => None,
            },
        ),
{
    match len {
        Some(n) => {
            #[verifier::truncate]
            let r = n as u32;
            assert(r == count32(n as nat)) by (bit_vector)
                requires
                    r == n as u32,
            ;
            r
        },
        None => 0,
    }
}

/// How many entries the listing `text` has.
pub fn count_entries(text: &str) -> (r: u32)
    ensures
        r == entries_in(text@),
{
    let t = trim(&to_chars(text));
    if t.len() == 0 || equals(&t, "null") {
        return 0;
    }
    let body = from_chars(&t);
    match parse_array(body.as_str()) {
        Some(values) => array_count(Some(values.len())),
        None => array_count(None),
    }
}

/// How many decisions are in force, from the listing `text`.
pub fn count_decisions(text: &str) -> (r: u32)
    ensures
        r == entries_in(text@),
{
    count_entries(text)
}

/// How many scenarios are loaded, from the listing `text`.
pub fn count_scenarios(text: &str) -> (r: u32)
    ensures
        r == entries_in(text@),
{
    count_entries(text)
}

/// The text in which to look for decisions: the trimmed output of listing
/// them, or `None` where the command failed or its trimmed output is blank.
pub fn decisions_text(output: &ShellOutput) -> (r: Option<String>)
    ensures
        match r {
            Some(text) => output.success && !is_blank(trimmed(output.stdout@)) && text@
                == trimmed(output.stdout@),
            None => !output.success || is_blank(trimmed(output.stdout@)),
        },
{
    if !output.success {
        return None;
    }
    let t = trim(&to_chars(output.stdout.as_str()));
    if t.len() == 0 || equals(&t, "null") {
        return None;
    }
    Some(from_chars(&t))
}

/// The decisions in force: those read from the listing, or none where
/// there was nothing to read or it could not be read.
pub fn list_decisions(parsed: Option<Vec<CrowdsecDecision>>) -> (r: Vec<CrowdsecDecision>)
    ensures
        r@ == (match parsed {
            Some(decisions) => decisions@,
            None => Seq::empty(),
        }),
{
    match parsed {
        Some(decisions) => decisions,
        None => Vec::new(),
    }
}

/// The state of the intrusion detection. `active` is the output of asking
/// whether it runs, `None` if that could not be asked; `decisions` and
/// `scenarios` are the counts, `None` where the listing could not be had.
/// One that does not run has both counts at zero.
pub fn get_status(active: Option<&ShellOutput>, decisions: Option<u32>, scenarios: Option<u32>) -> (r:
    CrowdsecStatus)
    ensures
        r.running == (active matches Some(output) && output.success),
        r.active_decisions == (match decisions {
            Some(n) if r.running => n,
            _ => 0,
        }),
        r.scenarios_loaded == (match scenarios {
            Some(n) if r.running => n,
            _ => 0,
        }),
{
    let running = succeeded(active);
    if !running {
        return CrowdsecStatus { running: false, active_decisions: 0, scenarios_loaded: 0 };
    }
    CrowdsecStatus {
        running,
        active_decisions: match decisions {
            Some(n) => n,
            None => 0,
        },
        scenarios_loaded: match scenarios {
            Some(n) => n,
            None => 0,
        },
    }
}

impl CrowdsecStatus {
    /// The state as a line of text.
    pub open spec fn rendered(&self) -> Seq<char> {
        if !self.running {
            "  CrowdSec: not running\n"@
        } else {
            "  CrowdSec: active ("@ + decimal(self.active_decisions as nat) + " decisions, "@
                + decimal(self.scenarios_loaded as nat) + " scenarios)\n"@
        }
    }

    /// The state as a line of text.
    pub fn render(&self) -> (r: String)
        ensures
            r@ == self.rendered(),
    {
        if !self.running {
            return String::from_str("  CrowdSec: not running\n");
        }
        let mut out = String::from_str("  CrowdSec: active (");
        push_decimal(&mut out, self.active_decisions as u64);
        out.append(" decisions, ");
        push_decimal(&mut out, self.scenarios_loaded as u64);
        out.append(" scenarios)\n");
        out
    }
}

impl CrowdsecDecision {
    /// The decision as two lines of text.
    pub open spec fn rendered(&self) -> Seq<char> {
        "  "@ + self.source_ip@ + " — "@ + self.reason@ + " ("@ + self.duration@ + ")\n"@
            + "     Action: "@ + self.action@ + " | Origin: "@ + self.origin@ + "\n"@
    }

    /// Appends the decision as text to `out`.
    pub fn render_into(&self, out: &mut String)
        ensures
            final(out)@ == old(out)@ + self.rendered(),
    {
        out.append("  ");
        out.append(self.source_ip.as_str());
        out.append(" — ");
        out.append(self.reason.as_str());
        out.append(" (");
        out.append(self.duration.as_str());
        out.append(")\n");
        out.append("     Action: ");
        out.append(self.action.as_str());
        out.append(" | Origin: ");
        out.append(self.origin.as_str());
        out.append("\n");
        assert(out@ =~= old(out)@ + self.rendered());
    }

    /// The decision as text.
    pub fn render(&self) -> (r: String)
        ensures
            r@ == self.rendered(),
    {
        let mut out = String::new();
        self.render_into(&mut out);
        assert(Seq::<char>::empty() + self.rendered() =~= self.rendered());
        out
    }
}

} // verus!
