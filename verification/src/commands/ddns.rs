//! The dynamic name of the router: what a script that runs on a timer last
//! did about it, and how to run that script now.

use vstd::prelude::*;
use crate::location::Invocation;
use crate::text::{
    from_chars, index_of, lemma_pieces_nonempty, other_than, pieces, replace, replaced, run_len,
    same, split, split_whitespace, to_chars, trim, trimmed, views, words,
};

verus! {

/// What the script last wrote down.
#[derive(Debug)]
pub struct DdnsState {
    pub ip: String,
    pub status: String,
    pub message: String,
    pub timestamp: String,
    pub fqdn: String,
    pub interface: String,
    pub ttl: u32,
}

/// The state of the dynamic name.
#[derive(Debug)]
pub struct DdnsStatus {
    pub wan_ip: String,
    pub dns_record: String,
    pub fqdn: String,
    pub status: String,
    pub last_check: String,
    pub message: String,
    pub timer_active: bool,
    pub ip_match: bool,
}

/// Whether the character `c` stands in `s`.
pub open spec fn holds(s: Seq<char>, c: char) -> bool {
    run_len(s, other_than(c)) < s.len()
}

/// The address in the words `ws` from index `n` on: the first word that
/// holds a slash and a dot, up to its first slash.
pub open spec fn address_in(ws: Seq<Seq<char>>, n: int) -> Option<Seq<char>>
    decreases ws.len() - n,
{
    if n < 0 || n >= ws.len() {
        None
    } else if holds(ws[n], '/') && holds(ws[n], '.') {
        Some(pieces(ws[n], '/')[0])
    } else {
        address_in(ws, n + 1)
    }
}

/// The program that lists the addresses of the outward interface, with its
/// arguments.
pub fn wan_ip_invocation() -> (r: Invocation)
    ensures
        r.program@ == "ip"@,
        r.args.deep_view() == seq!["-4"@, "-o"@, "addr"@, "show"@, "enxc84d4421f975"@],
{
    let mut args: Vec<String> = Vec::new();
    args.push(String::from_str("-4"));
    args.push(String::from_str("-o"));
    args.push(String::from_str("addr"));
    args.push(String::from_str("show"));
    args.push(String::from_str("enxc84d4421f975"));
    assert(args.deep_view() =~= seq!["-4"@, "-o"@, "addr"@, "show"@, "enxc84d4421f975"@]);
    Invocation { program: String::from_str("ip"), args }
}

/// The outward address, from what listing the interface's addresses
/// printed.
pub fn get_wan_ip(stdout: &str) -> (r: Option<String>)
    ensures
        r.deep_view() == address_in(words(stdout@), 0),
{
    let parts = split_whitespace(&to_chars(stdout));
    let mut i: usize = 0;
    while i < parts.len()
        invariant
            i <= parts.len(),
            views(parts@) == words(stdout@),
            address_in(words(stdout@), i as int) == address_in(words(stdout@), 0),
        decreases parts.len() - i,
    {
        assert(views(parts@)[i as int] == parts@[i as int]@);
        if index_of(&parts[i], '/').is_some() && index_of(&parts[i], '.').is_some() {
            let cut = split(&parts[i], '/');
            proof {
                lemma_pieces_nonempty(parts@[i as int]@, '/');
                assert(views(cut@)[0] == cut@[0]@);
            }
            return Some(from_chars(&cut[0]));
        }
        i += 1;
    }
    None
}

/// The program that asks whether the timer runs, with its arguments.
pub fn timer_invocation() -> (r: Invocation)
    ensures
        r.program@ == "systemctl"@,
        r.args.deep_view() == seq!["is-active"@, "--quiet"@, "shannon-ddns.timer"@],
{
    let mut args: Vec<String> = Vec::new();
    args.push(String::from_str("is-active"));
    args.push(String::from_str("--quiet"));
    args.push(String::from_str("shannon-ddns.timer"));
    assert(args.deep_view() =~= seq!["is-active"@, "--quiet"@, "shannon-ddns.timer"@]);
    Invocation { program: String::from_str("systemctl"), args }
}

/// The file in which the script writes down what it did.
pub fn state_file() -> (r: String)
    ensures
        r@ == "/var/cache/shannon-ddns-state.json"@,
{
    String::from_str("/var/cache/shannon-ddns-state.json")
}

/// The state of the dynamic name. `wan_ip` is the outward address, `None`
/// where it was not found, which shows as `unknown`. `state` is what the
/// script wrote down, `None` where that could not be read. The addresses
/// match if the outward address is the one that the name was last set to.
pub fn status(wan_ip: Option<String>, state: Option<DdnsState>, timer_active: bool) -> (r:
    DdnsStatus)
    ensures
        r.wan_ip@ == (match wan_ip {
            Some(ip) => ip@,
            None => "unknown"@,
        }),
        r.dns_record@ == (match state {
            Some(s) => s.ip@,
            None => "never updated"@,
        }),
        r.fqdn@ == (match state {
            Some(s) => s.fqdn@,
            None => "shannon.fredrikbranstrom.se"@,
        }),
        r.status@ == (match state {
            Some(s) => s.status@,
            None => "unknown"@,
        }),
        r.last_check@ == (match state {
            Some(s) => s.timestamp@,
            None => "never"@,
        }),
        r.message@ == (match state {
            Some(s) => s.message@,
            None => Seq::empty(),
        }),
        r.timer_active == timer_active,
        r.ip_match == (r.wan_ip@ == r.dns_record@),
{
    let wan = match wan_ip {
        Some(ip) => ip,
        None => String::from_str("unknown"),
    };
    let (dns_record, fqdn, status_text, last_check, message) = match state {
        Some(s) => (s.ip, s.fqdn, s.status, s.timestamp, s.message),
        None => (
            String::from_str("never updated"),
            String::from_str("shannon.fredrikbranstrom.se"),
            String::from_str("unknown"),
            String::from_str("never"),
            String::new(),
        ),
    };
    let ip_match = wan == dns_record;
    DdnsStatus {
        wan_ip: wan,
        dns_record,
        fqdn,
        status: status_text,
        last_check,
        message,
        timer_active,
        ip_match,
    }
}

/// The script with its arguments: `--force` where an update is forced.
pub fn update(force: bool) -> (r: Invocation)
    ensures
        r.program@ == "/usr/local/bin/shannon-ddns"@,
        r.args.deep_view() == if force {
            seq!["--force"@]
        } else {
            Seq::<Seq<char>>::empty()
        },
{
    let mut args: Vec<String> = Vec::new();
    if force {
        args.push(String::from_str("--force"));
        assert(args.deep_view() =~= seq!["--force"@]);
    } else {
        assert(args.deep_view() =~= Seq::<Seq<char>>::empty());
    }
    Invocation { program: String::from_str("/usr/local/bin/shannon-ddns"), args }
}

/// The JSON object that reports a failed update: what the script wrote to
/// standard error, trimmed, with a backslash before each double quote.
pub fn update_failure(stderr: &str) -> (r: String)
    ensures
        r@ == "{\"error\": \""@ + replaced(trimmed(stderr@), '"', "\\\""@) + "\"}"@,
{
    let reason = from_chars(&trim(&to_chars(stderr)));
    let mut out = String::from_str("{\"error\": \"");
    out.append(replace(reason.as_str(), '"', "\\\"").as_str());
    out.append("\"}");
    out
}

impl DdnsStatus {
    /// The state as text. The message is left out where it is empty or
    /// says `No change`; the warning stands where the addresses differ and
    /// the name was set before.
    pub open spec fn rendered(&self) -> Seq<char> {
        "Dynamic DNS: "@ + self.fqdn@ + "\n"@ + "  WAN IP:      "@ + self.wan_ip@ + "\n"@
            + "  DNS record:  "@ + self.dns_record@ + "\n"@ + "  Status:      "@ + self.status@
            + "\n"@ + "  Last check:  "@ + self.last_check@ + "\n"@ + "  Timer:       "@
            + (if self.timer_active {
            "active"@
        } else {
            "inactive"@
        }) + "\n"@ + (if self.message@.len() > 0 && self.message@ != "No change"@ {
            "  Message:     "@ + self.message@ + "\n"@
        } else {
            Seq::empty()
        }) + (if !self.ip_match && self.dns_record@ != "never updated"@ {
            "  WARNING:     IP mismatch â€” DNS needs update\n"@
        } else {
            Seq::empty()
        })
    }

    /// The state as text.
    pub fn render(&self) -> (r: String)
        ensures
            r@ == self.rendered(),
    {
        let mut out = String::from_str("Dynamic DNS: ");
        out.append(self.fqdn.as_str());
        out.append("\n");
        out.append("  WAN IP:      ");
        out.append(self.wan_ip.as_str());
        out.append("\n");
        out.append("  DNS record:  ");
        out.append(self.dns_record.as_str());
        out.append("\n");
        out.append("  Status:      ");
        out.append(self.status.as_str());
        out.append("\n");
        out.append("  Last check:  ");
        out.append(self.last_check.as_str());
        out.append("\n");
        out.append("  Timer:       ");
        if self.timer_active {
            out.append("active");
        } else {
            out.append("inactive");
        }
        out.append("\n");
        if !self.message.as_str().is_empty() && !same(self.message.as_str(), "No change") {
            out.append("  Message:     ");
            out.append(self.message.as_str());
            out.append("\n");
        }
        if !self.ip_match && !same(self.dns_record.as_str(), "never updated") {
            out.append("  WARNING:     IP mismatch â€” DNS needs update\n");
        }
        assert(out@ =~= self.rendered());
        out
    }
}

} // verus!
