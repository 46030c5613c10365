//! Port forwards and blocked addresses.

use vstd::prelude::*;
use crate::adapters::nftables::{ForwardModel, PortForward};
use crate::error::Error;
use crate::number::{decimal, parse_u16, parse_unsigned, push_decimal, IntError};
use crate::output::{TableOutput, TableRow};
use crate::text::{from_chars, lemma_pieces_nonempty, pieces, split, to_chars, views};

verus! {

/// What a comment is shown as: nothing where there is none.
pub open spec fn shown_comment(comment: Option<String>) -> Seq<char> {
    match comment {
        Some(text) => text@,
        None => Seq::empty(),
    }
}

impl TableRow for PortForward {
    /// External port, internal address and port, protocol, comment.
    open spec fn cells_of(&self) -> Seq<Seq<char>> {
        seq![
            decimal(self.external_port as nat),
            self.internal_ip@ + ":"@ + decimal(self.internal_port as nat),
            self.protocol@,
            shown_comment(self.comment),
        ]
    }

    fn cells(&self) -> (r: Vec<String>) {
        let mut external = String::new();
        push_decimal(&mut external, self.external_port as u64);
        assert(external@ =~= decimal(self.external_port as nat));
        let mut internal = self.internal_ip.clone();
        internal.append(":");
        push_decimal(&mut internal, self.internal_port as u64);
        let comment = match &self.comment {
            Some(text) => text.clone(),
            None => String::new(),
        };
        let mut out: Vec<String> = Vec::new();
        out.push(external);
        out.push(internal);
        out.push(self.protocol.clone());
        out.push(comment);
        assert(out.deep_view() =~= self.cells_of());
        out
    }
}

/// The headers of the table of port forwards.
pub open spec fn forward_headers() -> Seq<Seq<char>> {
    seq!["External"@, "Internal"@, "Proto"@, "Comment"@]
}

/// The table of the port forwards `forwards`.
pub fn list(forwards: Vec<PortForward>) -> (r: TableOutput<PortForward>)
    ensures
        r.headers.deep_view() == forward_headers(),
        r.rows@ == forwards@,
{
    let mut headers: Vec<String> = Vec::new();
    headers.push(String::from_str("External"));
    headers.push(String::from_str("Internal"));
    headers.push(String::from_str("Proto"));
    headers.push(String::from_str("Comment"));
    assert(headers.deep_view() =~= forward_headers());
    TableOutput { headers, rows: forwards }
}

/// What adding a port forward reports.
#[derive(Debug)]
pub struct ForwardResult {
    pub success: bool,
    pub external_port: u16,
    pub internal: String,
    pub protocol: String,
}

/// A port forward that is to be added, and what to report once it is.
#[derive(Debug)]
pub struct Forwarding {
    pub rule: PortForward,
    pub result: ForwardResult,
}

/// What removing a port forward reports.
#[derive(Debug)]
pub struct UnforwardResult {
    pub success: bool,
    pub external_port: u16,
}

/// What blocking an address reports.
#[derive(Debug)]
pub struct BlockResult {
    pub success: bool,
    pub target: String,
}

/// What unblocking an address reports.
#[derive(Debug)]
pub struct UnblockResult {
    pub success: bool,
    pub target: String,
}

/// Whether `internal` has the form of a target: two parts with one colon
/// between them.
pub open spec fn is_target(internal: Seq<char>) -> bool {
    pieces(internal, ':').len() == 2
}

/// What the second part of the target `internal` says as a port.
pub open spec fn target_port(internal: Seq<char>) -> Result<nat, IntError> {
    parse_unsigned(pieces(internal, ':')[1], 0xFFFF)
}

/// The address and port that the target `internal` names.
pub fn parse_target(internal: &str) -> (r: Result<(String, u16), Error>)
    ensures
        match r {
            Ok((ip, port)) => is_target(internal@) && ip@ == pieces(internal@, ':')[0]
                && target_port(internal@) == Ok::<nat, IntError>(port as nat),
            Err(Error::TargetFormat) => !is_target(internal@),
            Err(Error::Port { kind }) => is_target(internal@) && target_port(internal@)
                == Err::<nat, IntError>(kind),
            Err(_) => false,
        },
{
    let parts = split(&to_chars(internal), ':');
    if parts.len() != 2 {
        return Err(Error::TargetFormat);
    }
    assert(views(parts@)[0] == parts@[0]@);
    assert(views(parts@)[1] == parts@[1]@);
    match parse_u16(&parts[1]) {
        Ok(port) => Ok((from_chars(&parts[0]), port)),
        Err(kind) => Err(Error::Port { kind }),
    }
}

/// The question asked before a port forward is added.
pub fn forward_prompt(external_port: u16, internal_ip: &str, internal_port: u16, proto: &str) -> (r:
    String)
    ensures
        r@ == "Forward port "@ + decimal(external_port as nat) + " -> "@ + internal_ip@ + ":"@
            + decimal(internal_port as nat) + " ("@ + proto@ + ")?"@,
{
    let mut out = String::from_str("Forward port ");
    push_decimal(&mut out, external_port as u64);
    out.append(" -> ");
    out.append(internal_ip);
    out.append(":");
    push_decimal(&mut out, internal_port as u64);
    out.append(" (");
    out.append(proto);
    out.append(")?");
    out
}

/// The port forward from `external_port` to the target `internal`, and
/// what to report once it is in force. A target that is not of the form
/// `ip:port` is refused, then one whose port is no port number, then a
/// forward that was not confirmed.
pub fn forward(external_port: u16, internal: &str, proto: &str, confirmed: bool) -> (r: Result<
    Forwarding,
    Error,
>)
    ensures
        match r {
            Ok(f) => is_target(internal@) && target_port(internal@) == Ok::<nat, IntError>(
                f.rule.internal_port as nat,
            ) && confirmed && f.rule.deep_view() == (ForwardModel {
                external_port,
                internal_ip: pieces(internal@, ':')[0],
                internal_port: f.rule.internal_port,
                protocol: proto@,
                comment: None,
            }) && f.result.success && f.result.external_port == external_port
                && f.result.internal@ == internal@ && f.result.protocol@ == proto@,
            Err(Error::TargetFormat) => !is_target(internal@),
            Err(Error::Port { kind }) => is_target(internal@) && target_port(internal@)
                == Err::<nat, IntError>(kind),
            Err(Error::Cancelled) => is_target(internal@) && target_port(internal@) is Ok
                && !confirmed,
            Err(_) => false,
        },
{
    let (internal_ip, internal_port) = match parse_target(internal) {
        Ok(target) => target,
        Err(e) => {
            return Err(e);
        },
    };
    if !confirmed {
        return Err(Error::Cancelled);
    }
    let rule = PortForward {
        external_port,
        internal_ip,
        internal_port,
        protocol: String::from_str(proto),
        comment: None,
    };
    let result = ForwardResult {
        success: true,
        external_port,
        internal: String::from_str(internal),
        protocol: String::from_str(proto),
    };
    Ok(Forwarding { rule, result })
}

/// The question asked before a port forward is removed.
pub fn unforward_prompt(external_port: u16) -> (r: String)
    ensures
        r@ == "Remove forward for port "@ + decimal(external_port as nat) + "?"@,
{
    let mut out = String::from_str("Remove forward for port ");
    push_decimal(&mut out, external_port as u64);
    out.append("?");
    out
}

/// What to report once the forward of `external_port` is removed; a
/// removal that was not confirmed is refused.
pub fn unforward(external_port: u16, confirmed: bool) -> (r: Result<UnforwardResult, Error>)
    ensures
        match r {
            Ok(result) => confirmed && result.success && result.external_port == external_port,
            Err(Error::Cancelled) => !confirmed,
            Err(_) => false,
        },
{
    if !confirmed {
        return Err(Error::Cancelled);
    }
    Ok(UnforwardResult { success: true, external_port })
}

/// The question asked before `target` is blocked.
pub fn block_prompt(target: &str) -> (r: String)
    ensures
        r@ == "Block "@ + target@ + "?"@,
{
    let mut out = String::from_str("Block ");
    out.append(target);
    out.append("?");
    out
}

/// What to report once `target` is blocked; a block that was not confirmed
/// is refused.
pub fn block(target: &str, confirmed: bool) -> (r: Result<BlockResult, Error>)
    ensures
        match r {
            Ok(result) => confirmed && result.success && result.target@ == target@,
            Err(Error::Cancelled) => !confirmed,
            Err(_) => false,
        },
{
    if !confirmed {
        return Err(Error::Cancelled);
    }
    Ok(BlockResult { success: true, target: String::from_str(target) })
}

/// The question asked before `target` is unblocked.
pub fn unblock_prompt(target: &str) -> (r: String)
    ensures
        r@ == "Unblock "@ + target@ + "?"@,
{
    let mut out = String::from_str("Unblock ");
    out.append(target);
    out.append("?");
    out
}

/// What to report once `target` is unblocked; an unblocking that was not
/// confirmed is refused.
pub fn unblock(target: &str, confirmed: bool) -> (r: Result<UnblockResult, Error>)
    ensures
        match r {
            Ok(result) => confirmed && result.success && result.target@ == target@,
            Err(Error::Cancelled) => !confirmed,
            Err(_) => false,
        },
{
    if !confirmed {
        return Err(Error::Cancelled);
    }
    Ok(UnblockResult { success: true, target: String::from_str(target) })
}

impl ForwardResult {
    /// The report as text.
    pub open spec fn rendered(&self) -> Seq<char> {
        "Added port forward: "@ + decimal(self.external_port as nat) + " -> "@ + self.internal@
            + " ("@ + self.protocol@ + ")"@
    }

    /// The report as text.
    pub fn render(&self) -> (r: String)
        ensures
            r@ == self.rendered(),
    {
        let mut out = String::from_str("Added port forward: ");
        push_decimal(&mut out, self.external_port as u64);
        out.append(" -> ");
        out.append(self.internal.as_str());
        out.append(" (");
        out.append(self.protocol.as_str());
        out.append(")");
        out
    }
}

impl UnforwardResult {
    /// The report as text.
    pub open spec fn rendered(&self) -> Seq<char> {
        "Removed forward for port "@ + decimal(self.external_port as nat)
    }

    /// The report as text.
    pub fn render(&self) -> (r: String)
        ensures
            r@ == self.rendered(),
    {
        let mut out = String::from_str("Removed forward for port ");
        push_decimal(&mut out, self.external_port as u64);
        out
    }
}

impl BlockResult {
    /// The report as text.
    pub open spec fn rendered(&self) -> Seq<char> {
        "Blocked "@ + self.target@
    }

    /// The report as text.
    pub fn render(&self) -> (r: String)
        ensures
            r@ == self.rendered(),
    {
        let mut out = String::from_str("Blocked ");
        out.append(self.target.as_str());
        out
    }
}

impl UnblockResult {
    /// The report as text.
    pub open spec fn rendered(&self) -> Seq<char> {
        "Unblocked "@ + self.target@
    }

    /// The report as text.
    pub fn render(&self) -> (r: String)
        ensures
            r@ == self.rendered(),
    {
        let mut out = String::from_str("Unblocked ");
        out.append(self.target.as_str());
        out
    }
}

} // verus!
