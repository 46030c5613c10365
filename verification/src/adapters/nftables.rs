//! The packet filter: port forwards and blocked addresses, as `iptables`
//! lists and changes them.

use vstd::prelude::*;
use crate::number::{decimal, number_of, parse_port, parse_u32, port_of, push_decimal};
use crate::text::{
    from_chars, equals, lemma_pieces_nonempty, lines, lines_of, pieces, split, split_whitespace,
    to_chars, trim_matches, views, without_surrounding, words,
};

verus! {

/// A port of the router that is handed on to a machine behind it.
#[derive(Debug, Clone)]
pub struct PortForward {
    pub external_port: u16,
    pub internal_ip: String,
    pub internal_port: u16,
    pub protocol: String,
    pub comment: Option<String>,
}

/// A port forward, with its texts as sequences of characters.
pub struct ForwardModel {
    pub external_port: u16,
    pub internal_ip: Seq<char>,
    pub internal_port: u16,
    pub protocol: Seq<char>,
    pub comment: Option<Seq<char>>,
}

impl DeepView for PortForward {
    type V = ForwardModel;

    open spec fn deep_view(&self) -> ForwardModel {
        ForwardModel {
            external_port: self.external_port,
            internal_ip: self.internal_ip@,
            internal_port: self.internal_port,
            protocol: self.protocol@,
            comment: self.comment.deep_view(),
        }
    }
}

/// What has been read of a rule so far.
pub struct RuleModel {
    pub protocol: Seq<char>,
    pub external_port: Option<u16>,
    pub internal_ip: Seq<char>,
    pub internal_port: u16,
    pub comment: Option<Seq<char>>,
}

/// Nothing read yet: the protocol is `tcp` unless the rule says otherwise.
pub open spec fn rule_start() -> RuleModel {
    RuleModel {
        protocol: "tcp"@,
        external_port: None,
        internal_ip: Seq::empty(),
        internal_port: 0,
        comment: None,
    }
}

/// The state `st` after the option `key` with the word `value` behind it.
/// `-p` gives the protocol and `--dport` the external port, or none if the
/// word is no port number. `--to-destination` gives the address, which is
/// the word up to its first colon, and the internal port, which is what
/// stands between the first colon and the second, or zero if that is no
/// port number. `--comment` gives the comment, without the double quotes
/// around it. Any other word says nothing.
pub open spec fn rule_step(st: RuleModel, key: Seq<char>, value: Seq<char>) -> RuleModel {
    if key == "-p"@ {
        RuleModel { protocol: value, ..st }
    } else if key == "--dport"@ {
        RuleModel { external_port: port_of(value), ..st }
    } else if key == "--to-destination"@ {
        let parts = pieces(value, ':');
        RuleModel {
            internal_ip: parts[0],
            internal_port: if parts.len() > 1 {
                match port_of(parts[1]) {
                    Some(p) => p,
                    None => 0,
                }
            } else {
                0
            },
            ..st
        }
    } else if key == "--comment"@ {
        RuleModel { comment: Some(without_surrounding(value, '"')), ..st }
    } else {
        st
    }
}

/// The state after the first `n` words of `ws` have been looked at as
/// options, each with the word behind it. The last word has none behind it
/// and says nothing.
pub open spec fn rule_scan(ws: Seq<Seq<char>>, n: int) -> RuleModel
    decreases n,
{
    if n <= 0 {
        rule_start()
    } else if n < ws.len() {
        rule_step(rule_scan(ws, n - 1), ws[n - 1], ws[n])
    } else {
        rule_scan(ws, n - 1)
    }
}

/// The forward that a finished state describes: none without an external
/// port. An internal port of zero stands for the external port.
pub open spec fn forward_of(st: RuleModel) -> Option<ForwardModel> {
    match st.external_port {
        Some(ext) => Some(
            ForwardModel {
                external_port: ext,
                internal_ip: st.internal_ip,
                internal_port: if st.internal_port > 0 {
                    st.internal_port
                } else {
                    ext
                },
                protocol: st.protocol,
                comment: st.comment,
            },
        ),
        None => None,
    }
}

/// The forward that the rule `line` describes, if it names an external port.
pub open spec fn dnat_rule(line: Seq<char>) -> Option<ForwardModel> {
    forward_of(rule_scan(words(line), words(line).len() as int))
}

/// The forwards that the rules in `rules` describe, one rule to a line.
pub open spec fn port_forwards(rules: Seq<char>) -> Seq<ForwardModel> {
    lines_of(rules).filter_map(|line: Seq<char>| dnat_rule(line))
}

/// A chain of rules that holds one half of a port forward.
#[derive(Debug, Clone, Copy, PartialEq, Eq, Structural)]
pub enum Chain {
    /// `PREROUTING` in the table `nat`: where the destination is rewritten.
    Prerouting,
    /// `FORWARD`: where the rewritten traffic is let through.
    Forward,
}

/// The command that deletes rule number `num` from `chain`.
pub open spec fn deletion(chain: Chain, num: u32) -> Seq<char> {
    match chain {
        Chain::Prerouting => "iptables -t nat -D PREROUTING "@ + decimal(num as nat),
        Chain::Forward => "iptables -D FORWARD "@ + decimal(num as nat),
    }
}

/// The command that deletes the rule listed in `line`: its first word is
/// the rule's number. A line without words, or with a first word that is no
/// number, lists no rule.
pub open spec fn deletion_for(chain: Chain, line: Seq<char>) -> Option<Seq<char>> {
    if words(line).len() > 0 {
        match number_of(words(line)[0]) {
            Some(num) => Some(deletion(chain, num)),
            None => None,
        }
    } else {
        None
    }
}

/// The commands that delete the rules listed in `ls`, the last line's rule
/// first, so that no deletion changes the number of a rule still to go.
pub open spec fn deletions(chain: Chain, ls: Seq<Seq<char>>) -> Seq<Seq<char>>
    decreases ls.len(),
{
    if ls.len() == 0 {
        Seq::empty()
    } else {
        deletions(chain, ls.drop_first()) + match deletion_for(chain, ls[0]) {
            Some(cmd) => seq![cmd],
            None => Seq::empty(),
        }
    }
}

/// The command that adds the rewriting half of `rule`.
pub open spec fn dnat_command(rule: &PortForward) -> Seq<char> {
    "iptables -t nat -A PREROUTING -p "@ + rule.protocol@ + " --dport "@ + decimal(
        rule.external_port as nat,
    ) + " -j DNAT --to-destination "@ + rule.internal_ip@ + ":"@ + decimal(
        rule.internal_port as nat,
    )
}

/// The command that adds the letting-through half of `rule`.
pub open spec fn accept_command(rule: &PortForward) -> Seq<char> {
    "iptables -A FORWARD -p "@ + rule.protocol@ + " -d "@ + rule.internal_ip@ + " --dport "@
        + decimal(rule.internal_port as nat) + " -j ACCEPT"@
}

/// The command that lists the rules of `chain` for `external_port`.
pub open spec fn listing(chain: Chain, external_port: u16) -> Seq<char> {
    match chain {
        Chain::Prerouting => "iptables -t nat -L PREROUTING --line-numbers -n | grep 'dpt:"@
            + decimal(external_port as nat) + "'"@,
        Chain::Forward => "iptables -L FORWARD --line-numbers -n | grep 'dpt:"@ + decimal(
            external_port as nat,
        ) + "'"@,
    }
}

/// The command that drops what comes from `target`.
pub open spec fn block_command(target: Seq<char>) -> Seq<char> {
    "iptables -I INPUT -s "@ + target + " -j DROP && iptables -I FORWARD -s "@ + target
        + " -j DROP"@
}

/// The command that no longer drops what comes from `target`.
pub open spec fn unblock_command(target: Seq<char>) -> Seq<char> {
    "iptables -D INPUT -s "@ + target + " -j DROP 2>/dev/null; iptables -D FORWARD -s "@ + target
        + " -j DROP 2>/dev/null"@
}

/// The command that writes the rules in force to the file from which they
/// are restored.
pub open spec fn persist_command() -> Seq<char> {
    "iptables-save > /etc/iptables/rules.v4"@
}

/// The packet filter of the router.
#[derive(Debug, Clone, Copy)]
pub struct NftablesAdapter;

impl NftablesAdapter {
    /// The packet filter.
    pub fn new() -> Self {
        NftablesAdapter
    }

    /// The command that prints the rewriting rules in force.
    pub fn list_command(&self) -> (r: String)
        ensures
            r@ == "iptables-save 2>/dev/null | grep DNAT"@,
    {
        String::from_str("iptables-save 2>/dev/null | grep DNAT")
    }

    /// The port forwards in force, from the output `rules` of the listing
    /// command.
    pub fn list_port_forwards(&self, rules: &str) -> (r: Vec<PortForward>)
        ensures
            r.deep_view() == port_forwards(rules@),
    {
        let chars = to_chars(rules);
        let ls = lines(&chars);
        let mut out: Vec<PortForward> = Vec::new();
        let ghost f = |line: Seq<char>| dnat_rule(line);
        let mut i: usize = 0;
        assert(views(ls@).take(0) =~= Seq::<Seq<char>>::empty());
        assert(out.deep_view() =~= Seq::<ForwardModel>::empty());
        while i < ls.len()
            invariant
                i <= ls.len(),
                f == |line: Seq<char>| dnat_rule(line),
                out.deep_view() == views(ls@).take(i as int).filter_map(f),
            decreases ls.len() - i,
        {
            proof {
                views(ls@).lemma_filter_map_take_succ(f, i as int);
            }
            let ghost before = out.deep_view();
            match self.parse_rule(&ls[i]) {
                Some(forward) => {
                    out.push(forward);
                    assert(out.deep_view() =~= before + seq![forward.deep_view()]);
                },
                None => {
                    assert(before + Seq::<ForwardModel>::empty() =~= before);
                },
            }
            i += 1;
        }
        assert(views(ls@).take(i as int) =~= views(ls@));
        out
    }

    /// The port forward that the rule `line` describes.
    pub fn parse_dnat_rule(&self, line: &str) -> (r: Option<PortForward>)
        ensures
            r.deep_view() == dnat_rule(line@),
    {
        let chars = to_chars(line);
        self.parse_rule(&chars)
    }

    /// The port forward that the rule `line` describes.
    pub fn parse_rule(&self, line: &Vec<char>) -> (r: Option<PortForward>)
        ensures
            r.deep_view() == dnat_rule(line@),
    {
        let parts = split_whitespace(line);
        let mut protocol = String::from_str("tcp");
        let mut external_port: Option<u16> = None;
        let mut internal_ip = String::new();
        let mut internal_port: u16 = 0;
        let mut comment: Option<String> = None;
        let mut i: usize = 0;
        while i < parts.len()
            invariant
                i <= parts.len(),
                views(parts@) == words(line@),
                rule_scan(words(line@), i as int) == (RuleModel {
                    protocol: protocol@,
                    external_port,
                    internal_ip: internal_ip@,
                    internal_port,
                    comment: comment.deep_view(),
                }),
            decreases parts.len() - i,
        {
            if i + 1 < parts.len() {
                let key = &parts[i];
                let value = &parts[i + 1];
                assert(views(parts@)[i as int] == key@);
                assert(views(parts@)[i + 1] == value@);
                if equals(key, "-p") {
                    protocol = from_chars(value);
                } else if equals(key, "--dport") {
                    external_port = parse_port(value);
                } else if equals(key, "--to-destination") {
                    let dest = split(value, ':');
                    proof {
                        lemma_pieces_nonempty(value@, ':');
                        assert(views(dest@)[0] == dest@[0]@);
                    }
                    internal_ip = from_chars(&dest[0]);
                    internal_port = if dest.len() > 1 {
                        assert(views(dest@)[1] == dest@[1]@);
                        match parse_port(&dest[1]) {
                            Some(p) => p,
                            None => 0,
                        }
                    } else {
                        0
                    };
                } else if equals(key, "--comment") {
                    comment = Some(from_chars(&trim_matches(value, '"')));
                }
            }
            i += 1;
        }
        match external_port {
            Some(ext) => Some(
                PortForward {
                    external_port: ext,
                    internal_ip,
                    internal_port: if internal_port > 0 {
                        internal_port
                    } else {
                        ext
                    },
                    protocol,
                    comment,
                },
            ),
            None => None,
        }
    }

    /// The commands that put `rule` in force, in the order in which they
    /// run: rewrite the destination, let the traffic through, persist.
    pub fn add_port_forward(&self, rule: &PortForward) -> (r: Vec<String>)
        ensures
            r.deep_view() == seq![dnat_command(rule), accept_command(rule), persist_command()],
    {
        let mut dnat = String::from_str("iptables -t nat -A PREROUTING -p ");
        dnat.append(rule.protocol.as_str());
        dnat.append(" --dport ");
        push_decimal(&mut dnat, rule.external_port as u64);
        dnat.append(" -j DNAT --to-destination ");
        dnat.append(rule.internal_ip.as_str());
        dnat.append(":");
        push_decimal(&mut dnat, rule.internal_port as u64);
        let mut accept = String::from_str("iptables -A FORWARD -p ");
        accept.append(rule.protocol.as_str());
        accept.append(" -d ");
        accept.append(rule.internal_ip.as_str());
        accept.append(" --dport ");
        push_decimal(&mut accept, rule.internal_port as u64);
        accept.append(" -j ACCEPT");
        let mut out: Vec<String> = Vec::new();
        out.push(dnat);
        out.push(accept);
        out.push(self.persist());
        assert(out.deep_view() =~= seq![
            dnat_command(rule),
            accept_command(rule),
            persist_command(),
        ]);
        out
    }

    /// The command that lists the rules of `chain` for `external_port`,
    /// each with its number.
    pub fn listing_command(&self, chain: Chain, external_port: u16) -> (r: String)
        ensures
            r@ == listing(chain, external_port),
    {
        let mut out = match chain {
            Chain::Prerouting => String::from_str(
                "iptables -t nat -L PREROUTING --line-numbers -n | grep 'dpt:",
            ),
            Chain::Forward => String::from_str(
                "iptables -L FORWARD --line-numbers -n | grep 'dpt:",
            ),
        };
        push_decimal(&mut out, external_port as u64);
        out.append("'");
        out
    }

    /// The commands that delete from `chain` the rules that `listing`
    /// lists, in the order in which they run.
    pub fn remove_port_forward(&self, chain: Chain, listing: &str) -> (r: Vec<String>)
        ensures
            r.deep_view() == deletions(chain, lines_of(listing@)),
    {
        let chars = to_chars(listing);
        let ls = lines(&chars);
        let mut out: Vec<String> = Vec::new();
        let mut i: usize = ls.len();
        assert(views(ls@).skip(i as int) =~= Seq::<Seq<char>>::empty());
        assert(out.deep_view() =~= Seq::<Seq<char>>::empty());
        while i > 0
            invariant
                i <= ls.len(),
                out.deep_view() == deletions(chain, views(ls@).skip(i as int)),
            decreases i,
        {
            i -= 1;
            assert(views(ls@).skip(i as int).drop_first() =~= views(ls@).skip(i + 1));
            assert(views(ls@).skip(i as int)[0] == ls@[i as int]@);
            let ghost before = out.deep_view();
            let parts = split_whitespace(&ls[i]);
            if parts.len() > 0 {
                assert(views(parts@)[0] == parts@[0]@);
                match parse_u32(&parts[0]) {
                    Ok(num) => {
                        let mut cmd = match chain {
                            Chain::Prerouting => String::from_str("iptables -t nat -D PREROUTING "),
                            Chain::Forward => String::from_str("iptables -D FORWARD "),
                        };
                        push_decimal(&mut cmd, num as u64);
                        out.push(cmd);
                        assert(out.deep_view() =~= before + seq![deletion(chain, num)]);
                    },
                    Err(_) => {
                        assert(before + Seq::<Seq<char>>::empty() =~= before);
                    },
                }
            } else {
                assert(before + Seq::<Seq<char>>::empty() =~= before);
            }
        }
        assert(views(ls@).skip(0) =~= views(ls@));
        out
    }

    /// The commands that block `target`, in the order in which they run.
    pub fn block_ip(&self, target: &str) -> (r: Vec<String>)
        ensures
            r.deep_view() == seq![block_command(target@), persist_command()],
    {
        let mut cmd = String::from_str("iptables -I INPUT -s ");
        cmd.append(target);
        cmd.append(" -j DROP && iptables -I FORWARD -s ");
        cmd.append(target);
        cmd.append(" -j DROP");
        let mut out: Vec<String> = Vec::new();
        out.push(cmd);
        out.push(self.persist());
        assert(out.deep_view() =~= seq![block_command(target@), persist_command()]);
        out
    }

    /// The commands that unblock `target`, in the order in which they run.
    pub fn unblock_ip(&self, target: &str) -> (r: Vec<String>)
        ensures
            r.deep_view() == seq![unblock_command(target@), persist_command()],
    {
        let mut cmd = String::from_str("iptables -D INPUT -s ");
        cmd.append(target);
        cmd.append(" -j DROP 2>/dev/null; iptables -D FORWARD -s ");
        cmd.append(target);
        cmd.append(" -j DROP 2>/dev/null");
        let mut out: Vec<String> = Vec::new();
        out.push(cmd);
        out.push(self.persist());
        assert(out.deep_view() =~= seq![unblock_command(target@), persist_command()]);
        out
    }

    /// The command that persists the rules in force.
    pub fn persist(&self) -> (r: String)
        ensures
            r@ == persist_command(),
    {
        String::from_str("iptables-save > /etc/iptables/rules.v4")
    }
}

} // verus!
