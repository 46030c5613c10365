//! The name and address server: the address records and reservations in its
//! configuration text, and the leases it has handed out.

use vstd::prelude::*;
use crate::error::Error;
use crate::location::ShellOutput;
use crate::text::{
    contains, from_chars, includes, has_prefix, occurs_at, equals, joined, join, lines, lines_of, pieces, split,
    split_whitespace, starts_with, to_chars, trim, trim_end, trim_start_matches, trimmed,
    trimmed_end, views, without_prefixes, words,
};

verus! {

/// The server's own configuration file.
pub const DNSMASQ_CONF: &'static str = "/etc/dnsmasq.conf";

/// The configuration file that this program edits.
pub const DNSMASQ_CUSTOM: &'static str = "/etc/dnsmasq.d/custom.conf";

/// The file in which the server keeps its leases.
pub const DNSMASQ_LEASES: &'static str = "/var/lib/misc/dnsmasq.leases";

/// The system's table of host names.
pub const HOSTS: &'static str = "/etc/hosts";

/// A name and the address it resolves to.
#[derive(Debug, Clone)]
pub struct DnsRecord {
    pub hostname: String,
    /// The address as text.
    pub ip: String,
    /// Where the record stands: `main`, `custom` or `hosts`.
    pub source: String,
}

/// An address handed out to a machine, or reserved for it.
#[derive(Debug, Clone)]
pub struct DhcpLease {
    pub mac: String,
    pub ip: String,
    pub hostname: String,
    pub expires: String,
    pub is_static: bool,
}

/// An address record, with its texts as sequences of characters.
pub struct RecordModel {
    pub hostname: Seq<char>,
    pub ip: Seq<char>,
    pub source: Seq<char>,
}

/// A lease, with its texts as sequences of characters.
pub struct LeaseModel {
    pub mac: Seq<char>,
    pub ip: Seq<char>,
    pub hostname: Seq<char>,
    pub expires: Seq<char>,
    pub is_static: bool,
}

impl DeepView for DnsRecord {
    type V = RecordModel;

    open spec fn deep_view(&self) -> RecordModel {
        RecordModel { hostname: self.hostname@, ip: self.ip@, source: self.source@ }
    }
}

impl DeepView for DhcpLease {
    type V = LeaseModel;

    open spec fn deep_view(&self) -> LeaseModel {
        LeaseModel {
            mac: self.mac@,
            ip: self.ip@,
            hostname: self.hostname@,
            expires: self.expires@,
            is_static: self.is_static,
        }
    }
}

/// The record that the configuration line `raw` holds: the trimmed line
/// begins with `address=/`, and what follows has at least two parts between
/// slashes, the name and the address.
pub open spec fn dns_entry(raw: Seq<char>, source: Seq<char>) -> Option<RecordModel> {
    let line = trimmed(raw);
    let parts = pieces(without_prefixes(line, "address=/"@), '/');
    if has_prefix(line, "address=/"@) && parts.len() >= 2 {
        Some(RecordModel { hostname: parts[0], ip: parts[1], source })
    } else {
        None
    }
}

/// The records that the configuration text `content` holds.
pub open spec fn dns_entries(content: Seq<char>, source: Seq<char>) -> Seq<RecordModel> {
    lines_of(content).filter_map(|raw: Seq<char>| dns_entry(raw, source))
}

/// The records for the names `names` from index `n` on, all at the address
/// `ip`; `localhost` is left out.
pub open spec fn host_names(ip: Seq<char>, names: Seq<Seq<char>>, n: int) -> Seq<RecordModel>
    decreases names.len() - n,
{
    if n < 0 || n >= names.len() {
        Seq::empty()
    } else if names[n] == "localhost"@ {
        host_names(ip, names, n + 1)
    } else {
        seq![RecordModel { hostname: names[n], ip, source: "hosts"@ }] + host_names(
            ip,
            names,
            n + 1,
        )
    }
}

/// The records that the line `raw` of the hosts table holds: its first word
/// is the address, the others are names. An empty line, a line that begins
/// with `#` and a line of one word hold none.
pub open spec fn hosts_line(raw: Seq<char>) -> Seq<RecordModel> {
    let line = trimmed(raw);
    let parts = words(line);
    if line.len() == 0 || has_prefix(line, "#"@) || parts.len() < 2 {
        Seq::empty()
    } else {
        host_names(parts[0], parts, 1)
    }
}

/// The records that the lines `ls` of the hosts table hold.
pub open spec fn hosts_lines(ls: Seq<Seq<char>>) -> Seq<RecordModel>
    decreases ls.len(),
{
    if ls.len() == 0 {
        Seq::empty()
    } else {
        hosts_lines(ls.drop_last()) + hosts_line(ls.last())
    }
}

/// The records that an optional configuration text holds.
pub open spec fn optional_entries(content: Option<&str>, source: Seq<char>) -> Seq<RecordModel> {
    match content {
        Some(text) => dns_entries(text@, source),
        None => Seq::empty(),
    }
}

/// The records that an optional hosts table holds.
pub open spec fn optional_hosts(content: Option<&str>) -> Seq<RecordModel> {
    match content {
        Some(text) => hosts_lines(lines_of(text@)),
        None => Seq::empty(),
    }
}

/// The record of a pair of a record and its address, with the address in
/// the form it was recognised as; none where it was not recognised.
pub open spec fn recognised(pair: (RecordModel, Option<Seq<char>>)) -> Option<RecordModel> {
    match pair.1 {
        Some(ip) => Some(RecordModel { ip, ..pair.0 }),
        None => None,
    }
}

/// The line that records the address `ip` for `hostname`, up to and
/// including the slash after the name.
pub open spec fn address_key(hostname: Seq<char>) -> Seq<char> {
    "address=/"@ + hostname + "/"@
}

/// The lines of `ls` in which `pattern` does not stand.
pub open spec fn lines_without(ls: Seq<Seq<char>>, pattern: Seq<char>) -> Seq<Seq<char>>
    decreases ls.len(),
{
    if ls.len() == 0 {
        Seq::empty()
    } else if contains(ls.last(), pattern) {
        lines_without(ls.drop_last(), pattern)
    } else {
        lines_without(ls.drop_last(), pattern).push(ls.last())
    }
}

/// `content` without the lines in which `pattern` stands; every line left
/// ends in a line feed.
pub open spec fn content_without(content: Seq<char>, pattern: Seq<char>) -> Seq<char> {
    joined(lines_without(lines_of(content), pattern), "\n"@) + "\n"@
}

/// Whether `line` reserves an address and names `target`.
pub open spec fn reserves(line: Seq<char>, target: Seq<char>) -> bool {
    has_prefix(line, "dhcp-host="@) && contains(line, target)
}

/// The lines of `ls` that do not reserve an address for `target`.
pub open spec fn lines_unreserved(ls: Seq<Seq<char>>, target: Seq<char>) -> Seq<Seq<char>>
    decreases ls.len(),
{
    if ls.len() == 0 {
        Seq::empty()
    } else if reserves(ls.last(), target) {
        lines_unreserved(ls.drop_last(), target)
    } else {
        lines_unreserved(ls.drop_last(), target).push(ls.last())
    }
}

/// `content` without the reservations for `target`; every line left ends in
/// a line feed.
pub open spec fn content_unreserved(content: Seq<char>, target: Seq<char>) -> Seq<char> {
    joined(lines_unreserved(lines_of(content), target), "\n"@) + "\n"@
}

/// The lease that the line `raw` of the lease file holds: a line of at
/// least four words gives expiry, hardware address, address and name.
pub open spec fn active_lease(raw: Seq<char>) -> Option<LeaseModel> {
    let parts = words(raw);
    if parts.len() >= 4 {
        Some(
            LeaseModel {
                expires: parts[0],
                mac: parts[1],
                ip: parts[2],
                hostname: parts[3],
                is_static: false,
            },
        )
    } else {
        None
    }
}

/// The leases that the lease file `content` holds.
pub open spec fn active_leases(content: Seq<char>) -> Seq<LeaseModel> {
    lines_of(content).filter_map(|raw: Seq<char>| active_lease(raw))
}

/// The reservation that the configuration line `raw` holds: the trimmed
/// line begins with `dhcp-host=`, and what follows has at least two parts
/// between commas, hardware address and address; a third is the name.
pub open spec fn static_reservation(raw: Seq<char>) -> Option<LeaseModel> {
    let line = trimmed(raw);
    let parts = pieces(without_prefixes(line, "dhcp-host="@), ',');
    if has_prefix(line, "dhcp-host="@) && parts.len() >= 2 {
        Some(
            LeaseModel {
                mac: parts[0],
                ip: parts[1],
                hostname: if parts.len() > 2 {
                    parts[2]
                } else {
                    Seq::empty()
                },
                expires: "static"@,
                is_static: true,
            },
        )
    } else {
        None
    }
}

/// The reservations that the configuration text `content` holds.
pub open spec fn static_reservations(content: Seq<char>) -> Seq<LeaseModel> {
    lines_of(content).filter_map(|raw: Seq<char>| static_reservation(raw))
}

/// The configuration line that reserves `ip` for `mac`.
pub open spec fn reservation_entry(mac: Seq<char>, ip: Seq<char>, hostname: Option<&str>) -> Seq<
    char,
> {
    match hostname {
        Some(h) => "dhcp-host="@ + mac + ","@ + ip + ","@ + h@,
        None => "dhcp-host="@ + mac + ","@ + ip,
    }
}

/// The name and address server of the router.
#[derive(Debug, Clone, Copy)]
pub struct DnsmasqAdapter;

impl DnsmasqAdapter {
    /// The name and address server.
    pub fn new() -> Self {
        DnsmasqAdapter
    }

    /// The records in the two configuration texts and the hosts table, in
    /// that order. A text that could not be read is `None` and holds none.
    /// The addresses stand as they are written.
    pub fn list_dns_entries(
        &self,
        main: Option<&str>,
        custom: Option<&str>,
        hosts: Option<&str>,
    ) -> (r: Vec<DnsRecord>)
        ensures
            r.deep_view() == optional_entries(main, "main"@) + optional_entries(custom, "custom"@)
                + optional_hosts(hosts),
    {
        let mut records: Vec<DnsRecord> = Vec::new();
        assert(records.deep_view() =~= Seq::<RecordModel>::empty());
        match main {
            Some(text) => {
                let mut found = self.parse_dns_entries(text, "main");
                let ghost a = records.deep_view();
                let ghost b = found.deep_view();
                records.append(&mut found);
                assert(records.deep_view() =~= a + b);
            },
            None => {},
        }
        assert(records.deep_view() =~= optional_entries(main, "main"@));
        match custom {
            Some(text) => {
                let mut found = self.parse_dns_entries(text, "custom");
                let ghost a = records.deep_view();
                let ghost b = found.deep_view();
                records.append(&mut found);
                assert(records.deep_view() =~= a + b);
            },
            None => {},
        }
        assert(records.deep_view() =~= optional_entries(main, "main"@) + optional_entries(
            custom,
            "custom"@,
        ));
        match hosts {
            Some(text) => {
                let mut found = self.parse_hosts(text);
                let ghost a = records.deep_view();
                let ghost b = found.deep_view();
                records.append(&mut found);
                assert(records.deep_view() =~= a + b);
            },
            None => {},
        }
        assert(records.deep_view() =~= optional_entries(main, "main"@) + optional_entries(
            custom,
            "custom"@,
        ) + optional_hosts(hosts));
        records
    }

    /// The records that the configuration text `content` holds, each marked
    /// as coming from `source`.
    pub fn parse_dns_entries(&self, content: &str, source: &str) -> (r: Vec<DnsRecord>)
        ensures
            r.deep_view() == dns_entries(content@, source@),
    {
        let chars = to_chars(content);
        let ls = lines(&chars);
        let label = to_chars("address=/");
        let mut out: Vec<DnsRecord> = Vec::new();
        let ghost f = |raw: Seq<char>| dns_entry(raw, source@);
        let mut i: usize = 0;
        assert(views(ls@).take(0) =~= Seq::<Seq<char>>::empty());
        assert(out.deep_view() =~= Seq::<RecordModel>::empty());
        while i < ls.len()
            invariant
                i <= ls.len(),
                label@ == "address=/"@,
                f == |raw: Seq<char>| dns_entry(raw, source@),
                out.deep_view() == views(ls@).take(i as int).filter_map(f),
            decreases ls.len() - i,
        {
            proof {
                views(ls@).lemma_filter_map_take_succ(f, i as int);
            }
            let ghost before = out.deep_view();
            let line = trim(&ls[i]);
            let mut added = false;
            if starts_with(&line, &label) {
                let parts = split(&trim_start_matches(&line, &label), '/');
                if parts.len() >= 2 {
                    assert(views(parts@)[0] == parts@[0]@);
                    assert(views(parts@)[1] == parts@[1]@);
                    let record = DnsRecord {
                        hostname: from_chars(&parts[0]),
                        ip: from_chars(&parts[1]),
                        source: String::from_str(source),
                    };
                    out.push(record);
                    assert(out.deep_view() =~= before + seq![record.deep_view()]);
                    added = true;
                }
            }
            if !added {
                assert(before + Seq::<RecordModel>::empty() =~= before);
            }
            i += 1;
        }
        assert(views(ls@).take(i as int) =~= views(ls@));
        out
    }

    /// The records that the hosts table `content` holds.
    pub fn parse_hosts(&self, content: &str) -> (r: Vec<DnsRecord>)
        ensures
            r.deep_view() == hosts_lines(lines_of(content@)),
    {
        let chars = to_chars(content);
        let ls = lines(&chars);
        let hash = to_chars("#");
        let mut out: Vec<DnsRecord> = Vec::new();
        let mut i: usize = 0;
        assert(views(ls@).take(0) =~= Seq::<Seq<char>>::empty());
        assert(out.deep_view() =~= Seq::<RecordModel>::empty());
        while i < ls.len()
            invariant
                i <= ls.len(),
                hash@ == "#"@,
                out.deep_view() == hosts_lines(views(ls@).take(i as int)),
            decreases ls.len() - i,
        {
            assert(views(ls@).take(i + 1).drop_last() =~= views(ls@).take(i as int));
            assert(views(ls@).take(i + 1).last() == ls@[i as int]@);
            let ghost before = out.deep_view();
            let line = trim(&ls[i]);
            let parts = split_whitespace(&line);
            if line.len() == 0 || starts_with(&line, &hash) || parts.len() < 2 {
                assert(before + Seq::<RecordModel>::empty() =~= before);
            } else {
                let ghost names = views(parts@);
                let mut k: usize = parts.len();
                let mut found: Vec<DnsRecord> = Vec::new();
                assert(found.deep_view() =~= Seq::<RecordModel>::empty());
                // The names are taken from the last to the first and put in
                // front, so that what is found is the tail of the result.
                while k > 1
                    invariant
                        1 <= k <= parts.len(),
                        names == views(parts@),
                        found.deep_view() == host_names(names[0], names, k as int),
                    decreases k,
                {
                    k -= 1;
                    assert(names[k as int] == parts@[k as int]@);
                    assert(names[0] == parts@[0]@);
                    if !equals(&parts[k], "localhost") {
                        let record = DnsRecord {
                            hostname: from_chars(&parts[k]),
                            ip: from_chars(&parts[0]),
                            source: String::from_str("hosts"),
                        };
                        let ghost tail = found.deep_view();
                        found.insert(0, record);
                        assert(found.deep_view() =~= seq![record.deep_view()] + tail);
                    }
                }
                let ghost b = found.deep_view();
                out.append(&mut found);
                assert(out.deep_view() =~= before + b);
            }
            i += 1;
        }
        assert(views(ls@).take(i as int) =~= views(ls@));
        out
    }

    /// The records whose address was recognised. Each record comes with its
    /// address in the usual form, or with `None` where what is written is no
    /// address.
    pub fn with_addresses(&self, records: Vec<(DnsRecord, Option<String>)>) -> (r: Vec<DnsRecord>)
        ensures
            r.deep_view() == records.deep_view().filter_map(
                |pair: (RecordModel, Option<Seq<char>>)| recognised(pair),
            ),
    {
        let mut out: Vec<DnsRecord> = Vec::new();
        let ghost pairs = records.deep_view();
        let ghost f = |pair: (RecordModel, Option<Seq<char>>)| recognised(pair);
        assert(pairs.take(0) =~= Seq::<(RecordModel, Option<Seq<char>>)>::empty());
        assert(out.deep_view() =~= Seq::<RecordModel>::empty());
        for pair in it: records
            invariant
                it.seq() == records@,
                pairs == records.deep_view(),
                f == |pair: (RecordModel, Option<Seq<char>>)| recognised(pair),
                out.deep_view() == pairs.take(it.index() as int).filter_map(f),
        {
            let ghost k = it.index() as int;
            proof {
                pairs.lemma_filter_map_take_succ(f, k);
                assert(pair == records@[k]);
                assert(pairs[k] == pair.deep_view());
            }
            let ghost before = out.deep_view();
            let (record, address) = pair;
            match address {
                Some(ip) => {
                    let kept = DnsRecord { hostname: record.hostname, ip, source: record.source };
                    out.push(kept);
                    assert(out.deep_view() =~= before + seq![kept.deep_view()]);
                },
                None => {
                    assert(before + Seq::<RecordModel>::empty() =~= before);
                },
            }
        }
        assert(pairs.take(pairs.len() as int) =~= pairs);
        out
    }

    /// The custom configuration with a record for `hostname` at `ip` added
    /// at its end. A configuration in which the name already has a record is
    /// refused.
    pub fn add_dns_entry(&self, existing: &str, hostname: &str, ip: &str) -> (r: Result<
        String,
        Error,
    >)
        ensures
            match r {
                Ok(content) => !contains(existing@, address_key(hostname@)) && content@
                    == existing@ + address_key(hostname@) + ip@ + "\n"@,
                Err(Error::DnsEntryExists { hostname: h }) => contains(
                    existing@,
                    address_key(hostname@),
                ) && h@ == hostname@,
                Err(_) => false,
            },
    {
        let mut key = String::from_str("address=/");
        key.append(hostname);
        key.append("/");
        if includes(&to_chars(existing), &to_chars(key.as_str())) {
            return Err(Error::DnsEntryExists { hostname: String::from_str(hostname) });
        }
        let mut out = String::from_str(existing);
        out.append(key.as_str());
        out.append(ip);
        out.append("\n");
        Ok(out)
    }

    /// The custom configuration without the lines that record an address
    /// for `hostname`. A configuration that this leaves unchanged is
    /// refused: the name has no record.
    pub fn remove_dns_entry(&self, content: &str, hostname: &str) -> (r: Result<String, Error>)
        ensures
            match r {
                Ok(new_content) => new_content@ == content_without(
                    content@,
                    address_key(hostname@),
                ) && new_content@ != content@,
                Err(Error::DnsEntryMissing { hostname: h }) => content_without(
                    content@,
                    address_key(hostname@),
                ) == content@ && h@ == hostname@,
                Err(_) => false,
            },
    {
        let mut key = String::from_str("address=/");
        key.append(hostname);
        key.append("/");
        let pattern = to_chars(key.as_str());
        let chars = to_chars(content);
        let ls = lines(&chars);
        let mut kept: Vec<Vec<char>> = Vec::new();
        let mut i: usize = 0;
        assert(views(ls@).take(0) =~= Seq::<Seq<char>>::empty());
        assert(views(kept@) =~= Seq::<Seq<char>>::empty());
        while i < ls.len()
            invariant
                i <= ls.len(),
                views(kept@) == lines_without(views(ls@).take(i as int), pattern@),
            decreases ls.len() - i,
        {
            assert(views(ls@).take(i + 1).drop_last() =~= views(ls@).take(i as int));
            assert(views(ls@).take(i + 1).last() == ls@[i as int]@);
            if !includes(&ls[i], &pattern) {
                let ghost before = views(kept@);
                let line = crate::text::slice(&ls[i], 0, ls[i].len());
                assert(line@ =~= ls@[i as int]@);
                kept.push(line);
                assert(views(kept@) =~= before.push(line@));
            }
            i += 1;
        }
        assert(views(ls@).take(i as int) =~= views(ls@));
        let mut new_content = join(&kept, "\n");
        new_content.append("\n");
        if crate::text::same(new_content.as_str(), content) {
            return Err(Error::DnsEntryMissing { hostname: String::from_str(hostname) });
        }
        Ok(new_content)
    }

    /// The leases handed out and the addresses reserved, in that order, from
    /// the lease file and the configuration. A text that could not be read
    /// is `None` and holds none.
    pub fn list_leases(&self, leases: Option<&str>, conf: Option<&str>) -> (r: Vec<DhcpLease>)
        ensures
            r.deep_view() == (match leases {
                Some(text) => active_leases(text@),
                None => Seq::empty(),
            }) + (match conf {
                Some(text) => static_reservations(text@),
                None => Seq::empty(),
            }),
    {
        let mut out: Vec<DhcpLease> = Vec::new();
        assert(out.deep_view() =~= Seq::<LeaseModel>::empty());
        match leases {
            Some(text) => {
                let mut found = self.parse_active_leases(text);
                let ghost a = out.deep_view();
                let ghost b = found.deep_view();
                out.append(&mut found);
                assert(out.deep_view() =~= a + b);
            },
            None => {},
        }
        let ghost first = out.deep_view();
        match conf {
            Some(text) => {
                let mut found = self.parse_static_reservations(text);
                let ghost b = found.deep_view();
                out.append(&mut found);
                assert(out.deep_view() =~= first + b);
            },
            None => {
                assert(first + Seq::<LeaseModel>::empty() =~= first);
            },
        }
        out
    }

    /// The leases that the lease file `content` holds.
    pub fn parse_active_leases(&self, content: &str) -> (r: Vec<DhcpLease>)
        ensures
            r.deep_view() == active_leases(content@),
    {
        let chars = to_chars(content);
        let ls = lines(&chars);
        let mut out: Vec<DhcpLease> = Vec::new();
        let ghost f = |raw: Seq<char>| active_lease(raw);
        let mut i: usize = 0;
        assert(views(ls@).take(0) =~= Seq::<Seq<char>>::empty());
        assert(out.deep_view() =~= Seq::<LeaseModel>::empty());
        while i < ls.len()
            invariant
                i <= ls.len(),
                f == |raw: Seq<char>| active_lease(raw),
                out.deep_view() == views(ls@).take(i as int).filter_map(f),
            decreases ls.len() - i,
        {
            proof {
                views(ls@).lemma_filter_map_take_succ(f, i as int);
            }
            let ghost before = out.deep_view();
            let parts = split_whitespace(&ls[i]);
            if parts.len() >= 4 {
                assert(views(parts@)[0] == parts@[0]@);
                assert(views(parts@)[1] == parts@[1]@);
                assert(views(parts@)[2] == parts@[2]@);
                assert(views(parts@)[3] == parts@[3]@);
                let lease = DhcpLease {
                    expires: from_chars(&parts[0]),
                    mac: from_chars(&parts[1]),
                    ip: from_chars(&parts[2]),
                    hostname: from_chars(&parts[3]),
                    is_static: false,
                };
                out.push(lease);
                assert(out.deep_view() =~= before + seq![lease.deep_view()]);
            } else {
                assert(before + Seq::<LeaseModel>::empty() =~= before);
            }
            i += 1;
        }
        assert(views(ls@).take(i as int) =~= views(ls@));
        out
    }

    /// The reservations that the configuration text `content` holds.
    pub fn parse_static_reservations(&self, content: &str) -> (r: Vec<DhcpLease>)
        ensures
            r.deep_view() == static_reservations(content@),
    {
        let chars = to_chars(content);
        let ls = lines(&chars);
        let label = to_chars("dhcp-host=");
        let mut out: Vec<DhcpLease> = Vec::new();
        let ghost f = |raw: Seq<char>| static_reservation(raw);
        let mut i: usize = 0;
        assert(views(ls@).take(0) =~= Seq::<Seq<char>>::empty());
        assert(out.deep_view() =~= Seq::<LeaseModel>::empty());
        while i < ls.len()
            invariant
                i <= ls.len(),
                label@ == "dhcp-host="@,
                f == |raw: Seq<char>| static_reservation(raw),
                out.deep_view() == views(ls@).take(i as int).filter_map(f),
            decreases ls.len() - i,
        {
            proof {
                views(ls@).lemma_filter_map_take_succ(f, i as int);
            }
            let ghost before = out.deep_view();
            let line = trim(&ls[i]);
            let mut added = false;
            if starts_with(&line, &label) {
                let parts = split(&trim_start_matches(&line, &label), ',');
                if parts.len() >= 2 {
                    assert(views(parts@)[0] == parts@[0]@);
                    assert(views(parts@)[1] == parts@[1]@);
                    let hostname = if parts.len() > 2 {
                        assert(views(parts@)[2] == parts@[2]@);
                        from_chars(&parts[2])
                    } else {
                        String::new()
                    };
                    let lease = DhcpLease {
                        mac: from_chars(&parts[0]),
                        ip: from_chars(&parts[1]),
                        hostname,
                        expires: String::from_str("static"),
                        is_static: true,
                    };
                    out.push(lease);
                    assert(out.deep_view() =~= before + seq![lease.deep_view()]);
                    added = true;
                }
            }
            if !added {
                assert(before + Seq::<LeaseModel>::empty() =~= before);
            }
            i += 1;
        }
        assert(views(ls@).take(i as int) =~= views(ls@));
        out
    }

    /// The configuration with a reservation of `ip` for `mac` added at its
    /// end, after dropping the white space that the configuration ends in.
    /// A configuration in which `mac` stands anywhere is refused.
    pub fn add_reservation(&self, content: &str, mac: &str, ip: &str, hostname: Option<&str>) -> (r:
        Result<String, Error>)
        ensures
            match r {
                Ok(new_content) => !contains(content@, mac@) && new_content@ == trimmed_end(
                    content@,
                ) + "\n"@ + reservation_entry(mac@, ip@, hostname) + "\n"@,
                Err(Error::ReservationExists { mac: m }) => contains(content@, mac@) && m@ == mac@,
                Err(_) => false,
            },
    {
        let chars = to_chars(content);
        if includes(&chars, &to_chars(mac)) {
            return Err(Error::ReservationExists { mac: String::from_str(mac) });
        }
        let mut entry = String::from_str("dhcp-host=");
        entry.append(mac);
        entry.append(",");
        entry.append(ip);
        match hostname {
            Some(h) => {
                entry.append(",");
                entry.append(h);
            },
            None => {},
        }
        let mut out = from_chars(&trim_end(&chars));
        out.append("\n");
        out.append(entry.as_str());
        out.append("\n");
        Ok(out)
    }

    /// The configuration without the reservations that name `target`. A
    /// configuration that this leaves unchanged is refused: nothing is
    /// reserved for the target.
    pub fn remove_reservation(&self, content: &str, target: &str) -> (r: Result<String, Error>)
        ensures
            match r {
                Ok(new_content) => new_content@ == content_unreserved(content@, target@)
                    && new_content@ != content@,
                Err(Error::ReservationMissing { target: t }) => content_unreserved(
                    content@,
                    target@,
                ) == content@ && t@ == target@,
                Err(_) => false,
            },
    {
        let pattern = to_chars(target);
        let label = to_chars("dhcp-host=");
        let chars = to_chars(content);
        let ls = lines(&chars);
        let mut kept: Vec<Vec<char>> = Vec::new();
        let mut i: usize = 0;
        assert(views(ls@).take(0) =~= Seq::<Seq<char>>::empty());
        assert(views(kept@) =~= Seq::<Seq<char>>::empty());
        while i < ls.len()
            invariant
                i <= ls.len(),
                label@ == "dhcp-host="@,
                views(kept@) == lines_unreserved(views(ls@).take(i as int), pattern@),
            decreases ls.len() - i,
        {
            assert(views(ls@).take(i + 1).drop_last() =~= views(ls@).take(i as int));
            assert(views(ls@).take(i + 1).last() == ls@[i as int]@);
            if !(starts_with(&ls[i], &label) && includes(&ls[i], &pattern)) {
                let ghost before = views(kept@);
                let line = crate::text::slice(&ls[i], 0, ls[i].len());
                assert(line@ =~= ls@[i as int]@);
                kept.push(line);
                assert(views(kept@) =~= before.push(line@));
            }
            i += 1;
        }
        assert(views(ls@).take(i as int) =~= views(ls@));
        let mut new_content = join(&kept, "\n");
        new_content.append("\n");
        if crate::text::same(new_content.as_str(), content) {
            return Err(Error::ReservationMissing { target: String::from_str(target) });
        }
        Ok(new_content)
    }

    /// The command that has the server read its configuration again.
    pub fn reload_command(&self) -> (r: String)
        ensures
            r@ == "systemctl reload dnsmasq"@,
    {
        String::from_str("systemctl reload dnsmasq")
    }

    /// Whether the server read its configuration again, from the output of
    /// the reload command.
    pub fn reload(&self, output: &ShellOutput) -> (r: Result<(), Error>)
        ensures
            output.success ==> r is Ok,
            !output.success ==> (r matches Err(Error::Reload { stderr }) && stderr@
                == output.stderr@),
    {
        if output.success {
            Ok(())
        } else {
            Err(Error::Reload { stderr: output.stderr.clone() })
        }
    }
}

/// Once a record is added for a name, the configuration holds the name's
/// key, so that adding another record for the name is refused.
pub proof fn lemma_added_entry_is_found(existing: Seq<char>, hostname: Seq<char>, ip: Seq<char>)
    ensures
        contains(existing + address_key(hostname) + ip + "\n"@, address_key(hostname)),
{
    let key = address_key(hostname);
    let content = existing + key + ip + "\n"@;
    assert(content.subrange(existing.len() as int, (existing.len() + key.len()) as int) =~= key);
    assert(occurs_at(content, key, existing.len() as int));
}

/// What is left after the lines with a pattern are taken out holds no line
/// with the pattern, and holds no line that was not there.
pub proof fn lemma_lines_without(ls: Seq<Seq<char>>, pattern: Seq<char>)
    ensures
        forall|k: int|
            0 <= k < lines_without(ls, pattern).len() ==> !contains(
                #[trigger] lines_without(ls, pattern)[k],
                pattern,
            ) && ls.contains(lines_without(ls, pattern)[k]),
        lines_without(ls, pattern).len() <= ls.len(),
    decreases ls.len(),
{
    if ls.len() > 0 {
        let rest = ls.drop_last();
        lemma_lines_without(rest, pattern);
        let kept = lines_without(ls, pattern);
        assert forall|k: int| 0 <= k < kept.len() implies !contains(#[trigger] kept[k], pattern)
            && ls.contains(kept[k]) by {
            if k < lines_without(rest, pattern).len() {
                let line = lines_without(rest, pattern)[k];
                assert(kept[k] == line);
                let at = choose|i: int| 0 <= i < rest.len() && rest[i] == line;
                assert(ls[at] == line);
            } else {
                assert(kept[k] == ls.last());
                assert(ls[ls.len() - 1] == ls.last());
            }
        }
    }
}

/// What is left after the reservations for a target are taken out holds
/// no reservation for it, and holds no line that was not there.
pub proof fn lemma_lines_unreserved(ls: Seq<Seq<char>>, target: Seq<char>)
    ensures
        forall|k: int|
            0 <= k < lines_unreserved(ls, target).len() ==> !reserves(
                #[trigger] lines_unreserved(ls, target)[k],
                target,
            ) && ls.contains(lines_unreserved(ls, target)[k]),
        lines_unreserved(ls, target).len() <= ls.len(),
    decreases ls.len(),
{
    if ls.len() > 0 {
        let rest = ls.drop_last();
        lemma_lines_unreserved(rest, target);
        let kept = lines_unreserved(ls, target);
        assert forall|k: int| 0 <= k < kept.len() implies !reserves(#[trigger] kept[k], target)
            && ls.contains(kept[k]) by {
            if k < lines_unreserved(rest, target).len() {
                let line = lines_unreserved(rest, target)[k];
                assert(kept[k] == line);
                let at = choose|i: int| 0 <= i < rest.len() && rest[i] == line;
                assert(ls[at] == line);
            } else {
                assert(kept[k] == ls.last());
                assert(ls[ls.len() - 1] == ls.last());
            }
        }
    }
}

} // verus!
