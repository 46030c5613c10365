//! The WireGuard tunnel: what `wg show` prints, and the names that the
//! tunnel's configuration file gives to its peers.

use vstd::prelude::*;
use vstd::utf8::{
    decode_utf8, encode_utf8, is_ascii_chars, is_ascii_chars_encode_utf8, is_ascii_chars_nat_bound,
    is_char_boundary, is_char_boundary_iff_not_is_continuation_byte, is_continuation_byte,
};
use crate::location::ShellOutput;
use crate::number::{decimal, parse_port, port_of, push_decimal};
use crate::text::{
    after_label, contains, find, occurs_at, from_chars, has_prefix, index_of, lemma_position, lines, lines_of,
    other_than, position, run_len, slice, starts_with, strip_label, to_chars, trim,
    trim_end_matches, trim_leading, trimmed, views, without_leading, without_suffixes,
};

verus! {

/// The state of the tunnel interface.
#[derive(Debug)]
pub struct WireguardStatus {
    pub interface_up: bool,
    pub listening_port: Option<u16>,
    pub public_key: String,
    pub peers: Vec<WireguardPeer>,
}

/// One peer of the tunnel.
#[derive(Debug)]
pub struct WireguardPeer {
    pub name: String,
    pub public_key: String,
    pub allowed_ips: String,
    pub last_handshake: Option<String>,
    pub transfer_rx: String,
    pub transfer_tx: String,
    pub connected: bool,
}

/// What has been read of a peer so far.
#[derive(Debug)]
pub struct PeerBuilder {
    pub public_key: String,
    pub allowed_ips: String,
    pub last_handshake: Option<String>,
    pub transfer_rx: String,
    pub transfer_tx: String,
}

/// What has been read of the output of `wg show` so far.
#[derive(Debug)]
pub struct ShowReport {
    pub public_key: String,
    pub listening_port: Option<u16>,
    /// The peers whose section has ended, in the order of the output.
    pub done: Vec<PeerBuilder>,
    /// The peer whose section is being read.
    pub current: Option<PeerBuilder>,
}

/// The names of peers, by public key.
#[derive(Debug)]
pub struct PeerNames {
    /// Keys and names in the order in which they were entered; of two
    /// entries with one key, the later one counts.
    pub entries: Vec<(String, String)>,
}

/// A peer, with its texts as sequences of characters.
pub struct PeerModel {
    pub name: Seq<char>,
    pub public_key: Seq<char>,
    pub allowed_ips: Seq<char>,
    pub last_handshake: Option<Seq<char>>,
    pub transfer_rx: Seq<char>,
    pub transfer_tx: Seq<char>,
    pub connected: bool,
}

/// The state of the tunnel, with its texts as sequences of characters.
pub struct StatusModel {
    pub interface_up: bool,
    pub listening_port: Option<u16>,
    pub public_key: Seq<char>,
    pub peers: Seq<PeerModel>,
}

/// What has been read of a peer, with its texts as sequences of
/// characters.
pub struct BuilderModel {
    pub public_key: Seq<char>,
    pub allowed_ips: Seq<char>,
    pub last_handshake: Option<Seq<char>>,
    pub transfer_rx: Seq<char>,
    pub transfer_tx: Seq<char>,
}

/// What has been read of the output of `wg show`, with its texts as
/// sequences of characters.
pub struct ShowModel {
    pub public_key: Seq<char>,
    pub listening_port: Option<u16>,
    pub done: Seq<BuilderModel>,
    pub current: Option<BuilderModel>,
}

impl DeepView for WireguardPeer {
    type V = PeerModel;

    open spec fn deep_view(&self) -> PeerModel {
        PeerModel {
            name: self.name@,
            public_key: self.public_key@,
            allowed_ips: self.allowed_ips@,
            last_handshake: self.last_handshake.deep_view(),
            transfer_rx: self.transfer_rx@,
            transfer_tx: self.transfer_tx@,
            connected: self.connected,
        }
    }
}

impl DeepView for WireguardStatus {
    type V = StatusModel;

    open spec fn deep_view(&self) -> StatusModel {
        StatusModel {
            interface_up: self.interface_up,
            listening_port: self.listening_port,
            public_key: self.public_key@,
            peers: self.peers.deep_view(),
        }
    }
}

impl DeepView for PeerBuilder {
    type V = BuilderModel;

    open spec fn deep_view(&self) -> BuilderModel {
        BuilderModel {
            public_key: self.public_key@,
            allowed_ips: self.allowed_ips@,
            last_handshake: self.last_handshake.deep_view(),
            transfer_rx: self.transfer_rx@,
            transfer_tx: self.transfer_tx@,
        }
    }
}

impl DeepView for ShowReport {
    type V = ShowModel;

    open spec fn deep_view(&self) -> ShowModel {
        ShowModel {
            public_key: self.public_key@,
            listening_port: self.listening_port,
            done: self.done.deep_view(),
            current: self.current.deep_view(),
        }
    }
}

/// The map that a list of entries stands for.
pub open spec fn entries_map(entries: Seq<(String, String)>) -> Map<Seq<char>, Seq<char>>
    decreases entries.len(),
{
    if entries.len() == 0 {
        Map::empty()
    } else {
        entries_map(entries.drop_last()).insert(entries.last().0@, entries.last().1@)
    }
}

impl View for PeerNames {
    type V = Map<Seq<char>, Seq<char>>;

    open spec fn view(&self) -> Map<Seq<char>, Seq<char>> {
        entries_map(self.entries@)
    }
}

impl PeerNames {
    /// No names.
    pub fn new() -> (r: Self)
        ensures
            r@ == Map::<Seq<char>, Seq<char>>::empty(),
    {
        PeerNames { entries: Vec::new() }
    }

    /// Gives the peer with the key `key` the name `name`.
    pub fn insert(&mut self, key: String, name: String)
        ensures
            final(self)@ == old(self)@.insert(key@, name@),
    {
        self.entries.push((key, name));
        assert(self.entries@.drop_last() =~= old(self).entries@);
    }

    /// The name of the peer with the key `key`.
    pub fn get(&self, key: &str) -> (r: Option<String>)
        ensures
            match r {
                Some(name) => self@.contains_key(key@) && self@[key@] == name@,
                None => !self@.contains_key(key@),
            },
    {
        let mut found: Option<String> = None;
        let mut i: usize = 0;
        assert(self.entries@.take(0) =~= Seq::<(String, String)>::empty());
        while i < self.entries.len()
            invariant
                i <= self.entries.len(),
                match found {
                    Some(name) => entries_map(self.entries@.take(i as int)).contains_key(key@)
                        && entries_map(self.entries@.take(i as int))[key@] == name@,
                    None => !entries_map(self.entries@.take(i as int)).contains_key(key@),
                },
            decreases self.entries.len() - i,
        {
            assert(self.entries@.take(i + 1).drop_last() =~= self.entries@.take(i as int));
            if crate::text::same(self.entries[i].0.as_str(), key) {
                found = Some(self.entries[i].1.clone());
            }
            i += 1;
        }
        assert(self.entries@.take(i as int) =~= self.entries@);
        found
    }
}

/// A peer of which only the key is known.
pub open spec fn fresh(public_key: Seq<char>) -> BuilderModel {
    BuilderModel {
        public_key,
        allowed_ips: Seq::empty(),
        last_handshake: None,
        transfer_rx: Seq::empty(),
        transfer_tx: Seq::empty(),
    }
}

/// The peer `b` after a transfer line with the content `t`: what stands
/// before the first `received,` is the amount received; what stands after
/// it, up to a closing `sent`, is the amount sent. Without `received,` the
/// line says nothing.
pub open spec fn with_transfer(b: BuilderModel, t: Seq<char>) -> BuilderModel {
    if contains(t, "received,"@) {
        let i = position(t, "received,"@);
        BuilderModel {
            transfer_rx: trimmed(t.take(i)),
            transfer_tx: trimmed(without_suffixes(t.skip(i + "received,"@.len()), "sent"@)),
            ..b
        }
    } else {
        b
    }
}

/// The peer `b` after the trimmed line `line` of its section.
pub open spec fn peer_step(b: BuilderModel, line: Seq<char>) -> BuilderModel {
    if has_prefix(line, "allowed ips:"@) {
        BuilderModel { allowed_ips: after_label(line, "allowed ips:"@), ..b }
    } else if has_prefix(line, "latest handshake:"@) {
        BuilderModel { last_handshake: Some(after_label(line, "latest handshake:"@)), ..b }
    } else if has_prefix(line, "transfer:"@) {
        with_transfer(b, after_label(line, "transfer:"@))
    } else {
        b
    }
}

/// Nothing read yet.
pub open spec fn show_start() -> ShowModel {
    ShowModel {
        public_key: Seq::empty(),
        listening_port: None,
        done: Seq::empty(),
        current: None,
    }
}

/// The state `st` after the line `raw`. Before the first peer, a
/// `public key:` line gives the interface's key. A `listening port:` line
/// gives the port, or none if what follows is no port number. A `peer:`
/// line ends the section of the peer before and begins a new one. Any other
/// line belongs to the peer whose section is open.
pub open spec fn show_step(st: ShowModel, raw: Seq<char>) -> ShowModel {
    let line = trimmed(raw);
    if has_prefix(line, "public key:"@) {
        if st.current is None {
            ShowModel { public_key: after_label(line, "public key:"@), ..st }
        } else {
            st
        }
    } else if has_prefix(line, "listening port:"@) {
        ShowModel { listening_port: port_of(after_label(line, "listening port:"@)), ..st }
    } else if has_prefix(line, "peer:"@) {
        ShowModel {
            done: match st.current {
                Some(b) => st.done.push(b),
                None => st.done,
            },
            current: Some(fresh(after_label(line, "peer:"@))),
            ..st
        }
    } else {
        match st.current {
            Some(b) => ShowModel { current: Some(peer_step(b, line)), ..st },
            None => st,
        }
    }
}

/// The state after the lines `ls`, read in order.
pub open spec fn show_fold(ls: Seq<Seq<char>>) -> ShowModel
    decreases ls.len(),
{
    if ls.len() == 0 {
        show_start()
    } else {
        show_step(show_fold(ls.drop_last()), ls.last())
    }
}

/// The peers of a state, the one whose section is open last.
pub open spec fn all_peers(st: ShowModel) -> Seq<BuilderModel> {
    match st.current {
        Some(b) => st.done.push(b),
        None => st.done,
    }
}

/// Whether a key can be cut after its eighth byte, if it is longer than
/// that: the cut must not fall inside a character.
pub open spec fn sliceable(key: Seq<char>) -> bool {
    encode_utf8(key).len() > 8 ==> is_char_boundary(encode_utf8(key), 8)
}

/// The short form of a key: a key of more than eight bytes is cut after the
/// eighth, and `...` stands for the rest.
pub open spec fn short_key_of(key: Seq<char>) -> Seq<char> {
    if encode_utf8(key).len() > 8 {
        decode_utf8(encode_utf8(key).subrange(0, 8)) + "..."@
    } else {
        key
    }
}

/// An amount of data, `0 B` where none was read.
pub open spec fn amount(s: Seq<char>) -> Seq<char> {
    if s.len() == 0 {
        "0 B"@
    } else {
        s
    }
}

/// The peer that `b` describes. It is named by its short key, and counts as
/// connected if a handshake was seen.
pub open spec fn built(b: BuilderModel) -> PeerModel {
    PeerModel {
        name: short_key_of(b.public_key),
        public_key: b.public_key,
        allowed_ips: b.allowed_ips,
        last_handshake: b.last_handshake,
        transfer_rx: amount(b.transfer_rx),
        transfer_tx: amount(b.transfer_tx),
        connected: b.last_handshake is Some,
    }
}

/// The peer `p` under the name that `names` has for its key, if any.
pub open spec fn named(p: PeerModel, names: Map<Seq<char>, Seq<char>>) -> PeerModel {
    if names.contains_key(p.public_key) {
        PeerModel { name: names[p.public_key], ..p }
    } else {
        p
    }
}

/// Whether `key` can be cut after its eighth byte, if it is longer.
pub fn is_sliceable(key: &str) -> (b: bool)
    ensures
        b == sliceable(key@),
{
    key.as_bytes().len() <= 8 || key.is_char_boundary(8)
}

/// The short form of `key`.
pub fn short_key(key: &str) -> (r: String)
    requires
        sliceable(key@),
    ensures
        r@ == short_key_of(key@),
{
    broadcast use vstd::utf8::encode_utf8_decode_utf8;

    if key.as_bytes().len() > 8 {
        let (head, _) = key.split_at(8);
        assert(head@ == decode_utf8(encode_utf8(head@)));
        let mut out = String::from_str(head);
        out.append("...");
        out
    } else {
        String::from_str(key)
    }
}

impl PeerBuilder {
    /// A peer of which only the key is known.
    pub fn new(public_key: String) -> (r: Self)
        ensures
            r.deep_view() == fresh(public_key@),
    {
        PeerBuilder {
            public_key,
            allowed_ips: String::new(),
            last_handshake: None,
            transfer_rx: String::new(),
            transfer_tx: String::new(),
        }
    }

    /// The peer that the builder describes.
    pub fn build(self) -> (r: WireguardPeer)
        requires
            sliceable(self.public_key@),
        ensures
            r.deep_view() == built(self.deep_view()),
    {
        let connected = self.last_handshake.is_some();
        let name = short_key(self.public_key.as_str());
        let transfer_rx = if self.transfer_rx.as_str().is_empty() {
            String::from_str("0 B")
        } else {
            self.transfer_rx
        };
        let transfer_tx = if self.transfer_tx.as_str().is_empty() {
            String::from_str("0 B")
        } else {
            self.transfer_tx
        };
        WireguardPeer {
            name,
            public_key: self.public_key,
            allowed_ips: self.allowed_ips,
            last_handshake: self.last_handshake,
            transfer_rx,
            transfer_tx,
            connected,
        }
    }

    /// The builder after the trimmed line `line` of its peer's section.
    pub fn step(self, line: &Vec<char>) -> (r: Self)
        ensures
            r.deep_view() == peer_step(self.deep_view(), line@),
    {
        let allowed = to_chars("allowed ips:");
        let handshake = to_chars("latest handshake:");
        let transfer = to_chars("transfer:");
        if starts_with(line, &allowed) {
            let value = strip_label(line, &allowed);
            PeerBuilder { allowed_ips: from_chars(&value), ..self }
        } else if starts_with(line, &handshake) {
            let value = strip_label(line, &handshake);
            PeerBuilder { last_handshake: Some(from_chars(&value)), ..self }
        } else if starts_with(line, &transfer) {
            let t = strip_label(line, &transfer);
            let received = to_chars("received,");
            match find(&t, &received) {
                Some(i) => {
                    proof {
                        lemma_position(t@, received@, i as int);
                        assert(occurs_at(t@, received@, i as int));
                    }
                    let end = t.len();
                    assert(i + received@.len() <= end);
                    let before = slice(&t, 0, i);
                    let after = slice(&t, i + received.len(), end);
                    let rx = trim(&before);
                    let sent = to_chars("sent");
                    let tx = trim(&trim_end_matches(&after, &sent));
                    PeerBuilder { transfer_rx: from_chars(&rx), transfer_tx: from_chars(&tx), ..self }
                },
                None => self,
            }
        } else {
            self
        }
    }
}

impl ShowReport {
    /// Nothing read yet.
    pub fn new() -> (r: Self)
        ensures
            r.deep_view() == show_start(),
    {
        let r = ShowReport {
            public_key: String::new(),
            listening_port: None,
            done: Vec::new(),
            current: None,
        };
        assert(r.done.deep_view() =~= Seq::<BuilderModel>::empty());
        r
    }

    /// The report after the line `raw`.
    pub fn step(self, raw: &Vec<char>) -> (r: Self)
        ensures
            r.deep_view() == show_step(self.deep_view(), raw@),
    {
        let line = trim(raw);
        let key_label = to_chars("public key:");
        let port_label = to_chars("listening port:");
        let peer_label = to_chars("peer:");
        if starts_with(&line, &key_label) {
            if self.current.is_none() {
                let value = strip_label(&line, &key_label);
                ShowReport { public_key: from_chars(&value), ..self }
            } else {
                self
            }
        } else if starts_with(&line, &port_label) {
            let value = strip_label(&line, &port_label);
            ShowReport { listening_port: parse_port(&value), ..self }
        } else if starts_with(&line, &peer_label) {
            let value = strip_label(&line, &peer_label);
            let ShowReport { public_key, listening_port, done, current } = self;
            let mut done = done;
            match current {
                Some(b) => {
                    proof {
                        assert(done.deep_view().push(b.deep_view()) =~= done@.push(b).map_values(
                            |x: PeerBuilder| x.deep_view(),
                        ));
                    }
                    let ghost before = done.deep_view();
                    done.push(b);
                    assert(done.deep_view() =~= before.push(b.deep_view()));
                },
                None => {},
            }
            ShowReport {
                public_key,
                listening_port,
                done,
                current: Some(PeerBuilder::new(from_chars(&value))),
            }
        } else {
            let ShowReport { public_key, listening_port, done, current } = self;
            match current {
                Some(b) => ShowReport {
                    public_key,
                    listening_port,
                    done,
                    current: Some(b.step(&line)),
                },
                None => ShowReport { public_key, listening_port, done, current: None },
            }
        }
    }
}

/// What the output `text` of `wg show` says.
pub fn parse_show(text: &str) -> (r: ShowReport)
    ensures
        r.deep_view() == show_fold(lines_of(text@)),
{
    let chars = to_chars(text);
    let ls = lines(&chars);
    let mut report = ShowReport::new();
    let mut i: usize = 0;
    assert(views(ls@).take(0) =~= Seq::<Seq<char>>::empty());
    while i < ls.len()
        invariant
            i <= ls.len(),
            report.deep_view() == show_fold(views(ls@).take(i as int)),
        decreases ls.len() - i,
    {
        assert(views(ls@).take(i + 1).drop_last() =~= views(ls@).take(i as int));
        report = report.step(&ls[i]);
        i += 1;
    }
    assert(views(ls@).take(i as int) =~= views(ls@));
    report
}

/// What has been read of the tunnel's configuration file: the comment that
/// stands above the line being read, and the names found.
pub struct NamesModel {
    pub comment: Seq<char>,
    pub names: Map<Seq<char>, Seq<char>>,
}

/// The state `st` after the line `raw`. A line that begins with `#` is a
/// comment: what follows the `#` signs is remembered. A line that begins
/// with `PublicKey` names the peer whose key follows its first `=` by the
/// remembered comment, if there is an `=` and the comment is not empty;
/// either way the comment is forgotten.
pub open spec fn names_step(st: NamesModel, raw: Seq<char>) -> NamesModel {
    let t = trimmed(raw);
    if has_prefix(t, "#"@) {
        NamesModel { comment: trimmed(without_leading(t, '#')), ..st }
    } else if has_prefix(t, "PublicKey"@) {
        let eq = run_len(t, other_than('='));
        NamesModel {
            comment: Seq::empty(),
            names: if eq < t.len() && st.comment.len() > 0 {
                st.names.insert(trimmed(t.skip(eq + 1)), st.comment)
            } else {
                st.names
            },
        }
    } else {
        st
    }
}

/// The state after the lines `ls`, read in order.
pub open spec fn names_fold(ls: Seq<Seq<char>>) -> NamesModel
    decreases ls.len(),
{
    if ls.len() == 0 {
        NamesModel { comment: Seq::empty(), names: Map::empty() }
    } else {
        names_step(names_fold(ls.drop_last()), ls.last())
    }
}

/// The names that the output of printing the configuration file gives: none
/// where there is no output or the command failed.
pub open spec fn names_of(conf: Option<&ShellOutput>) -> Map<Seq<char>, Seq<char>> {
    match conf {
        Some(output) => if output.success {
            names_fold(lines_of(output.stdout@)).names
        } else {
            Map::empty()
        },
        None => Map::empty(),
    }
}

/// The command that prints the tunnel's state.
pub fn show_command() -> (r: String)
    ensures
        r@ == "wg show wg0 2>/dev/null"@,
{
    String::from_str("wg show wg0 2>/dev/null")
}

/// The command that prints the tunnel's configuration file.
pub fn conf_command() -> (r: String)
    ensures
        r@ == "cat /etc/wireguard/wg0.conf 2>/dev/null"@,
{
    String::from_str("cat /etc/wireguard/wg0.conf 2>/dev/null")
}

/// The names that the configuration file gives to peers, from the output of
/// printing it. `None` stands for a command that could not be run.
pub fn resolve_peer_names(conf: Option<&ShellOutput>) -> (r: PeerNames)
    ensures
        r@ == names_of(conf),
{
    let mut names = PeerNames::new();
    let output = match conf {
        Some(output) => output,
        None => {
            return names;
        },
    };
    if !output.success {
        return names;
    }
    let chars = to_chars(output.stdout.as_str());
    let ls = lines(&chars);
    let hash = to_chars("#");
    let label = to_chars("PublicKey");
    let mut comment: Vec<char> = Vec::new();
    let mut i: usize = 0;
    assert(views(ls@).take(0) =~= Seq::<Seq<char>>::empty());
    while i < ls.len()
        invariant
            i <= ls.len(),
            hash@ == "#"@,
            label@ == "PublicKey"@,
            names_fold(views(ls@).take(i as int)) == (NamesModel {
                comment: comment@,
                names: names@,
            }),
        decreases ls.len() - i,
    {
        assert(views(ls@).take(i + 1).drop_last() =~= views(ls@).take(i as int));
        let t = trim(&ls[i]);
        if starts_with(&t, &hash) {
            comment = trim(&trim_leading(&t, '#'));
        } else if starts_with(&t, &label) {
            match index_of(&t, '=') {
                Some(pos) => {
                    if comment.len() > 0 {
                        let key = trim(&slice(&t, pos + 1, t.len()));
                        names.insert(from_chars(&key), from_chars(&comment));
                    }
                },
                None => {},
            }
            comment = Vec::new();
        }
        i += 1;
    }
    assert(views(ls@).take(i as int) =~= views(ls@));
    names
}

/// The peers of the tunnel as `names` calls them.
pub open spec fn peers_of(st: ShowModel, names: Map<Seq<char>, Seq<char>>) -> Seq<PeerModel> {
    all_peers(st).map_values(|b: BuilderModel| named(built(b), names))
}

/// The state of the tunnel, from the output `show` of printing it and the
/// names of the peers. Where the command failed, the interface is down.
pub open spec fn status_of(show: &ShellOutput, names: Map<Seq<char>, Seq<char>>) -> StatusModel {
    if show.success {
        let st = show_fold(lines_of(show.stdout@));
        StatusModel {
            interface_up: true,
            listening_port: st.listening_port,
            public_key: st.public_key,
            peers: peers_of(st, names),
        }
    } else {
        StatusModel {
            interface_up: false,
            listening_port: None,
            public_key: Seq::empty(),
            peers: Seq::empty(),
        }
    }
}

/// Whether every peer in a state has a key that can be shortened.
pub open spec fn keys_sliceable(st: ShowModel) -> bool {
    forall|i: int| 0 <= i < all_peers(st).len() ==> sliceable(#[trigger] all_peers(st)[i].public_key)
}

/// Whether the output `show` allows a status: where the command went
/// through, every peer in it has a key that can be shortened.
pub open spec fn has_status(show: &ShellOutput) -> bool {
    show.success ==> keys_sliceable(show_fold(lines_of(show.stdout@)))
}

impl ShowReport {
    /// The peers read, the one whose section is open last.
    pub fn into_builders(self) -> (r: Vec<PeerBuilder>)
        ensures
            r.deep_view() == all_peers(self.deep_view()),
    {
        let ShowReport { public_key, listening_port, done, current } = self;
        let mut done = done;
        match current {
            Some(b) => {
                let ghost before = done.deep_view();
                done.push(b);
                assert(done.deep_view() =~= before.push(b.deep_view()));
            },
            None => {},
        }
        done
    }
}

impl ShowReport {
    /// Whether every peer read has a key that can be shortened.
    pub fn sliceable(&self) -> (b: bool)
        ensures
            b == keys_sliceable(self.deep_view()),
    {
        let ghost done = self.done.deep_view();
        let mut i: usize = 0;
        while i < self.done.len()
            invariant
                i <= self.done.len(),
                done == self.done.deep_view(),
                forall|j: int| 0 <= j < i ==> sliceable(#[trigger] done[j].public_key),
            decreases self.done.len() - i,
        {
            if !is_sliceable(self.done[i].public_key.as_str()) {
                assert(!sliceable(done[i as int].public_key));
                assert(all_peers(self.deep_view())[i as int] == done[i as int]);
                return false;
            }
            i += 1;
        }
        match &self.current {
            Some(b) => {
                let ok = is_sliceable(b.public_key.as_str());
                proof {
                    let all = all_peers(self.deep_view());
                    assert(all =~= done.push(b.deep_view()));
                    assert(all[done.len() as int] == b.deep_view());
                    assert(all[done.len() as int].public_key == b.public_key@);
                    if ok {
                        assert forall|k: int| 0 <= k < all.len() implies sliceable(
                            #[trigger] all[k].public_key,
                        ) by {
                            if k < done.len() {
                                assert(all[k] == done[k]);
                            }
                        }
                    } else {
                        assert(!sliceable(all[done.len() as int].public_key));
                    }
                }
                ok
            },
            None => {
                proof {
                    let all = all_peers(self.deep_view());
                    assert(all == done);
                    assert forall|k: int| 0 <= k < all.len() implies sliceable(
                        #[trigger] all[k].public_key,
                    ) by {
                        assert(all[k] == done[k]);
                    }
                }
                true
            },
        }
    }
}

/// The peers that `builders` describe, as `names` calls them.
pub fn build_peers(builders: Vec<PeerBuilder>, names: &PeerNames) -> (r: Vec<WireguardPeer>)
    requires
        forall|i: int|
            0 <= i < builders.len() ==> sliceable(#[trigger] builders.deep_view()[i].public_key),
    ensures
        r.deep_view() == builders.deep_view().map_values(|b: BuilderModel| named(built(b), names@)),
{
    let mut peers: Vec<WireguardPeer> = Vec::new();
    let ghost all = builders.deep_view();
    let ghost f = |b: BuilderModel| named(built(b), names@);
    for b in it: builders
        invariant
            it.seq() == builders@,
            all == builders.deep_view(),
            f == |b: BuilderModel| named(built(b), names@),
            forall|i: int| 0 <= i < all.len() ==> sliceable(#[trigger] all[i].public_key),
            peers.deep_view() == all.take(it.index() as int).map_values(f),
    {
        let ghost k = it.index() as int;
        assert(b == builders@[k]);
        assert(b.deep_view() == all[k]);
        assert(sliceable(all[k].public_key));
        let mut peer = b.build();
        match names.get(peer.public_key.as_str()) {
            Some(name) => {
                peer.name = name;
            },
            None => {},
        }
        let ghost before = peers.deep_view();
        peers.push(peer);
        assert(peers.deep_view() =~= before.push(peer.deep_view()));
        assert(all.take(k + 1).map_values(f) =~= all.take(k).map_values(f).push(f(all[k])));
    }
    assert(all.take(all.len() as int) =~= all);
    peers
}

/// The state of a tunnel whose interface is down.
pub fn down() -> (r: WireguardStatus)
    ensures
        r.deep_view() == (StatusModel {
            interface_up: false,
            listening_port: None,
            public_key: Seq::empty(),
            peers: Seq::empty(),
        }),
{
    let r = WireguardStatus {
        interface_up: false,
        listening_port: None,
        public_key: String::new(),
        peers: Vec::new(),
    };
    assert(r.peers.deep_view() =~= Seq::<PeerModel>::empty());
    r
}

/// The state of a tunnel whose interface is up, from what was read of its
/// output and the names of the peers.
pub fn up(report: ShowReport, names: &PeerNames) -> (r: WireguardStatus)
    requires
        keys_sliceable(report.deep_view()),
    ensures
        r.deep_view() == (StatusModel {
            interface_up: true,
            listening_port: report.listening_port,
            public_key: report.public_key@,
            peers: peers_of(report.deep_view(), names@),
        }),
{
    let listening_port = report.listening_port;
    let public_key = report.public_key.clone();
    let builders = report.into_builders();
    let peers = build_peers(builders, names);
    WireguardStatus { interface_up: true, listening_port, public_key, peers }
}

/// The state of the tunnel, from the output `show` of printing it and the
/// output `conf` of printing its configuration file.
pub fn get_status(show: &ShellOutput, conf: Option<&ShellOutput>) -> (r: WireguardStatus)
    requires
        has_status(show),
    ensures
        r.deep_view() == status_of(show, names_of(conf)),
{
    if !show.success {
        return down();
    }
    let report = parse_show(show.stdout.as_str());
    let names = resolve_peer_names(conf);
    up(report, &names)
}

/// The state of the tunnel as `get_status` gives it, or `None` where the
/// output holds a peer whose key cannot be shortened.
pub fn try_get_status(show: &ShellOutput, conf: Option<&ShellOutput>) -> (r: Option<
    WireguardStatus,
>)
    ensures
        r is Some <==> has_status(show),
        r matches Some(status) ==> status.deep_view() == status_of(show, names_of(conf)),
{
    if !show.success {
        return Some(down());
    }
    let report = parse_show(show.stdout.as_str());
    if !report.sliceable() {
        return None;
    }
    let names = resolve_peer_names(conf);
    Some(up(report, &names))
}

/// How many of `peers` are connected.
pub open spec fn connected_count(peers: Seq<WireguardPeer>) -> nat
    decreases peers.len(),
{
    if peers.len() == 0 {
        0
    } else {
        connected_count(peers.drop_last()) + if peers.last().connected {
            1nat
        } else {
            0nat
        }
    }
}

/// The port as it is shown: zero where there is none.
pub open spec fn shown_port(port: Option<u16>) -> nat {
    match port {
        Some(p) => p as nat,
        None => 0,
    }
}

impl WireguardPeer {
    /// The peer as text: a mark for connected or not, name and addresses,
    /// the last handshake if there was one, and the amounts transferred.
    pub open spec fn rendered(&self) -> Seq<char> {
        (if self.connected {
            "●"@
        } else {
            "○"@
        }) + " "@ + self.name@ + " ("@ + self.allowed_ips@ + ")\n"@ + (match self.last_handshake {
            Some(hs) => "    Last handshake: "@ + hs@ + "\n"@,
            None => Seq::empty(),
        }) + "    Transfer: "@ + self.transfer_rx@ + " rx / "@ + self.transfer_tx@ + " tx\n"@
    }

    /// The peer as text.
    pub fn render(&self) -> (r: String)
        ensures
            r@ == self.rendered(),
    {
        let mut out = String::new();
        self.render_into(&mut out);
        assert(Seq::<char>::empty() + self.rendered() =~= self.rendered());
        out
    }

    /// Appends the peer as text to `out`.
    pub fn render_into(&self, out: &mut String)
        ensures
            final(out)@ == old(out)@ + self.rendered(),
    {
        if self.connected {
            out.append("●");
        } else {
            out.append("○");
        }
        out.append(" ");
        out.append(self.name.as_str());
        out.append(" (");
        out.append(self.allowed_ips.as_str());
        out.append(")\n");
        match &self.last_handshake {
            Some(hs) => {
                out.append("    Last handshake: ");
                out.append(hs.as_str());
                out.append("\n");
            },
            None => {},
        }
        out.append("    Transfer: ");
        out.append(self.transfer_rx.as_str());
        out.append(" rx / ");
        out.append(self.transfer_tx.as_str());
        out.append(" tx\n");
        assert(out@ =~= old(out)@ + self.rendered());
    }
}

impl WireguardStatus {
    /// The status as text: whether the interface is up, and if it is, its
    /// port and how many of its peers are connected.
    pub open spec fn rendered(&self) -> Seq<char> {
        if !self.interface_up {
            "  WireGuard: down\n"@
        } else {
            "  WireGuard: up (port "@ + decimal(shown_port(self.listening_port)) + ")\n"@
                + "  Peers: "@ + decimal(connected_count(self.peers@)) + "/"@ + decimal(
                self.peers@.len(),
            ) + " connected\n"@
        }
    }

    /// How many peers are connected.
    pub fn connected(&self) -> (n: usize)
        ensures
            n == connected_count(self.peers@),
    {
        let mut n: usize = 0;
        let mut i: usize = 0;
        assert(self.peers@.take(0) =~= Seq::<WireguardPeer>::empty());
        while i < self.peers.len()
            invariant
                i <= self.peers.len(),
                n <= i,
                n == connected_count(self.peers@.take(i as int)),
            decreases self.peers.len() - i,
        {
            assert(self.peers@.take(i + 1).drop_last() =~= self.peers@.take(i as int));
            if self.peers[i].connected {
                n += 1;
            }
            i += 1;
        }
        assert(self.peers@.take(i as int) =~= self.peers@);
        n
    }

    /// The status as text.
    pub fn render(&self) -> (r: String)
        ensures
            r@ == self.rendered(),
    {
        if !self.interface_up {
            return String::from_str("  WireGuard: down\n");
        }
        let port: u16 = match self.listening_port {
            Some(p) => p,
            None => 0,
        };
        let mut out = String::from_str("  WireGuard: up (port ");
        push_decimal(&mut out, port as u64);
        out.append(")\n");
        out.append("  Peers: ");
        push_decimal(&mut out, self.connected() as u64);
        out.append("/");
        push_decimal(&mut out, self.peers.len() as u64);
        out.append(" connected\n");
        assert(out@ =~= self.rendered());
        out
    }
}

/// A key of ASCII characters, as every key that the tunnel prints is, can
/// always be shortened, and its short form is the key itself if it has at
/// most eight characters, else its first eight characters and `...`.
pub proof fn lemma_short_ascii_key(key: Seq<char>)
    requires
        is_ascii_chars(key),
    ensures
        sliceable(key),
        short_key_of(key) == if key.len() > 8 {
            key.take(8) + "..."@
        } else {
            key
        },
{
    broadcast use vstd::utf8::encode_utf8_valid_utf8, vstd::utf8::encode_utf8_decode_utf8;

    let bytes = encode_utf8(key);
    is_ascii_chars_encode_utf8(key);
    is_ascii_chars_nat_bound(key);
    if key.len() > 8 {
        assert(bytes[8] == key[8] as u8);
        assert(!is_continuation_byte(bytes[8]));
        is_char_boundary_iff_not_is_continuation_byte(bytes, 8);
        let head = key.take(8);
        assert(is_ascii_chars(head)) by {
            assert forall|i: int| 0 <= i < head.len() implies '\0' <= #[trigger] head[i]
                <= '\u{7f}' by {
                assert(head[i] == key[i]);
            }
        }
        is_ascii_chars_encode_utf8(head);
        assert(encode_utf8(head) =~= bytes.subrange(0, 8)) by {
            assert forall|i: int| 0 <= i < 8 implies encode_utf8(head)[i] == bytes.subrange(
                0,
                8,
            )[i] by {
                assert(head[i] == key[i]);
                assert(encode_utf8(head)[i] == head[i] as u8);
                assert(bytes[i] == key[i] as u8);
            }
        }
        assert(decode_utf8(encode_utf8(head)) == head);
    }
}

} // verus!
