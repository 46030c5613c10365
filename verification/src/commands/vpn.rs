//! The tunnel and its peers.

use vstd::prelude::*;
use crate::adapters::wireguard::{shown_port, WireguardPeer, WireguardStatus};
use crate::number::{decimal, push_decimal};

verus! {

/// The peers of the tunnel, with what is needed to head the list.
#[derive(Debug)]
pub struct VpnPeersResult {
    pub interface_up: bool,
    pub listening_port: Option<u16>,
    pub peers: Vec<WireguardPeer>,
}

/// The peers of the tunnel in the state `state`.
pub fn peers(state: WireguardStatus) -> (r: VpnPeersResult)
    ensures
        r.interface_up == state.interface_up,
        r.listening_port == state.listening_port,
        r.peers == state.peers,
{
    VpnPeersResult {
        interface_up: state.interface_up,
        listening_port: state.listening_port,
        peers: state.peers,
    }
}

/// The state of the tunnel as text.
pub fn status(state: &WireguardStatus) -> (r: String)
    ensures
        r@ == state.rendered(),
{
    state.render()
}

/// The peers `peers` as text, one after the other.
pub open spec fn rendered_peers(peers: Seq<WireguardPeer>) -> Seq<char>
    decreases peers.len(),
{
    if peers.len() == 0 {
        Seq::empty()
    } else {
        rendered_peers(peers.drop_last()) + peers.last().rendered()
    }
}

impl VpnPeersResult {
    /// The peers under a heading that names the port; a line that says so
    /// where the interface is down or has no peers.
    pub open spec fn rendered(&self) -> Seq<char> {
        if !self.interface_up {
            "WireGuard interface is down.\n"@
        } else {
            "WireGuard Peers (port "@ + decimal(shown_port(self.listening_port)) + ")\n"@
                + "=========================\n"@ + if self.peers@.len() == 0 {
                "No peers configured.\n"@
            } else {
                rendered_peers(self.peers@)
            }
        }
    }

    /// The peers under a heading.
    pub fn render(&self) -> (r: String)
        ensures
            r@ == self.rendered(),
    {
        if !self.interface_up {
            return String::from_str("WireGuard interface is down.\n");
        }
        let port: u16 = match self.listening_port {
            Some(p) => p,
            None => 0,
        };
        let mut out = String::from_str("WireGuard Peers (port ");
        push_decimal(&mut out, port as u64);
        out.append(")\n");
        out.append("=========================\n");
        if self.peers.len() == 0 {
            out.append("No peers configured.\n");
            return out;
        }
        let ghost head = out@;
        let mut i: usize = 0;
        assert(self.peers@.take(0) =~= Seq::<WireguardPeer>::empty());
        assert(out@ =~= head + rendered_peers(self.peers@.take(0)));
        while i < self.peers.len()
            invariant
                i <= self.peers.len(),
                out@ == head + rendered_peers(self.peers@.take(i as int)),
            decreases self.peers.len() - i,
        {
            assert(self.peers@.take(i + 1).drop_last() =~= self.peers@.take(i as int));
            self.peers[i].render_into(&mut out);
            assert(out@ =~= head + rendered_peers(self.peers@.take(i + 1)));
            i += 1;
        }
        assert(self.peers@.take(i as int) =~= self.peers@);
        assert(out@ =~= self.rendered());
        out
    }
}

} // verus!
