//! One module for each service of the router: the commands that query or
//! change it, and what their output means.

pub mod adguard;
pub mod crowdsec;
pub mod dnsmasq;
pub mod nftables;
pub mod system;
pub mod wireguard;
