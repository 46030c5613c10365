//! One module for each group of subcommands: what each one shows, and the
//! questions it asks before it changes anything.

pub mod ddns;
pub mod dhcp;
pub mod dns;
pub mod fw;
pub mod sec;
pub mod status;
pub mod vpn;
