//! Administration logic for a small home router: it builds the shell
//! commands that query and change the router's services, reads what those
//! commands print, edits the services' configuration text, and renders the
//! results for a terminal.

pub mod adapters;
pub mod commands;
pub mod error;
pub mod location;
pub mod number;
pub mod output;
pub mod text;
