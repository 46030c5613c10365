//! The failures that the library reports.

use vstd::prelude::*;
use crate::number::IntError;

verus! {

/// Why an operation did not go through.
#[derive(Debug, Clone)]
pub enum Error {
    /// Reading the file at `path` failed.
    Read { path: String, stderr: String },
    /// Replacing the file at `path` failed.
    Write { path: String, stderr: String },
    /// Appending to the file at `path` failed.
    Append { path: String, stderr: String },
    /// `systemctl` did not carry out `action` on `service`.
    Systemctl { action: String, service: String, stderr: String },
    /// The name server could not be told to reload its configuration.
    Reload { stderr: String },
    /// The name already has an address record.
    DnsEntryExists { hostname: String },
    /// The name has no address record in the custom configuration.
    DnsEntryMissing { hostname: String },
    /// The hardware address already has a reservation.
    ReservationExists { mac: String },
    /// Nothing is reserved for the target.
    ReservationMissing { target: String },
    /// A forwarding target is not of the form `ip:port`.
    TargetFormat,
    /// The port of a forwarding target is no port number.
    Port { kind: IntError },
    /// The user declined.
    Cancelled,
}

/// The text that describes why a number could not be read.
pub open spec fn int_error_text(kind: IntError) -> Seq<char> {
    match kind {
        IntError::Empty => "cannot parse integer from empty string"@,
        IntError::InvalidDigit => "invalid digit found in string"@,
        IntError::PosOverflow => "number too large to fit in target type"@,
    }
}

impl Error {
    /// The text that describes the failure.
    pub open spec fn text(self) -> Seq<char> {
        match self {
            Error::Read { path, stderr } => "Failed to read "@ + path@ + ": "@ + stderr@,
            Error::Write { path, stderr } => "Failed to write "@ + path@ + ": "@ + stderr@,
            Error::Append { path, stderr } => "Failed to append to "@ + path@ + ": "@ + stderr@,
            Error::Systemctl { action, service, stderr } => "systemctl "@ + action@ + " "@
                + service@ + " failed: "@ + stderr@,
            Error::Reload { stderr } => "Failed to reload dnsmasq: systemctl reload dnsmasq failed: "@
                + stderr@,
            Error::DnsEntryExists { hostname } => "DNS entry for "@ + hostname@
                + " already exists"@,
            Error::DnsEntryMissing { hostname } => "DNS entry for "@ + hostname@
                + " not found in custom config"@,
            Error::ReservationExists { mac } => "Reservation for MAC "@ + mac@
                + " already exists"@,
            Error::ReservationMissing { target } => "Reservation for "@ + target@ + " not found"@,
            Error::TargetFormat => "Internal target must be in ip:port format"@,
            Error::Port { kind } => int_error_text(kind),
            Error::Cancelled => "Operation cancelled"@,
        }
    }

    /// The text that describes the failure.
    pub fn message(&self) -> (r: String)
        ensures
            r@ == self.text(),
    {
        match self {
            Error::Read { path, stderr } => {
                let mut out = String::from_str("Failed to read ");
                out.append(path.as_str());
                out.append(": ");
                out.append(stderr.as_str());
                out
            },
            Error::Write { path, stderr } => {
                let mut out = String::from_str("Failed to write ");
                out.append(path.as_str());
                out.append(": ");
                out.append(stderr.as_str());
                out
            },
            Error::Append { path, stderr } => {
                let mut out = String::from_str("Failed to append to ");
                out.append(path.as_str());
                out.append(": ");
                out.append(stderr.as_str());
                out
            },
            Error::Systemctl { action, service, stderr } => {
                let mut out = String::from_str("systemctl ");
                out.append(action.as_str());
                out.append(" ");
                out.append(service.as_str());
                out.append(" failed: ");
                out.append(stderr.as_str());
                out
            },
            Error::Reload { stderr } => {
                let mut out = String::from_str(
                    "Failed to reload dnsmasq: systemctl reload dnsmasq failed: ",
                );
                out.append(stderr.as_str());
                out
            },
            Error::DnsEntryExists { hostname } => {
                let mut out = String::from_str("DNS entry for ");
                out.append(hostname.as_str());
                out.append(" already exists");
                out
            },
            Error::DnsEntryMissing { hostname } => {
                let mut out = String::from_str("DNS entry for ");
                out.append(hostname.as_str());
                out.append(" not found in custom config");
                out
            },
            Error::ReservationExists { mac } => {
                let mut out = String::from_str("Reservation for MAC ");
                out.append(mac.as_str());
                out.append(" already exists");
                out
            },
            Error::ReservationMissing { target } => {
                let mut out = String::from_str("Reservation for ");
                out.append(target.as_str());
                out.append(" not found");
                out
            },
            Error::TargetFormat => String::from_str("Internal target must be in ip:port format"),
            Error::Port { kind } => match kind {
                IntError::Empty => String::from_str("cannot parse integer from empty string"),
                IntError::InvalidDigit => String::from_str("invalid digit found in string"),
                IntError::PosOverflow => String::from_str(
                    "number too large to fit in target type",
                ),
            },
            Error::Cancelled => String::from_str("Operation cancelled"),
        }
    }
}

} // verus!
