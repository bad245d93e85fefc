//! Structured-event log shipping: events are rendered as JSON records and
//! handed to a background sender through a bounded, non-blocking mailbox.

use vstd::prelude::*;

pub mod context;
pub mod event;
pub mod json;
pub mod level;
pub mod mailbox;
pub mod order;
pub mod shipper;
pub mod size;
pub mod vinted_json_formatter;
pub mod vinted_udp_logger;
pub mod vinted_udp_writer;

verus! {

/// Where log lines go.
#[derive(Clone, Copy, Debug, PartialEq, Eq, Structural)]
pub enum Target {
    /// Events are written as JSON and shipped over UDP.
    UdpJson,
    /// Events are written as JSON to the standard output.
    ConsoleJson,
    /// Events are written as plain lines to the standard output.
    Console,
}

/// The address that `Target::UdpJson` ships to.
pub const UDP_JSON_ADDRESS: &'static str = "127.0.0.1:9091";

/// What is to be installed for a target.
#[derive(Debug)]
pub struct Subscription {
    /// The formatter for JSON lines; `None` for plain lines.
    pub formatter: Option<vinted_json_formatter::VintedJson>,
    /// The writer that ships the lines; `None` for the standard output.
    pub writer: Option<vinted_udp_writer::VintedUdpWriter>,
}

/// Decides what is to be installed for a facility and a target: the JSON
/// formatter of the facility unless the target is the plain console, and a
/// writer to `UDP_JSON_ADDRESS` where the target ships over UDP.
pub fn try_init(facility: &'static str, target: Target) -> (r: Subscription)
    ensures
        r.formatter is Some <==> target != Target::Console,
        r.formatter matches Some(f) ==> f@ == facility@,
        r.writer is Some <==> target == Target::UdpJson,
        r.writer matches Some(w) ==> w@ == vinted_udp_writer::VintedUdpWriter::new_spec(
            UDP_JSON_ADDRESS@,
        ),
{
    match target {
        Target::UdpJson => Subscription {
            formatter: Some(vinted_json_formatter::VintedJson::new(facility)),
            writer: Some(vinted_udp_writer::VintedUdpWriter::new(UDP_JSON_ADDRESS)),
        },
        Target::ConsoleJson => Subscription {
            formatter: Some(vinted_json_formatter::VintedJson::new(facility)),
            writer: None,
        },
        Target::Console => Subscription { formatter: None, writer: None },
    }
}

} // verus!
