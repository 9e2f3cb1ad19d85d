//! Host and port discovery: the verdict tables of each scan method, probe
//! packets and the matching of their replies, the idle-scan state machine,
//! source and interface selection, campaign planning, result aggregation,
//! and vendor lookup for the hardware addresses that ARP finds.

pub mod addr;
pub mod arp;
pub mod capture;
pub mod engine;
pub mod error;
pub mod iface;
pub mod oui;
pub mod packet;
pub mod packet6;
pub mod probe;
pub mod results;
pub mod status;
pub mod target;
