//! The verified core of `rttmeter`, a round-trip-time meter that probes the
//! path to a host with ICMP Echo Requests.
//!
//! Everything here is a function from plain values to plain values: the packet
//! codec, the checksum, the command line, the probing state machines, the
//! classification of what was measured, and the text that is shown. Sockets,
//! clocks, name resolution and floating-point statistics live in the program
//! around this library.
pub mod address;
pub mod checksum;
pub mod command;
pub mod hop;
pub mod icmp;
pub mod monitor;
pub mod notes;
pub mod probe;
pub mod render;
pub mod reply;
pub mod stats;
pub mod status;
pub mod sweep;
pub mod text;
pub mod wire;
