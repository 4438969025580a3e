//! Process configuration as the core consumes it: two port numbers and a
//! verbosity flag. Reading and parsing the configuration file is an external
//! collaborator's concern; the core only carries the plain values.

use vstd::prelude::*;

verus! {

/// The configuration values the bridge runs with.
pub struct ConfigToml {
    /// Port the encrypted WebSocket server accepts connections on.
    pub wss_port: u16,
    /// Port the OSC datagram listener binds to.
    pub osc_port: u16,
    /// Whether each relayed message is also printed.
    pub debug: bool,
}

} // verus!
