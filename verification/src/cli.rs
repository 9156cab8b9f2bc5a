//! The command-line surface as plain values: the process outside parses its
//! arguments into a [`Cli`] and asks this module for the effective address
//! parts.

use vstd::prelude::*;

verus! {

/// Whether the process runs as the chat client or the chat server.
#[derive(Debug, Clone, Copy, PartialEq, Eq, Structural)]
#[allow(clippy::upper_case_acronyms)]
pub enum Modes {
    CLIENT,
    SERVER,
}

/// The parsed command line: optional address parts and the mode.
#[derive(Debug)]
pub struct Cli {
    pub hostname: Option<String>,
    pub port: Option<u16>,
    /// Admin console port; only meaningful for the server.
    pub web_port: Option<u16>,
    pub mode: Modes,
}

/// The port used when none is given.
pub const DEFAULT_PORT: u16 = 11111;

impl Cli {
    /// The TCP port to use: the given one, or the default.
    pub fn effective_port(&self) -> (r: u16)
        ensures
            self.port matches Some(p) ==> r == p,
            self.port is None ==> r == DEFAULT_PORT,
    {
        match &self.port {
            Some(p) => *p,
            None => DEFAULT_PORT,
        }
    }

    /// The hostname to use: the given one, or the mode's default — clients
    /// connect to the loopback address, servers listen on every interface.
    pub fn effective_hostname(&self) -> (r: String)
        ensures
            self.hostname matches Some(h) ==> r@ == h@,
            self.hostname is None && self.mode is CLIENT ==> r@ == "127.0.0.1"@,
            self.hostname is None && self.mode is SERVER ==> r@ == "0.0.0.0"@,
    {
        match &self.hostname {
            Some(h) => h.clone(),
            None => match self.mode {
                Modes::CLIENT => String::from_str("127.0.0.1"),
                Modes::SERVER => String::from_str("0.0.0.0"),
            },
        }
    }
}

} // verus!
