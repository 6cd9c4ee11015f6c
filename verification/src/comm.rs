//! The channel between message handling and the TLS transport: the port a
//! node listens on or connects to, and how a listening node serves the
//! connections it accepts.

#![allow(non_camel_case_types)]

use vstd::prelude::*;

verus! {

/// The transport's entry points. The transfers themselves are made by the
/// caller; the choices they rest on are here.
pub struct comm {}

/// The port used when none is given.
pub const DEFAULT_PORT: u16 = 443;

/// How a listening node serves what an accepted connection sends.
#[derive(PartialEq, Eq, Structural, Clone, Copy, Debug)]
pub enum ServerMode {
    /// Send the data back.
    Echo,
    /// Answer as a minimal HTTP server.
    Http,
    /// Forward the data to this local port.
    Forward(u16),
}

impl comm {
    /// The port to listen on or connect to: the one given, or 443.
    pub fn port(flag_port: Option<u16>) -> (p: u16)
        ensures
            p == (match flag_port {
                Some(q) => q,
                None => DEFAULT_PORT,
            }),
    {
        match flag_port {
            Some(q) => q,
            None => DEFAULT_PORT,
        }
    }

    /// How a listening node serves connections: echo when asked to, else
    /// HTTP when asked to, else forwarding to the given port, which must then
    /// be given ("fport required").
    pub fn server_mode(cmd_echo: bool, cmd_http: bool, fport: Option<u16>) -> (m: ServerMode)
        requires
            cmd_echo || cmd_http || fport is Some,
        ensures
            m == (if cmd_echo {
                ServerMode::Echo
            } else if cmd_http {
                ServerMode::Http
            } else {
                ServerMode::Forward(fport->0)
            }),
    {
        if cmd_echo {
            ServerMode::Echo
        } else if cmd_http {
            ServerMode::Http
        } else {
            match fport {
                Some(p) => ServerMode::Forward(p),
                None => ServerMode::Http,
            }
        }
    }
}

} // verus!
