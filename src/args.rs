//! Command-line arguments of the mock server.
use vstd::prelude::*;

verus! {

/// The port served when none is given.
pub const DEFAULT_PORT: u16 = 8080;

/// What the server is started with: the document to serve, and the port.
pub struct Args {
    /// Path of the OpenAPI document (YAML or JSON).
    pub spec: String,
    pub port: Option<u16>,
}

impl Args {
    /// The port to listen on: the one given, else `DEFAULT_PORT`.
    pub fn listen_port(&self) -> (r: u16)
        ensures
            r == match self.port {
                Some(p) => p,
                None => DEFAULT_PORT,
            },
    {
        match self.port {
            Some(p) => p,
            None => DEFAULT_PORT,
        }
    }
}

} // verus!
