use vstd::prelude::*;

verus! {

/// The session configuration: server, credentials, the action to run, the
/// optional interval (in seconds) and the verbosity level.
pub struct Cli {
    pub server: String,
    pub port: u16,
    pub username: String,
    pub password: String,
    pub interval: Option<u64>,
    pub command: String,
    pub verbose: u8,
}

impl Cli {
    /// Whether every server line and the negotiated cipher suite are echoed.
    pub fn is_verbose(&self) -> (r: bool)
        ensures
            r == (self.verbose > 0),
    {
        self.verbose > 0
    }
}

} // verus!
