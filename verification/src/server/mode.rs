use vstd::prelude::*;

verus! {

/// Which commands a server carries out.
#[derive(Debug, Clone, Copy, PartialEq, Eq, Structural)]
pub enum ServerMode {
    /// Clients talk to the server itself.
    Basic,
    /// The server connects clients to a target and relays between them.
    Proxy,
    /// Both of the above.
    Multi,
}

impl ServerMode {
    /// Whether a server in this mode serves clients directly.
    pub open spec fn allows_direct(self) -> bool {
        self == ServerMode::Basic || self == ServerMode::Multi
    }

    /// Whether a server in this mode proxies clients to a target.
    pub open spec fn allows_proxy(self) -> bool {
        self == ServerMode::Proxy || self == ServerMode::Multi
    }
}

impl Default for ServerMode {
    fn default() -> (r: ServerMode)
        ensures
            r == ServerMode::Multi,
    {
        ServerMode::Multi
    }
}

} // verus!
