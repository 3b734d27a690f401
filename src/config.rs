use vstd::prelude::*;
use crate::addr::PeerAddr;
use crate::errors::ServerError;

verus! {

/// What the server is built with: where it listens, the passcode every client
/// must present, and how many clients may be connected at once.
pub struct ServerConfig {
    socket_addr: PeerAddr,
    passcode: String,
    max_clients: usize,
}

impl ServerConfig {
    /// The configuration's invariant: a non-empty passcode and room for at
    /// least one client.
    pub open spec fn wf(&self) -> bool {
        &&& self.spec_passcode().len() > 0
        &&& self.spec_max_clients() > 0
    }

    pub closed spec fn spec_addr(&self) -> Seq<char> {
        self.socket_addr@
    }

    pub closed spec fn spec_passcode(&self) -> Seq<char> {
        self.passcode@
    }

    pub closed spec fn spec_max_clients(&self) -> nat {
        self.max_clients as nat
    }

    /// Validates and builds a configuration. An empty passcode is refused with
    /// `InvalidPasscode`; otherwise a capacity of zero is refused with
    /// `InvalidConfig`.
    pub fn new(socket_addr: PeerAddr, passcode: &str, max_clients: usize) -> (r: Result<
        ServerConfig,
        ServerError,
    >)
        ensures
            passcode@.len() == 0 ==> r matches Err(ServerError::InvalidPasscode),
            passcode@.len() > 0 && max_clients == 0 ==> r matches Err(ServerError::InvalidConfig(_)),
            r is Ok <==> (passcode@.len() > 0 && max_clients > 0),
            r matches Ok(c) ==> {
                &&& c.spec_addr() == socket_addr@
                &&& c.spec_passcode() == passcode@
                &&& c.spec_max_clients() == max_clients as nat
                &&& c.wf()
            },
    {
        if passcode.is_empty() {
            return Err(ServerError::InvalidPasscode);
        }
        if max_clients == 0 {
            return Err(ServerError::InvalidConfig("max_clients must be greater than 0".to_owned()));
        }
        Ok(ServerConfig { socket_addr, passcode: passcode.to_owned(), max_clients })
    }

    /// Where the server listens.
    pub fn socket_addr(&self) -> (r: &PeerAddr)
        ensures
            r@ == self.spec_addr(),
    {
        &self.socket_addr
    }

    /// The passcode clients must present.
    pub fn passcode(&self) -> (r: &str)
        ensures
            r@ == self.spec_passcode(),
    {
        self.passcode.as_str()
    }

    /// How many clients may be connected at once.
    pub fn max_clients(&self) -> (r: usize)
        ensures
            r as nat == self.spec_max_clients(),
    {
        self.max_clients
    }
}

} // verus!
