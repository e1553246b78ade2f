//! Where the server listens.

use vstd::prelude::*;
use vstd::string::*;

verus! {

/// Where the server listens.
#[derive(Debug, PartialEq, Eq)]
pub struct ServerConfig {
    pub ip: String,
    pub port: String,
}

impl ServerConfig {
    /// The address to bind: ip and port with a colon between them.
    pub open spec fn address(self) -> Seq<char> {
        self.ip@ + ":"@ + self.port@
    }

    /// The address to bind.
    pub fn addr(&self) -> (a: String)
        ensures
            a@ == self.address(),
    {
        let mut a = self.ip.clone();
        a.append(":");
        a.append(self.port.as_str());
        a
    }
}

impl Default for ServerConfig {
    /// Every interface, port 2333.
    fn default() -> (config: ServerConfig)
        ensures
            config.ip@ == "0.0.0.0"@,
            config.port@ == "2333"@,
    {
        ServerConfig { ip: "0.0.0.0".to_owned(), port: "2333".to_owned() }
    }
}

} // verus!
