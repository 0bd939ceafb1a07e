//! The service's configuration, as loaded once at start.
use vstd::prelude::*;

verus! {

/// Where the HTTP server listens.
#[derive(Debug)]
pub struct Server {
    pub port: u16,
}

/// How to reach the database.
#[derive(Debug)]
pub struct Database {
    pub url: String,
}

/// How much to log.
#[derive(Debug)]
pub struct Logger {
    pub level: String,
}

/// The shared secret that signs and checks tokens.
#[derive(Debug)]
pub struct Auth {
    pub secret: String,
}

/// All of the configuration.
#[derive(Debug)]
pub struct Settings {
    pub debug: bool,
    pub server: Server,
    pub database: Database,
    pub logger: Logger,
    pub auth: Auth,
}

impl Settings {
    /// The settings with the server port replaced by `port` when one is given.
    pub fn with_port(self, port: Option<u16>) -> (r: Settings)
        ensures
            r.server.port == (match port {
                Some(p) => p,
                None => self.server.port,
            }),
            r.debug == self.debug,
            r.database == self.database,
            r.logger == self.logger,
            r.auth == self.auth,
    {
        let mut s = self;
        match port {
            Some(p) => {
                s.server.port = p;
            },
            None => {},
        }
        s
    }
}

} // verus!
