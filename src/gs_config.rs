use vstd::prelude::*;

use crate::config::{Connection, Database, Runtime};

verus! {

/// The game server's listener for clients.
#[derive(Debug, Clone)]
pub struct ClientListener {
    pub connection: Connection,
}

/// Where the game server reaches the login server.
#[derive(Debug, Clone)]
pub struct LoginServerConnector {
    pub connection: Connection,
}

#[derive(Debug, Clone)]
pub struct Listeners {
    pub clients: ClientListener,
    pub login_server: LoginServerConnector,
}

#[derive(Debug, Clone, Copy)]
pub struct Client {
    pub timeout: u8,
}

/// The game server's configuration.
#[derive(Debug, Clone)]
pub struct GSServer {
    pub name: String,
    pub blowfish_key: String,
    pub runtime: Option<Runtime>,
    pub listeners: Listeners,
    pub database: Database,
    pub client: Client,
}

impl GSServer {
    pub fn runtime(&self) -> (r: Option<Runtime>)
        ensures
            r == self.runtime,
    {
        self.runtime
    }

    pub fn database(&self) -> (r: &Database)
        ensures
            *r == self.database,
    {
        &self.database
    }
}

} // verus!
