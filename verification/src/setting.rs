//! The service's configuration values. Loading them from configuration
//! files and the environment is the embedding process's concern; the types
//! here only carry the loaded values.

use vstd::prelude::*;

verus! {

/// Where the backing document store lives.
#[derive(Debug)]
pub struct Database {
    address: String,
    name: String,
}

/// The mathematical value of a [`Database`] configuration.
pub struct DatabaseView {
    pub address: Seq<char>,
    pub name: Seq<char>,
}

impl View for Database {
    type V = DatabaseView;

    closed spec fn view(&self) -> DatabaseView {
        DatabaseView { address: self.address@, name: self.name@ }
    }
}

/// Where the HTTP server listens.
#[derive(Debug)]
pub struct Server {
    host: String,
    port: u32,
}

/// The mathematical value of a [`Server`] configuration.
pub struct ServerView {
    pub host: Seq<char>,
    pub port: u32,
}

impl View for Server {
    type V = ServerView;

    closed spec fn view(&self) -> ServerView {
        ServerView { host: self.host@, port: self.port }
    }
}

/// The whole configuration: server and database sections.
#[derive(Debug)]
pub struct Settings {
    server: Server,
    database: Database,
}

/// The mathematical value of a [`Settings`] configuration.
pub struct SettingsView {
    pub server: ServerView,
    pub database: DatabaseView,
}

impl View for Settings {
    type V = SettingsView;

    closed spec fn view(&self) -> SettingsView {
        SettingsView { server: self.server@, database: self.database@ }
    }
}

impl Settings {
    pub fn new(server: Server, database: Database) -> (r: Self)
        ensures
            r@.server == server@,
            r@.database == database@,
    {
        Settings { server, database }
    }

    pub fn server(&self) -> (r: &Server)
        ensures
            r@ == self@.server,
    {
        &self.server
    }

    pub fn database(&self) -> (r: &Database)
        ensures
            r@ == self@.database,
    {
        &self.database
    }
}

impl Server {
    pub fn new(host: &str, port: u32) -> (r: Self)
        ensures
            r@.host == host@,
            r@.port == port,
    {
        Server { host: host.to_owned(), port }
    }

    pub fn port(&self) -> (r: u32)
        ensures
            r == self@.port,
    {
        self.port
    }

    pub fn host(&self) -> (r: &str)
        ensures
            r@ == self@.host,
    {
        self.host.as_str()
    }
}

impl Database {
    pub fn new(address: &str, name: &str) -> (r: Self)
        ensures
            r@.address == address@,
            r@.name == name@,
    {
        Database { address: address.to_owned(), name: name.to_owned() }
    }

    pub fn address(&self) -> (r: &str)
        ensures
            r@ == self@.address,
    {
        self.address.as_str()
    }

    pub fn name(&self) -> (r: &str)
        ensures
            r@ == self@.name,
    {
        self.name.as_str()
    }
}

} // verus!
