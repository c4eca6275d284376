//! The server's settings and their defaults. Reading them from a
//! configuration file or the environment is the binary's concern; the record
//! and the default values live here.

use vstd::prelude::*;

verus! {

/// Where the server binds and where it journals.
#[derive(Debug, Clone, PartialEq, Eq)]
pub struct Settings {
    pub host: String,
    pub port: u16,
    pub aof_path: String,
}

/// The host a server binds to when none is configured.
pub fn default_host() -> (r: String)
    ensures
        r@ == "127.0.0.1"@,
{
    String::from_str("127.0.0.1")
}

/// The port a server binds to when none is configured.
pub fn default_port() -> (r: u16)
    ensures
        r == 25500,
{
    25500
}

/// The journal path a server uses when none is configured.
pub fn default_aof_path() -> (r: String)
    ensures
        r@ == "aof.rdb"@,
{
    String::from_str("aof.rdb")
}

impl Default for Settings {
    fn default() -> (r: Settings)
        ensures
            r.host@ == "127.0.0.1"@,
            r.port == 25500,
            r.aof_path@ == "aof.rdb"@,
    {
        Settings { host: default_host(), port: default_port(), aof_path: default_aof_path() }
    }
}

} // verus!
