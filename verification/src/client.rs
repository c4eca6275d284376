//! The client's pure half: choosing a backend, and interpreting the
//! responses a connection hands back.
//!
//! The transport itself (sockets, the pool) lives with the caller; what is
//! here decides, for every response shape, what a caller is owed.

use vstd::prelude::*;
use vstd::utf8::{decode_utf8, encode_utf8, valid_utf8};

use crate::codec::bytes_to_string;
use crate::error::{ClientError, ClientErrorV};
use crate::proto::{Response, ResponseV};

verus! {

/// Which backend a client runs against.
#[derive(Debug, Clone, PartialEq, Eq)]
pub enum Backend {
    /// A TCP server, by its `host:port` text.
    Remote(String),
    /// An embedded engine journalling to this path.
    Embedded(String),
}

/// Builds a client configuration. At most one backend can ever be chosen:
/// each setter requires the other backend to be absent, so a builder holding
/// both cannot be constructed; a caller that tries anyway is in programming
/// error and must fail loudly before any I/O.
#[derive(Debug, Clone)]
pub struct ClientBuilder {
    pub max_pool_size: usize,
    pub server_addr: Option<String>,
    pub aof_path: Option<String>,
}

impl ClientBuilder {
    /// At most one backend is configured.
    pub open spec fn wf(&self) -> bool {
        !(self.server_addr is Some && self.aof_path is Some)
    }

    pub fn new() -> (r: ClientBuilder)
        ensures
            r.wf(),
            r.max_pool_size == 1,
            r.server_addr is None,
            r.aof_path is None,
    {
        ClientBuilder { max_pool_size: 1, server_addr: None, aof_path: None }
    }

    pub fn with_server_addr(self, server_addr: String) -> (r: ClientBuilder)
        requires
            self.aof_path is None,
        ensures
            r.wf(),
            r.server_addr == Some(server_addr),
            r.aof_path is None,
            r.max_pool_size == self.max_pool_size,
    {
        ClientBuilder {
            max_pool_size: self.max_pool_size,
            server_addr: Some(server_addr),
            aof_path: None,
        }
    }

    pub fn with_max_pool_size(self, max_pool_size: usize) -> (r: ClientBuilder)
        ensures
            r.max_pool_size == max_pool_size,
            r.server_addr == self.server_addr,
            r.aof_path == self.aof_path,
            self.wf() ==> r.wf(),
    {
        ClientBuilder { max_pool_size, server_addr: self.server_addr, aof_path: self.aof_path }
    }

    pub fn with_aof_path(self, aof_path: String) -> (r: ClientBuilder)
        requires
            self.server_addr is None,
        ensures
            r.wf(),
            r.aof_path == Some(aof_path),
            r.server_addr is None,
            r.max_pool_size == self.max_pool_size,
    {
        ClientBuilder {
            max_pool_size: self.max_pool_size,
            server_addr: None,
            aof_path: Some(aof_path),
        }
    }

    /// Choose the backend. With neither configured the build fails with
    /// `NoConfig` before any I/O; with one configured it names that one.
    pub fn build(&self) -> (r: Result<Backend, ClientError>)
        requires
            self.wf(),
        ensures
            match r {
                Ok(b) => match b {
                    Backend::Remote(a) => (self.server_addr matches Some(x) && a == x),
                    Backend::Embedded(p) => self.server_addr is None && (self.aof_path
                        matches Some(x) && p == x),
                },
                Err(e) => e@ == ClientErrorV::NoConfig && self.server_addr is None
                    && self.aof_path is None,
            },
    {
        match &self.aof_path {
            Some(p) => Ok(Backend::Embedded(p.clone())),
            None => match &self.server_addr {
                Some(a) => Ok(Backend::Remote(a.clone())),
                None => Err(ClientError::NoConfig),
            },
        }
    }
}

impl Default for ClientBuilder {
    fn default() -> (r: ClientBuilder)
        ensures
            r.wf(),
            r.max_pool_size == 1,
            r.server_addr is None,
            r.aof_path is None,
    {
        ClientBuilder::new()
    }
}

/// What `is_space_exists` makes of a response: only `Bool` is the expected
/// shape; anything else, a server error included, is unexpected.
pub fn interpret_exists_response(response: Response) -> (r: Result<bool, ClientError>)
    ensures
        match response@ {
            ResponseV::Bool(b) => r matches Ok(b2) && b2 == b,
            _ => r matches Err(e) && e@ == ClientErrorV::UnexpectedResponse,
        },
{
    match response {
        Response::Bool(b) => Ok(b),
        _ => Err(ClientError::UnexpectedResponse),
    }
}

/// What the unit-returning calls (`create_space`, `delete_space`, `set`,
/// `delete`) make of a response: `Done` succeeds, a server error passes
/// through, any other shape is unexpected.
pub fn interpret_unit_response(response: Response) -> (r: Result<(), ClientError>)
    ensures
        match response@ {
            ResponseV::Done => r is Ok,
            ResponseV::Error(se) => r matches Err(e) && e@ == ClientErrorV::Server(se),
            _ => r matches Err(e) && e@ == ClientErrorV::UnexpectedResponse,
        },
{
    match response {
        Response::Done => Ok(()),
        Response::Error(se) => Err(ClientError::Server(se)),
        _ => Err(ClientError::UnexpectedResponse),
    }
}

/// What `get` makes of a response.
pub fn interpret_value_response(response: Response) -> (r: Result<Option<Vec<u8>>, ClientError>)
    ensures
        match response@ {
            ResponseV::Value(v) => r matches Ok(v2) && (match (v, v2) {
                (Some(b), Some(b2)) => b2@ == b,
                (None, None) => true,
                _ => false,
            }),
            ResponseV::Error(se) => r matches Err(e) && e@ == ClientErrorV::Server(se),
            _ => r matches Err(e) && e@ == ClientErrorV::UnexpectedResponse,
        },
{
    match response {
        Response::Value(v) => Ok(v),
        Response::Error(se) => Err(ClientError::Server(se)),
        _ => Err(ClientError::UnexpectedResponse),
    }
}

/// What `list_keys` makes of a response.
pub fn interpret_keys_response(response: Response) -> (r: Result<Vec<String>, ClientError>)
    ensures
        match response@ {
            ResponseV::Keys(ks) => r matches Ok(ks2) && ks2.deep_view() == ks,
            ResponseV::Error(se) => r matches Err(e) && e@ == ClientErrorV::Server(se),
            _ => r matches Err(e) && e@ == ClientErrorV::UnexpectedResponse,
        },
{
    match response {
        Response::Keys(ks) => Ok(ks),
        Response::Error(se) => Err(ClientError::Server(se)),
        _ => Err(ClientError::UnexpectedResponse),
    }
}

/// The UTF-8 bytes a `set_string` stores for a string value.
pub fn string_to_bytes(s: &str) -> (r: Vec<u8>)
    ensures
        r@ == encode_utf8(s@),
{
    s.as_bytes_vec()
}

/// What `get_string` makes of a fetched value: absent stays absent, valid
/// UTF-8 decodes, anything else is a protocol error.
pub fn interpret_string_value(v: Option<Vec<u8>>) -> (r: Result<Option<String>, ClientError>)
    ensures
        match v {
            Some(b) => match r {
                Ok(s) => s matches Some(s2) && valid_utf8(b@) && s2@ == decode_utf8(b@),
                Err(e) => !valid_utf8(b@) && e@ == ClientErrorV::Protocol("Invalid UTF-8"@),
            },
            None => r matches Ok(s) && s is None,
        },
{
    match v {
        Some(b) => match bytes_to_string(b) {
            Some(s) => Ok(Some(s)),
            None => Err(ClientError::Protocol(String::from_str("Invalid UTF-8"))),
        },
        None => Ok(None),
    }
}

} // verus!
