//! Error values returned by the engine, the server loop and the client.

use vstd::prelude::*;

verus! {

/// Spec-level image of a [`ServerError`]: strings are their character sequences.
pub enum ServerErrorV {
    SpaceNotFound(Seq<char>),
    KeyNotFound(Seq<char>, Seq<char>),
    SpaceAlreadyExists(Seq<char>),
    AofWriteFailed,
    AofReadFailed,
    InvalidKey(Seq<char>),
    InvalidSpaceName,
    ValueTooLarge,
}

/// An error produced by the storage engine and carried inside a `Response`.
#[derive(Debug, Clone, PartialEq, Eq)]
pub enum ServerError {
    SpaceNotFound(String),
    KeyNotFound(String, String),
    SpaceAlreadyExists(String),
    AofWriteFailed,
    AofReadFailed,
    InvalidKey(String),
    InvalidSpaceName,
    ValueTooLarge,
}

impl View for ServerError {
    type V = ServerErrorV;

    open spec fn view(&self) -> ServerErrorV {
        match self {
            ServerError::SpaceNotFound(s) => ServerErrorV::SpaceNotFound(s@),
            ServerError::KeyNotFound(k, s) => ServerErrorV::KeyNotFound(k@, s@),
            ServerError::SpaceAlreadyExists(s) => ServerErrorV::SpaceAlreadyExists(s@),
            ServerError::AofWriteFailed => ServerErrorV::AofWriteFailed,
            ServerError::AofReadFailed => ServerErrorV::AofReadFailed,
            ServerError::InvalidKey(r) => ServerErrorV::InvalidKey(r@),
            ServerError::InvalidSpaceName => ServerErrorV::InvalidSpaceName,
            ServerError::ValueTooLarge => ServerErrorV::ValueTooLarge,
        }
    }
}

/// Spec-level image of a [`ClientError`].
pub enum ClientErrorV {
    Io(Seq<char>),
    Protocol(Seq<char>),
    Server(ServerErrorV),
    UnexpectedResponse,
    Pool(Seq<char>),
    NoConfig,
}

/// An error surfaced to a caller of the client library.
#[derive(Debug, Clone, PartialEq, Eq)]
pub enum ClientError {
    /// A transport fault, carrying the text of the underlying I/O error.
    Io(String),
    Protocol(String),
    Server(ServerError),
    UnexpectedResponse,
    Pool(String),
    NoConfig,
}

impl View for ClientError {
    type V = ClientErrorV;

    open spec fn view(&self) -> ClientErrorV {
        match self {
            ClientError::Io(s) => ClientErrorV::Io(s@),
            ClientError::Protocol(s) => ClientErrorV::Protocol(s@),
            ClientError::Server(e) => ClientErrorV::Server(e@),
            ClientError::UnexpectedResponse => ClientErrorV::UnexpectedResponse,
            ClientError::Pool(s) => ClientErrorV::Pool(s@),
            ClientError::NoConfig => ClientErrorV::NoConfig,
        }
    }
}

/// Spec-level image of a [`ConnectionError`].
pub enum ConnectionErrorV {
    Io(Seq<char>),
    Protocol(Seq<char>),
    CommandTooLarge,
}

/// An error that ends one server-side connection.
#[derive(Debug, Clone, PartialEq, Eq)]
pub enum ConnectionError {
    /// A transport fault, carrying the text of the underlying I/O error.
    Io(String),
    Protocol(String),
    CommandTooLarge,
}

impl View for ConnectionError {
    type V = ConnectionErrorV;

    open spec fn view(&self) -> ConnectionErrorV {
        match self {
            ConnectionError::Io(s) => ConnectionErrorV::Io(s@),
            ConnectionError::Protocol(s) => ConnectionErrorV::Protocol(s@),
            ConnectionError::CommandTooLarge => ConnectionErrorV::CommandTooLarge,
        }
    }
}

} // verus!
