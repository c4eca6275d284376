//! The commands a client issues and the responses a server returns.

use vstd::prelude::*;

use crate::error::{ServerError, ServerErrorV};

verus! {

/// Spec-level image of a [`Command`].
pub enum CommandV {
    Get { space: Seq<char>, key: Seq<char> },
    SetValue { space: Seq<char>, key: Seq<char>, value: Seq<u8> },
    Delete { space: Seq<char>, key: Seq<char> },
    ListSpaces,
    ListKeys { space: Seq<char> },
    DeleteSpace { space: Seq<char> },
    CreateSpace { space: Seq<char> },
    IsSpaceExists { space: Seq<char> },
}

/// One request against the store.
#[derive(Debug, Clone, PartialEq, Eq)]
pub enum Command {
    Get { space: String, key: String },
    SetValue { space: String, key: String, value: Vec<u8> },
    Delete { space: String, key: String },
    ListSpaces,
    ListKeys { space: String },
    DeleteSpace { space: String },
    CreateSpace { space: String },
    IsSpaceExists { space: String },
}

impl View for Command {
    type V = CommandV;

    open spec fn view(&self) -> CommandV {
        match self {
            Command::Get { space, key } => CommandV::Get { space: space@, key: key@ },
            Command::SetValue { space, key, value } => CommandV::SetValue {
                space: space@,
                key: key@,
                value: value@,
            },
            Command::Delete { space, key } => CommandV::Delete { space: space@, key: key@ },
            Command::ListSpaces => CommandV::ListSpaces,
            Command::ListKeys { space } => CommandV::ListKeys { space: space@ },
            Command::DeleteSpace { space } => CommandV::DeleteSpace { space: space@ },
            Command::CreateSpace { space } => CommandV::CreateSpace { space: space@ },
            Command::IsSpaceExists { space } => CommandV::IsSpaceExists { space: space@ },
        }
    }
}

/// Spec-level image of a [`Response`].
pub enum ResponseV {
    Done,
    Value(Option<Seq<u8>>),
    Keys(Seq<Seq<char>>),
    Spaces(Seq<Seq<char>>),
    Bool(bool),
    Error(ServerErrorV),
}

/// One reply to a [`Command`].
#[derive(Debug, Clone, PartialEq, Eq)]
pub enum Response {
    Done,
    Value(Option<Vec<u8>>),
    Keys(Vec<String>),
    Spaces(Vec<String>),
    Bool(bool),
    Error(ServerError),
}

impl View for Response {
    type V = ResponseV;

    open spec fn view(&self) -> ResponseV {
        match self {
            Response::Done => ResponseV::Done,
            Response::Value(v) => ResponseV::Value(
                match v {
                    Some(b) => Some(b@),
                    None => None,
                },
            ),
            Response::Keys(ks) => ResponseV::Keys(ks.deep_view()),
            Response::Spaces(ss) => ResponseV::Spaces(ss.deep_view()),
            Response::Bool(b) => ResponseV::Bool(*b),
            Response::Error(e) => ResponseV::Error(e@),
        }
    }
}

impl From<ServerError> for Response {
    fn from(val: ServerError) -> (r: Response) {
        Response::Error(val)
    }
}

impl vstd::std_specs::convert::FromSpecImpl<ServerError> for Response {
    open spec fn obeys_from_spec() -> bool {
        true
    }

    open spec fn from_spec(val: ServerError) -> Response {
        Response::Error(val)
    }
}

impl From<Vec<u8>> for Response {
    fn from(val: Vec<u8>) -> (r: Response) {
        Response::Value(Some(val))
    }
}

impl vstd::std_specs::convert::FromSpecImpl<Vec<u8>> for Response {
    open spec fn obeys_from_spec() -> bool {
        true
    }

    open spec fn from_spec(val: Vec<u8>) -> Response {
        Response::Value(Some(val))
    }
}

impl From<Option<Vec<u8>>> for Response {
    fn from(val: Option<Vec<u8>>) -> (r: Response) {
        Response::Value(val)
    }
}

impl vstd::std_specs::convert::FromSpecImpl<Option<Vec<u8>>> for Response {
    open spec fn obeys_from_spec() -> bool {
        true
    }

    open spec fn from_spec(val: Option<Vec<u8>>) -> Response {
        Response::Value(val)
    }
}

} // verus!
