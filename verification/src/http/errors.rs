//! The errors of request handling, and the response that each one becomes.

use super::headers::{CONTENT_LENGTH, SERVER, WWW_AUTHENTICATE};
use super::response::{Response, Status};
use super::string_map::{key_index, Pair};
use super::ParseError;
use crate::text::lemma_trimmed_same;
use vstd::prelude::*;
use vstd::string::StringExecFns;

verus! {

/// The realm that an authentication challenge names where none is given.
pub const DEFAULT_REALM: &'static str = "WallyWorld";

/// Errors for which the client is to blame.
#[derive(Debug, Clone, Copy, PartialEq, Eq, Structural)]
pub enum ClientError {
    BadRequest,
    Unauthorized,
    NotFound,
    MethodNotAllowed,
}

/// Errors for which the server is to blame.
#[derive(Debug, Clone, Copy, PartialEq, Eq, Structural)]
pub enum ServerError {
    InternalServerError,
    MethodNotImplemented,
    BadGateway,
    ServiceUnavailable,
}

/// Any error of request handling.
#[derive(Debug, Clone, Copy, PartialEq, Eq, Structural)]
pub enum HttpError {
    ClientError(ClientError),
    ServerError(ServerError),
}

/// The value of the `WWW-Authenticate` header that asks for basic
/// credentials in `realm`.
pub open spec fn challenge(realm: Seq<char>) -> Seq<char> {
    "Basic realm=\""@ + realm + "\""@
}

/// The fields that the response to an error with the given status carries
/// besides the fixed ones: the challenge where the status is `Unauthorized`,
/// nothing otherwise.
pub open spec fn error_fields(status: Status, realm: Seq<char>) -> Seq<Pair> {
    if status == Status::Unauthorized {
        seq![(WWW_AUTHENTICATE@, challenge(realm))]
    } else {
        Seq::empty()
    }
}

/// Whether `response` is the response to an error with the given status:
/// that status, an empty body, and the challenge where it is owed.
pub open spec fn is_error_response(response: Response, status: Status, realm: Seq<char>) -> bool {
    &&& response.status() == status
    &&& response.body() == Seq::<char>::empty()
    &&& response.added_fields() == error_fields(status, realm)
}

/// The challenge for `realm`, as a string.
pub fn challenge_for(realm: &str) -> (value: String)
    ensures
        value@ == challenge(realm@),
{
    let mut value = "Basic realm=\"".to_owned();
    value.append(realm);
    value.append("\"");
    value
}

fn error_response(status: Status, realm: &str) -> (response: Response)
    ensures
        is_error_response(response, status, realm@),
{
    let mut response = Response::new();
    if status == Status::Unauthorized {
        let value = challenge_for(realm);
        proof {
            reveal_strlit("WWW-Authenticate");
            reveal_strlit("Basic realm=\"");
            reveal_strlit("\"");
            reveal_strlit("Server");
            reveal_strlit("Content-Length");
            lemma_trimmed_same(WWW_AUTHENTICATE@);
            lemma_trimmed_same(value@);
            assert(WWW_AUTHENTICATE@.len() == 16);
            assert(SERVER@.len() == 6);
            assert(CONTENT_LENGTH@.len() == 14);
        }
        response.add_header(WWW_AUTHENTICATE, value.as_str());
        proof {
            assert(key_index(Seq::<Pair>::empty(), WWW_AUTHENTICATE@) == 0);
            assert(response.added_fields() == seq![(WWW_AUTHENTICATE@, value@)]);
        }
    }
    response.set_status_code(status);
    response
}

impl ClientError {
    /// The status that reports the error.
    pub open spec fn status(self) -> Status {
        match self {
            ClientError::BadRequest => Status::InvalidRequest,
            ClientError::Unauthorized => Status::Unauthorized,
            ClientError::MethodNotAllowed => Status::MethodNotAllowed,
            ClientError::NotFound => Status::NotFound,
        }
    }

    /// The status that reports the error.
    pub fn status_code(&self) -> (status: Status)
        ensures
            status == self.status(),
    {
        match self {
            ClientError::BadRequest => Status::InvalidRequest,
            ClientError::Unauthorized => Status::Unauthorized,
            ClientError::MethodNotAllowed => Status::MethodNotAllowed,
            ClientError::NotFound => Status::NotFound,
        }
    }

    /// The response that reports the error; `Unauthorized` carries a
    /// challenge for the default realm.
    pub fn to_response(self) -> (response: Response)
        ensures
            is_error_response(response, self.status(), DEFAULT_REALM@),
    {
        self.to_response_in(DEFAULT_REALM)
    }

    /// The response that reports the error; `Unauthorized` carries a
    /// challenge for `realm`.
    pub fn to_response_in(self, realm: &str) -> (response: Response)
        ensures
            is_error_response(response, self.status(), realm@),
    {
        error_response(self.status_code(), realm)
    }
}

impl ServerError {
    /// The status that reports the error.
    pub open spec fn status(self) -> Status {
        match self {
            ServerError::InternalServerError => Status::InternalServerError,
            ServerError::MethodNotImplemented => Status::NotImplemented,
            ServerError::BadGateway => Status::BadGateway,
            ServerError::ServiceUnavailable => Status::ServiceUnavailable,
        }
    }

    /// The status that reports the error.
    pub fn status_code(&self) -> (status: Status)
        ensures
            status == self.status(),
    {
        match self {
            ServerError::InternalServerError => Status::InternalServerError,
            ServerError::MethodNotImplemented => Status::NotImplemented,
            ServerError::BadGateway => Status::BadGateway,
            ServerError::ServiceUnavailable => Status::ServiceUnavailable,
        }
    }

    /// The response that reports the error.
    pub fn to_response(self) -> (response: Response)
        ensures
            is_error_response(response, self.status(), DEFAULT_REALM@),
    {
        error_response(self.status_code(), DEFAULT_REALM)
    }
}

impl HttpError {
    /// The status that reports the error.
    pub open spec fn status(self) -> Status {
        match self {
            HttpError::ClientError(e) => e.status(),
            HttpError::ServerError(e) => e.status(),
        }
    }

    /// The response that reports the error; `Unauthorized` carries a
    /// challenge for the default realm.
    pub fn to_response(self) -> (response: Response)
        ensures
            is_error_response(response, self.status(), DEFAULT_REALM@),
    {
        match self {
            HttpError::ClientError(e) => e.to_response(),
            HttpError::ServerError(e) => e.to_response(),
        }
    }

    /// The response that reports the error; `Unauthorized` carries a
    /// challenge for `realm`.
    pub fn to_response_in(self, realm: &str) -> (response: Response)
        ensures
            is_error_response(response, self.status(), realm@),
    {
        match self {
            HttpError::ClientError(e) => e.to_response_in(realm),
            HttpError::ServerError(e) => e.to_response(),
        }
    }
}

impl From<ParseError> for HttpError {
    fn from(_error: ParseError) -> (error: HttpError) {
        HttpError::ClientError(ClientError::BadRequest)
    }
}

impl vstd::std_specs::convert::FromSpecImpl<ParseError> for HttpError {
    open spec fn obeys_from_spec() -> bool {
        true
    }

    open spec fn from_spec(_error: ParseError) -> HttpError {
        HttpError::ClientError(ClientError::BadRequest)
    }
}

} // verus!
