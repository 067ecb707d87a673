//! The HTTP data model: requests, responses, header fields and errors.

use vstd::prelude::*;

pub mod auth;
pub mod errors;
pub mod headers;
pub mod request;
pub mod response;
pub mod string_map;

verus! {

/// The text of an HTTP version, such as `HTTP/1.1`.
pub type HttpVerion = String;

/// The text of a message body.
pub type Body = String;

/// A request line or header line that does not have the required shape.
#[derive(Debug, Clone, Copy, PartialEq, Eq, Structural)]
pub struct ParseError;

/// The line terminator of the protocol: carriage return, line feed.
pub open spec fn line_end() -> Seq<char> {
    seq!['\r', '\n']
}

/// The line terminator of the protocol, as a string.
pub fn crlf() -> (end: &'static str)
    ensures
        end@ == line_end(),
{
    proof {
        reveal_strlit("\r\n");
    }
    let end = "\r\n";
    assert(end@ =~= line_end());
    end
}

} // verus!
