//! Responses: the status line, the header fields and the body, and the
//! text that they make on the wire.

use super::headers::{header_line, header_lines, Headers, CONTENT_LENGTH, SERVER};
use super::string_map::{
    distinct_keys, lemma_key_index, lemma_last_wins, lemma_to_map_concat, lemma_to_map_keys,
    lemma_upsert, to_map, upsert, Pair,
};
use super::{crlf, line_end, HttpVerion};
use crate::text::{
    decimal, decimal_digits, decimal_value, equal, lemma_decimal_round_trip, trim, trimmed,
};
use vstd::prelude::*;
use vstd::string::StrSliceExecFns;
use vstd::string::StringExecFns;
use vstd::utf8::encode_utf8;

verus! {

/// The value of the `Server` header of every response.
pub const SERVER_NAME: &'static str = "yaw";

/// The protocol version that every status line names.
pub const HTTP_VERSION: &'static str = "HTTP/1.1";

/// The status of a response.
#[derive(Debug, Clone, Copy, PartialEq, Eq, Structural)]
pub enum Status {
    Okay,
    Found,
    NotFound,
    NotImplemented,
    InvalidRequest,
    Unauthorized,
    MethodNotAllowed,
    InternalServerError,
    BadGateway,
    ServiceUnavailable,
}

impl Status {
    /// The numeric status code.
    pub open spec fn number(self) -> nat {
        match self {
            Status::Okay => 200,
            Status::Found => 302,
            Status::NotFound => 404,
            Status::NotImplemented => 501,
            Status::InvalidRequest => 400,
            Status::Unauthorized => 401,
            Status::MethodNotAllowed => 405,
            Status::InternalServerError => 500,
            Status::BadGateway => 502,
            Status::ServiceUnavailable => 503,
        }
    }

    /// The reason phrase that goes with the status.
    pub open spec fn reason(self) -> Seq<char> {
        match self {
            Status::Okay => "Ok"@,
            Status::Found => "Found"@,
            Status::NotFound => "Not Found"@,
            Status::NotImplemented => "Not Implemented"@,
            Status::InvalidRequest => "Invalid Request"@,
            Status::Unauthorized => "Unauthorized"@,
            Status::MethodNotAllowed => "Method Not Allowed"@,
            Status::InternalServerError => "Internal Server Error"@,
            Status::BadGateway => "Bad Gateway"@,
            Status::ServiceUnavailable => "Service Unavailable"@,
        }
    }

    /// The numeric status code.
    pub fn code(&self) -> (code: u16)
        ensures
            code == self.number(),
    {
        match self {
            Status::Okay => 200,
            Status::Found => 302,
            Status::NotFound => 404,
            Status::NotImplemented => 501,
            Status::InvalidRequest => 400,
            Status::Unauthorized => 401,
            Status::MethodNotAllowed => 405,
            Status::InternalServerError => 500,
            Status::BadGateway => 502,
            Status::ServiceUnavailable => 503,
        }
    }

    /// The reason phrase that goes with the status.
    pub fn get_reason_phrase(&self) -> (phrase: String)
        ensures
            phrase@ == self.reason(),
    {
        match self {
            Status::Okay => "Ok".to_owned(),
            Status::Found => "Found".to_owned(),
            Status::NotFound => "Not Found".to_owned(),
            Status::NotImplemented => "Not Implemented".to_owned(),
            Status::InvalidRequest => "Invalid Request".to_owned(),
            Status::Unauthorized => "Unauthorized".to_owned(),
            Status::MethodNotAllowed => "Method Not Allowed".to_owned(),
            Status::InternalServerError => "Internal Server Error".to_owned(),
            Status::BadGateway => "Bad Gateway".to_owned(),
            Status::ServiceUnavailable => "Service Unavailable".to_owned(),
        }
    }
}

/// The status line of a response with the given status, without its line
/// end: version, space, code in decimal, space, reason phrase.
pub open spec fn status_line_text(status: Status) -> Seq<char> {
    HTTP_VERSION@ + seq![' '] + decimal_digits(status.number()) + seq![' '] + status.reason()
}

/// The first line of a response.
pub struct StatusLine {
    http_version: HttpVerion,
    status_code: Status,
    reason_phrase: String,
}

impl StatusLine {
    #[verifier::type_invariant]
    spec fn consistent(self) -> bool {
        &&& self.http_version@ == HTTP_VERSION@
        &&& self.reason_phrase@ == self.status_code.reason()
    }

    /// The status that the line reports.
    pub closed spec fn status(self) -> Status {
        self.status_code
    }

    /// The protocol version that the line names.
    pub closed spec fn version(self) -> Seq<char> {
        self.http_version@
    }

    /// The reason phrase that the line gives.
    pub closed spec fn phrase(self) -> Seq<char> {
        self.reason_phrase@
    }

    /// The status line of a successful response.
    pub fn new() -> (line: StatusLine)
        ensures
            line.status() == Status::Okay,
            line.version() == HTTP_VERSION@,
            line.phrase() == Status::Okay.reason(),
    {
        StatusLine {
            http_version: HTTP_VERSION.to_owned(),
            status_code: Status::Okay,
            reason_phrase: Status::Okay.get_reason_phrase(),
        }
    }

    /// Sets the status, and the reason phrase with it.
    pub fn set_status_code(&mut self, status_code: Status)
        ensures
            final(self).status() == status_code,
            final(self).version() == HTTP_VERSION@,
            final(self).phrase() == status_code.reason(),
    {
        *self = StatusLine {
            http_version: HTTP_VERSION.to_owned(),
            status_code,
            reason_phrase: status_code.get_reason_phrase(),
        };
    }

    /// The status that the line reports.
    pub fn get_status_code(&self) -> (status: &Status)
        ensures
            *status == self.status(),
    {
        &self.status_code
    }

    /// The line as text, without its line end. Its version is always
    /// `HTTP/1.1`, and its phrase the one that goes with its status.
    pub fn to_string(&self) -> (out: String)
        ensures
            out@ == status_line_text(self.status()),
            self.version() == HTTP_VERSION@,
            self.phrase() == self.status().reason(),
    {
        proof {
            use_type_invariant(self);
            reveal_strlit(" ");
        }
        let mut out = self.http_version.clone();
        out.append(" ");
        out.append(decimal(self.status_code.code() as usize).as_str());
        out.append(" ");
        out.append(self.reason_phrase.as_str());
        proof {
            assert(" "@ == seq![' ']);
        }
        out
    }
}

/// The number of bytes that a body takes on the wire.
pub open spec fn body_length(body: Seq<char>) -> nat {
    encode_utf8(body).len()
}

/// The two fields that every response carries, whatever else was set: the
/// name of the server and the length of the body.
pub open spec fn fixed_fields(body: Seq<char>) -> Seq<Pair> {
    seq![(SERVER@, SERVER_NAME@), (CONTENT_LENGTH@, decimal_digits(body_length(body)))]
}

/// Whether a header name is one of the two that a response sets by itself.
pub open spec fn is_fixed_name(name: Seq<char>) -> bool {
    name == SERVER@ || name == CONTENT_LENGTH@
}

/// A response as it stands on the wire: status line, header lines, an
/// empty line, and the body.
pub open spec fn wire_text(status: Status, fields: Seq<Pair>, body: Seq<char>) -> Seq<char> {
    status_line_text(status) + line_end() + header_lines(fields) + line_end() + body
}

/// A response: built up while a request is routed, then written out.
pub struct Response {
    status_line: StatusLine,
    headers: Headers,
    body: String,
}

impl Response {
    #[verifier::type_invariant]
    spec fn fixed_names_are_free(self) -> bool {
        &&& distinct_keys(self.headers.fields())
        &&& forall|i: int|
            0 <= i < self.headers.fields().len() ==> !is_fixed_name(
                (#[trigger] self.headers.fields()[i]).0,
            )
    }

    /// The status of the response.
    pub closed spec fn status(self) -> Status {
        self.status_line.status()
    }

    /// The fields that were added to the response, in the order in which
    /// their names first came.
    pub closed spec fn added_fields(self) -> Seq<Pair> {
        self.headers.fields()
    }

    /// The body of the response.
    pub closed spec fn body(self) -> Seq<char> {
        self.body@
    }

    /// All the header fields of the response, in the order in which they
    /// are written: the fixed ones, then the added ones.
    pub open spec fn fields(self) -> Seq<Pair> {
        fixed_fields(self.body()) + self.added_fields()
    }

    /// The header fields as a map from name to value.
    pub open spec fn headers(self) -> Map<Seq<char>, Seq<char>> {
        to_map(self.fields())
    }

    /// The response as it stands on the wire.
    pub open spec fn text(self) -> Seq<char> {
        wire_text(self.status(), self.fields(), self.body())
    }

    /// A successful response with an empty body.
    pub fn new() -> (response: Response)
        ensures
            response.status() == Status::Okay,
            response.added_fields() == Seq::<Pair>::empty(),
            response.body() == Seq::<char>::empty(),
    {
        Response { status_line: StatusLine::new(), headers: Headers::new(), body: String::new() }
    }

    /// Sets the status.
    pub fn set_status_code(&mut self, status_code: Status)
        ensures
            final(self).status() == status_code,
            final(self).added_fields() == old(self).added_fields(),
            final(self).body() == old(self).body(),
    {
        proof {
            use_type_invariant(&*self);
        }
        let mut line = StatusLine::new();
        line.set_status_code(status_code);
        self.status_line = line;
    }

    /// Sets the field named `header_key`, trimmed, to `header_value`,
    /// trimmed. The names `Server` and `Content-Length` belong to the
    /// response itself: a call that names one of them changes nothing.
    pub fn add_header(&mut self, header_key: &str, header_value: &str)
        ensures
            final(self).status() == old(self).status(),
            final(self).body() == old(self).body(),
            final(self).added_fields() == if is_fixed_name(trimmed(header_key@)) {
                old(self).added_fields()
            } else {
                upsert(old(self).added_fields(), trimmed(header_key@), trimmed(header_value@))
            },
    {
        proof {
            use_type_invariant(&*self);
        }
        let name = trim(header_key);
        if equal(name.as_str(), SERVER) || equal(name.as_str(), CONTENT_LENGTH) {
            return;
        }
        let mut headers = Headers::new();
        std::mem::swap(&mut headers, &mut self.headers);
        let ghost before = headers.fields();
        headers.add_header(header_key, header_value);
        proof {
            lemma_upsert(before, name@, trimmed(header_value@));
            lemma_key_index(before, name@);
            let after = headers.fields();
            assert forall|i: int| 0 <= i < after.len() implies !is_fixed_name(
                (#[trigger] after[i]).0,
            ) by {
                if i < before.len() && after[i].0 != name@ {
                    assert(after[i] == before[i]);
                }
            }
        }
        self.headers = headers;
    }

    /// Sets the body. The `Content-Length` field follows by itself.
    pub fn set_body(&mut self, content: String)
        ensures
            final(self).status() == old(self).status(),
            final(self).added_fields() == old(self).added_fields(),
            final(self).body() == content@,
    {
        proof {
            use_type_invariant(&*self);
        }
        self.body = content;
    }

    /// The status of the response.
    pub fn get_status_code(&self) -> (status: &Status)
        ensures
            *status == self.status(),
    {
        self.status_line.get_status_code()
    }

    /// The value of the header field named `header`, if the response has
    /// it. The name is matched exactly.
    pub fn get_header(&self, header: &str) -> (value: Option<String>)
        ensures
            match value {
                Some(found) => self.headers().contains_key(header@) && found@
                    == self.headers()[header@],
                None => !self.headers().contains_key(header@),
            },
    {
        proof {
            use_type_invariant(self);
            self.lemma_fields();
            lemma_to_map_concat(fixed_fields(self.body()), self.added_fields());
            lemma_to_map_keys(fixed_fields(self.body()), header@);
        }
        if equal(header, SERVER) {
            Some(SERVER_NAME.to_owned())
        } else if equal(header, CONTENT_LENGTH) {
            Some(decimal(self.content_length()))
        } else {
            match self.headers.get_header(header) {
                Some(found) => Some(found.clone()),
                None => None,
            }
        }
    }

    /// The length of the body in bytes, which the `Content-Length` field
    /// reports.
    pub fn content_length(&self) -> (length: usize)
        ensures
            length == body_length(self.body()),
    {
        self.body.as_str().as_bytes().len()
    }

    /// The response as text: the status line, one line for each header
    /// field, an empty line, and the body. `Server` and `Content-Length`
    /// come first and occur once; no name occurs twice.
    pub fn to_string(&self) -> (out: String)
        ensures
            out@ == self.text(),
            distinct_keys(self.fields()),
            self.headers().contains_key(CONTENT_LENGTH@),
            self.headers()[CONTENT_LENGTH@] == decimal_digits(body_length(self.body())),
            self.headers().contains_key(SERVER@),
            self.headers()[SERVER@] == SERVER_NAME@,
    {
        proof {
            use_type_invariant(self);
            self.lemma_fields();
        }
        let mut out = self.status_line.to_string();
        out.append(crlf());
        out.append(SERVER);
        out.append(": ");
        out.append(SERVER_NAME);
        out.append(crlf());
        out.append(CONTENT_LENGTH);
        out.append(": ");
        out.append(decimal(self.content_length()).as_str());
        out.append(crlf());
        let ghost head = out@;
        out.append(self.headers.to_string().as_str());
        out.append(crlf());
        out.append(self.body.as_str());
        proof {
            reveal_strlit(": ");
            assert(": "@ == seq![':', ' ']);
            lemma_wire_text_states_length(self.status(), self.added_fields(), self.body());
            assert(head == status_line_text(self.status()) + line_end() + header_line(
                (SERVER@, SERVER_NAME@),
            ) + header_line((CONTENT_LENGTH@, decimal_digits(body_length(self.body())))));
        }
        out
    }

    /// The response as the bytes that go out on the wire.
    pub fn serialize(&self) -> (bytes: Vec<u8>)
        ensures
            bytes@ == encode_utf8(self.text()),
    {
        self.to_string().as_str().as_bytes_vec()
    }

    proof fn lemma_fields(self)
        requires
            self.fixed_names_are_free(),
        ensures
            distinct_keys(self.fields()),
            self.headers().contains_key(CONTENT_LENGTH@),
            self.headers()[CONTENT_LENGTH@] == decimal_digits(body_length(self.body())),
            self.headers().contains_key(SERVER@),
            self.headers()[SERVER@] == SERVER_NAME@,
    {
        reveal_strlit("Server");
        reveal_strlit("Content-Length");
        let fields = self.fields();
        let added = self.added_fields();
        assert(SERVER@ != CONTENT_LENGTH@) by {
            assert(SERVER@.len() == 6);
            assert(CONTENT_LENGTH@.len() == 14);
        }
        assert forall|i: int, j: int| 0 <= i < j < fields.len() implies (#[trigger] fields[i]).0
            != (#[trigger] fields[j]).0 by {
            if j >= 2 {
                assert(fields[j] == added[j - 2]);
                if i >= 2 {
                    assert(fields[i] == added[i - 2]);
                }
            }
        }
        lemma_last_wins(fields, 0);
        lemma_last_wins(fields, 1);
    }
}

/// On the wire a response begins with its status line, the `Server` line
/// and the `Content-Length` line; the number that the latter writes is the
/// length of the body in bytes. The added fields, an empty line and the
/// body follow.
pub proof fn lemma_wire_text_states_length(status: Status, added: Seq<Pair>, body: Seq<char>)
    ensures
        wire_text(status, fixed_fields(body) + added, body) == status_line_text(status)
            + line_end() + header_line((SERVER@, SERVER_NAME@)) + header_line(
            (CONTENT_LENGTH@, decimal_digits(body_length(body))),
        ) + header_lines(added) + line_end() + body,
        decimal_value(decimal_digits(body_length(body))) == body_length(body),
{
    let fixed = fixed_fields(body);
    assert(fixed.drop_last() == seq![fixed[0]]);
    assert(fixed.drop_last().drop_last() == Seq::<Pair>::empty());
    assert(header_lines(fixed.drop_last()) == header_lines(fixed.drop_last().drop_last())
        + header_line(fixed[0]));
    assert(header_lines(fixed) == header_line(fixed[0]) + header_line(fixed[1]));
    lemma_header_lines_concat(fixed, added);
    lemma_decimal_round_trip(body_length(body));
}

/// The header lines of two lists, one after the other, are the header
/// lines of the joined list.
pub proof fn lemma_header_lines_concat(first: Seq<Pair>, second: Seq<Pair>)
    ensures
        header_lines(first + second) == header_lines(first) + header_lines(second),
    decreases second.len(),
{
    if second.len() == 0 {
        assert(first + second == first);
    } else {
        lemma_header_lines_concat(first, second.drop_last());
        assert((first + second).drop_last() == first + second.drop_last());
        assert((first + second).last() == second.last());
    }
}

} // verus!
