//! Header fields: names with their values, as they are parsed from the wire
//! and written back to it.

use super::string_map::{to_map, upsert, Pair, StringMap};
use super::{crlf, line_end, ParseError};
use crate::text::{
    all_in, is_whitespace, lemma_split_at_first, lemma_trimmed_padded, lemma_trimmed_same,
    split_at_first, split_once, trim, trimmed, CharClass,
};
use vstd::prelude::*;
use vstd::string::StringExecFns;

verus! {

/// The name of the header that carries the authentication challenge.
pub const WWW_AUTHENTICATE: &'static str = "WWW-Authenticate";

/// The name of the header that gives the length of the body in bytes.
pub const CONTENT_LENGTH: &'static str = "Content-Length";

/// The name of the header that identifies the server.
pub const SERVER: &'static str = "Server";

/// One header as it stands on the wire: name, colon, space, value, line end.
pub open spec fn header_line(field: Pair) -> Seq<char> {
    field.0 + seq![':', ' '] + field.1 + line_end()
}

/// The header lines of a list of fields, one after the other.
pub open spec fn header_lines(fields: Seq<Pair>) -> Seq<char>
    decreases fields.len(),
{
    if fields.len() == 0 {
        Seq::empty()
    } else {
        header_lines(fields.drop_last()) + header_line(fields.last())
    }
}

/// The fields after a header line was read: the line is cut at its first
/// colon, and both sides are trimmed; a line without a colon is refused.
pub open spec fn with_header_line(fields: Seq<Pair>, line: Seq<char>) -> Option<Seq<Pair>> {
    match split_at_first(line, ':') {
        Some((name, value)) => Some(upsert(fields, trimmed(name), trimmed(value))),
        None => None,
    }
}

/// A header line that was written from a name without a colon and a value,
/// neither of them empty or with whitespace at either end, reads back as
/// that name with that value.
pub proof fn lemma_header_line_reads_back(fields: Seq<Pair>, name: Seq<char>, value: Seq<char>)
    requires
        all_in(name, CharClass::Except(':')),
        name.len() > 0,
        !is_whitespace(name[0]),
        !is_whitespace(name.last()),
        value.len() > 0,
        !is_whitespace(value[0]),
        !is_whitespace(value.last()),
    ensures
        with_header_line(fields, header_line((name, value))) == Some(upsert(fields, name, value)),
{
    let line = header_line((name, value));
    let tail = seq![' '] + value + line_end();
    assert(line == name + seq![':'] + tail);
    lemma_split_at_first(name, ':', tail);
    lemma_trimmed_same(name);
    lemma_trimmed_padded(seq![' '], value, line_end());
}

/// A set of header fields. Names are matched exactly, letter case included.
pub struct Headers {
    headers: StringMap,
}

impl View for Headers {
    type V = Map<Seq<char>, Seq<char>>;

    open spec fn view(&self) -> Map<Seq<char>, Seq<char>> {
        to_map(self.fields())
    }
}

impl Headers {
    /// The fields in the order in which their names first came.
    pub closed spec fn fields(self) -> Seq<Pair> {
        self.headers.pairs()
    }

    /// No header fields.
    pub fn new() -> (headers: Headers)
        ensures
            headers.fields() == Seq::<Pair>::empty(),
    {
        Headers { headers: StringMap::new() }
    }

    /// Reads one header line, `name: value`, and sets the field. A line
    /// without a colon is an error and changes nothing.
    pub fn parse_and_add_header_from(&mut self, header_field: String) -> (outcome: Result<
        (),
        ParseError,
    >)
        ensures
            match with_header_line(old(self).fields(), header_field@) {
                Some(fields) => outcome is Ok && final(self).fields() == fields,
                None => outcome is Err && final(self).fields() == old(self).fields(),
            },
            match split_at_first(header_field@, ':') {
                Some((name, value)) => final(self)@ == old(self)@.insert(
                    trimmed(name),
                    trimmed(value),
                ),
                None => final(self)@ == old(self)@,
            },
    {
        match split_once(header_field.as_str(), ':') {
            Some((header_key, header_value)) => {
                self.add_header(header_key.as_str(), header_value.as_str());
                Ok(())
            },
            None => Err(ParseError),
        }
    }

    /// The value of the field named `header`, if it is set.
    pub fn get_header(&self, header: &str) -> (value: Option<&String>)
        ensures
            match value {
                Some(found) => self@.contains_key(header@) && found@ == self@[header@],
                None => !self@.contains_key(header@),
            },
    {
        self.headers.get(header)
    }

    /// Sets the field named `header_key`, trimmed, to `header_value`, trimmed.
    /// A name that is set already keeps its place and gets the new value.
    pub fn add_header(&mut self, header_key: &str, header_value: &str)
        ensures
            final(self).fields() == upsert(
                old(self).fields(),
                trimmed(header_key@),
                trimmed(header_value@),
            ),
            final(self)@ == old(self)@.insert(trimmed(header_key@), trimmed(header_value@)),
    {
        self.headers.insert(trim(header_key), trim(header_value));
    }

    /// The number of fields.
    pub fn len(&self) -> (n: usize)
        ensures
            n == self.fields().len(),
    {
        self.headers.len()
    }

    /// The fields as header lines, in their order.
    pub fn to_string(&self) -> (out: String)
        ensures
            out@ == header_lines(self.fields()),
    {
        let mut out = String::new();
        let n = self.headers.len();
        let mut at: usize = 0;
        while at < n
            invariant
                at <= n,
                n == self.fields().len(),
                out@ == header_lines(self.fields().take(at as int)),
            decreases n - at,
        {
            proof {
                reveal_strlit(": ");
                let next = self.fields().take(at + 1);
                assert(next.drop_last() == self.fields().take(at as int));
                assert(next.last() == self.fields()[at as int]);
            }
            let ghost before = out@;
            out.append(self.headers.key_at(at).as_str());
            out.append(": ");
            out.append(self.headers.value_at(at).as_str());
            out.append(crlf());
            proof {
                assert(": "@ == seq![':', ' ']);
                assert(out@ == before + header_line(self.fields()[at as int]));
            }
            at += 1;
        }
        proof {
            assert(self.fields().take(n as int) == self.fields());
        }
        out
    }
}

} // verus!
