//! Requests: the request line, the request target with its query, and the
//! reading of a request head line by line.

use super::errors::{ClientError, HttpError, ServerError};
use super::headers::{with_header_line, Headers};
use super::string_map::{lemma_last_wins, to_map, Pair, StringMap};
use super::{crlf, line_end, Body, HttpVerion, ParseError};
use crate::text::{
    all_in, begins_with, equal, lemma_split_at_first, lemma_split_without_delimiter,
    lemma_tokens_of_blank, lemma_tokens_of_word, split, split_ascii_whitespace, split_at_each,
    split_at_first, split_once, tokens, views, CharClass,
};
use vstd::prelude::*;
use vstd::utf8::encode_utf8;

verus! {

/// The longest line, in bytes and with its line end, that is read as part
/// of a request head.
pub const MAX_LINE_LENGTH: usize = 8192;

/// The request methods that are recognised.
#[derive(Debug, Clone, Copy, PartialEq, Eq, Structural)]
pub enum Method {
    GET,
    POST,
    PUT,
    DELETE,
    HEAD,
}

/// The method that a token names. The match is exact: letter case counts.
pub open spec fn method_of(token: Seq<char>) -> Option<Method> {
    if token == "GET"@ {
        Some(Method::GET)
    } else if token == "POST"@ {
        Some(Method::POST)
    } else if token == "PUT"@ {
        Some(Method::PUT)
    } else if token == "DELETE"@ {
        Some(Method::DELETE)
    } else if token == "HEAD"@ {
        Some(Method::HEAD)
    } else {
        None
    }
}

/// The key and the value of one piece of a query: the piece is cut at its
/// first `=`; a piece without one is a key with an empty value.
pub open spec fn query_pair(piece: Seq<char>) -> Pair {
    match split_at_first(piece, '=') {
        Some((key, value)) => (key, value),
        None => (piece, Seq::empty()),
    }
}

/// The pairs of a query, in the order in which they stand: the query is cut
/// at every `&`.
pub open spec fn query_pairs(query: Seq<char>) -> Seq<Pair> {
    let pieces = split_at_each(query, '&');
    Seq::new(pieces.len(), |i: int| query_pair(pieces[i]))
}

/// The parameters of a query. Where a key occurs more than once, its last
/// value counts.
pub open spec fn query_params(query: Seq<char>) -> Map<Seq<char>, Seq<char>> {
    to_map(query_pairs(query))
}

/// The path of a request target: what stands before its first `?`.
pub open spec fn target_path(target: Seq<char>) -> Seq<char> {
    match split_at_first(target, '?') {
        Some((path, _)) => path,
        None => target,
    }
}

/// The parameters of a request target: those of the query that follows its
/// first `?`, none where there is no `?`.
pub open spec fn target_params(target: Seq<char>) -> Map<Seq<char>, Seq<char>> {
    match split_at_first(target, '?') {
        Some((_, query)) => query_params(query),
        None => Map::empty(),
    }
}

/// Whether a path begins with `/`, as the path of every request does.
pub open spec fn rooted(path: Seq<char>) -> bool {
    path.len() > 0 && path[0] == '/'
}

/// The method, the request target and the version of a request line: its
/// first three tokens, where there are three, the first names a method, and
/// the path of the second begins with `/`.
pub open spec fn request_line_parts(line: Seq<char>) -> Option<(Method, Seq<char>, Seq<char>)> {
    let words = tokens(line);
    if words.len() >= 3 && rooted(target_path(words[1])) {
        match method_of(words[0]) {
            Some(method) => Some((method, words[1], words[2])),
            None => None,
        }
    } else {
        None
    }
}

/// Whether `s` holds ASCII whitespace only.
pub open spec fn is_blank(s: Seq<char>) -> bool {
    all_in(s, CharClass::AsciiWhitespace)
}

/// Whether `s` is not empty and holds no ASCII whitespace.
pub open spec fn is_word(s: Seq<char>) -> bool {
    s.len() > 0 && all_in(s, CharClass::NonAsciiWhitespace)
}

/// A line of three words, set apart by whitespace, with or without
/// whitespace around them, has these three as its tokens: it is a request
/// line exactly when the first word names a method and the path of the
/// second begins with `/`, and then holds the second as its target and the
/// third as its version.
pub proof fn lemma_request_line_of_three_words(
    lead: Seq<char>,
    method: Seq<char>,
    gap: Seq<char>,
    target: Seq<char>,
    space: Seq<char>,
    version: Seq<char>,
    trail: Seq<char>,
)
    requires
        is_blank(lead),
        is_word(method),
        is_blank(gap) && gap.len() > 0,
        is_word(target),
        is_blank(space) && space.len() > 0,
        is_word(version),
        is_blank(trail),
    ensures
        tokens(lead + method + gap + target + space + version + trail) == seq![
            method,
            target,
            version,
        ],
        request_line_parts(lead + method + gap + target + space + version + trail) == match method_of(
            method,
        ) {
            Some(name) if rooted(target_path(target)) => Some((name, target, version)),
            _ => None,
        },
{
    let line = lead + method + gap + target + space + version + trail;
    let after_version = trail;
    let after_target = space + version + trail;
    let after_method = gap + target + after_target;
    assert(line == lead + method + after_method);
    assert(after_method[0] == gap[0]);
    lemma_tokens_of_word(lead, method, after_method);
    assert(after_target[0] == space[0]);
    lemma_tokens_of_word(gap, target, after_target);
    lemma_tokens_of_word(space, version, after_version);
    lemma_tokens_of_blank(trail);
    assert(tokens(line) == seq![method, target, version]);
}

/// A target that is a path without `?`, a `?`, and a query has that path
/// and the parameters of that query.
pub proof fn lemma_target_with_query(path: Seq<char>, query: Seq<char>)
    requires
        all_in(path, CharClass::Except('?')),
    ensures
        target_path(path + seq!['?'] + query) == path,
        target_params(path + seq!['?'] + query) == query_params(query),
{
    lemma_split_at_first(path, '?', query);
}

/// A target without `?` is a path, and has no parameters.
pub proof fn lemma_target_without_query(path: Seq<char>)
    requires
        all_in(path, CharClass::Except('?')),
    ensures
        target_path(path) == path,
        target_params(path) == Map::<Seq<char>, Seq<char>>::empty(),
{
    lemma_split_without_delimiter(path, '?');
}

/// The query that writes the given pairs: `key=value`, joined by `&`.
pub open spec fn query_text(pairs: Seq<Pair>) -> Seq<char>
    decreases pairs.len(),
{
    if pairs.len() == 0 {
        Seq::empty()
    } else if pairs.len() == 1 {
        pairs[0].0 + seq!['='] + pairs[0].1
    } else {
        pairs[0].0 + seq!['='] + pairs[0].1 + seq!['&'] + query_text(pairs.drop_first())
    }
}

/// Whether the pairs can be written as a query: there is one at least, no
/// key holds `=` or `&`, and no value holds `&`.
pub open spec fn writable(pairs: Seq<Pair>) -> bool {
    &&& pairs.len() > 0
    &&& forall|i: int|
        0 <= i < pairs.len() ==> all_in((#[trigger] pairs[i]).0, CharClass::Except('='))
            && all_in(pairs[i].0, CharClass::Except('&')) && all_in(
            pairs[i].1,
            CharClass::Except('&'),
        )
}

/// A query reads back as the pairs that it was written from, in their
/// order, and its parameters are those of the pairs.
pub proof fn lemma_query_reads_back(pairs: Seq<Pair>)
    requires
        writable(pairs),
    ensures
        query_pairs(query_text(pairs)) == pairs,
        query_params(query_text(pairs)) == to_map(pairs),
    decreases pairs.len(),
{
    let first = pairs[0];
    let piece = first.0 + seq!['='] + first.1;
    assert(all_in(piece, CharClass::Except('&'))) by {
        assert forall|i: int| 0 <= i < piece.len() implies CharClass::Except('&').has(
            #[trigger] piece[i],
        ) by {
            if i < first.0.len() {
                assert(piece[i] == first.0[i]);
            } else if i > first.0.len() {
                assert(piece[i] == first.1[i - first.0.len() - 1]);
            }
        }
    }
    lemma_split_at_first(first.0, '=', first.1);
    assert(query_pair(piece) == first);
    if pairs.len() == 1 {
        lemma_split_without_delimiter(piece, '&');
        assert(query_pairs(query_text(pairs)) =~= pairs);
    } else {
        let others = pairs.drop_first();
        assert(writable(others)) by {
            assert forall|i: int| 0 <= i < others.len() implies all_in(
                (#[trigger] others[i]).0,
                CharClass::Except('='),
            ) && all_in(others[i].0, CharClass::Except('&')) && all_in(
                others[i].1,
                CharClass::Except('&'),
            ) by {
                assert(others[i] == pairs[i + 1]);
            }
        }
        lemma_query_reads_back(others);
        lemma_split_at_first(piece, '&', query_text(others));
        let pieces = split_at_each(query_text(pairs), '&');
        let other_pieces = split_at_each(query_text(others), '&');
        assert(pieces == seq![piece] + other_pieces);
        assert forall|i: int| 0 <= i < pairs.len() implies query_pairs(query_text(pairs))[i]
            == pairs[i] by {
            if i > 0 {
                assert(pieces[i] == other_pieces[i - 1]);
                assert(query_pairs(query_text(others))[i - 1] == others[i - 1]);
            }
        }
        assert(query_pairs(query_text(pairs)) =~= pairs);
    }
}

/// Where a key stands more than once in a query, its last value is the one
/// that the parameters hold.
pub proof fn lemma_query_last_wins(query: Seq<char>, at: int)
    requires
        0 <= at < query_pairs(query).len(),
        forall|later: int|
            at < later < query_pairs(query).len() ==> (#[trigger] query_pairs(query)[later]).0
                != query_pairs(query)[at].0,
    ensures
        query_params(query).contains_key(query_pairs(query)[at].0),
        query_params(query)[query_pairs(query)[at].0] == query_pairs(query)[at].1,
{
    lemma_last_wins(query_pairs(query), at);
}

impl Method {
    /// Reads a method name.
    pub fn parse(method_string: &str) -> (outcome: Result<Method, ParseError>)
        ensures
            match method_of(method_string@) {
                Some(method) => outcome == Ok::<Method, ParseError>(method),
                None => outcome is Err,
            },
    {
        if equal(method_string, "GET") {
            Ok(Method::GET)
        } else if equal(method_string, "POST") {
            Ok(Method::POST)
        } else if equal(method_string, "PUT") {
            Ok(Method::PUT)
        } else if equal(method_string, "DELETE") {
            Ok(Method::DELETE)
        } else if equal(method_string, "HEAD") {
            Ok(Method::HEAD)
        } else {
            Err(ParseError)
        }
    }
}

/// The parameters of a query string.
pub struct Query {
    params: StringMap,
}

impl View for Query {
    type V = Map<Seq<char>, Seq<char>>;

    closed spec fn view(&self) -> Map<Seq<char>, Seq<char>> {
        self.params@
    }
}

impl Query {
    /// Reads a query string, `key=value&key=value`.
    pub fn parse(query: String) -> (parsed: Query)
        ensures
            parsed@ == query_params(query@),
    {
        let pieces = split(query.as_str(), '&');
        let mut params = StringMap::new();
        let n = pieces.len();
        let mut at: usize = 0;
        while at < n
            invariant
                at <= n,
                n == pieces@.len(),
                views(pieces@) == split_at_each(query@, '&'),
                params@ == to_map(query_pairs(query@).take(at as int)),
            decreases n - at,
        {
            proof {
                let next = query_pairs(query@).take(at + 1);
                assert(next.drop_last() == query_pairs(query@).take(at as int));
                assert(next.last() == query_pair(views(pieces@)[at as int]));
            }
            match split_once(pieces[at].as_str(), '=') {
                Some((param_key, param_value)) => {
                    params.insert(param_key, param_value);
                },
                None => {
                    params.insert(pieces[at].clone(), String::new());
                },
            }
            at += 1;
        }
        proof {
            assert(query_pairs(query@).take(n as int) == query_pairs(query@));
        }
        Query { params }
    }

    /// The value of the parameter named `param`, if the query has it.
    pub fn get_param(&self, param: &str) -> (value: Option<&String>)
        ensures
            match value {
                Some(found) => self@.contains_key(param@) && found@ == self@[param@],
                None => !self@.contains_key(param@),
            },
    {
        self.params.get(param)
    }
}

/// The target of a request: a path, and a query where one was given.
pub struct RequestTarget {
    absolute_path: String,
    query: Option<Query>,
}

impl RequestTarget {
    /// The path.
    pub closed spec fn path(self) -> Seq<char> {
        self.absolute_path@
    }

    /// The parameters of the query; none where there is no query.
    pub closed spec fn params(self) -> Map<Seq<char>, Seq<char>> {
        match self.query {
            Some(query) => query@,
            None => Map::empty(),
        }
    }

    /// Reads a request target, `path` or `path?query`. Every text is one.
    pub fn parse(request_target: String) -> (outcome: Result<RequestTarget, ParseError>)
        ensures
            outcome matches Ok(target) && target.path() == target_path(request_target@)
                && target.params() == target_params(request_target@),
    {
        match split_once(request_target.as_str(), '?') {
            Some((absolute_path, query_string)) => Ok(
                RequestTarget { absolute_path, query: Some(Query::parse(query_string)) },
            ),
            None => Ok(RequestTarget { absolute_path: request_target, query: None }),
        }
    }

    /// The path.
    pub fn get_path(&self) -> (path: &str)
        ensures
            path@ == self.path(),
    {
        self.absolute_path.as_str()
    }

    /// The value of the query parameter named `param`, if there is one.
    pub fn get_param(&self, param: &str) -> (value: Option<&String>)
        ensures
            match value {
                Some(found) => self.params().contains_key(param@) && found@ == self.params()[param@],
                None => !self.params().contains_key(param@),
            },
    {
        match &self.query {
            Some(query) => query.get_param(param),
            None => None,
        }
    }
}

/// The first line of a request.
pub struct RequestLine {
    pub method: Method,
    pub request_target: RequestTarget,
    pub http_version: HttpVerion,
}

impl RequestLine {
    /// Whether the line holds what `parts` says: that method, the path and
    /// the parameters of that target, and that version.
    pub open spec fn holds(self, parts: (Method, Seq<char>, Seq<char>)) -> bool {
        &&& self.method == parts.0
        &&& self.request_target.path() == target_path(parts.1)
        &&& self.request_target.params() == target_params(parts.1)
        &&& self.http_version@ == parts.2
    }

    /// Reads a request line: method, request target and version, set apart
    /// by ASCII whitespace. Tokens after the third are not read. A line with
    /// fewer than three tokens, with an unknown method, or with a path that
    /// does not begin with `/` is an error.
    pub fn parse(request_line: String) -> (outcome: Result<RequestLine, ParseError>)
        ensures
            match request_line_parts(request_line@) {
                Some(parts) => outcome matches Ok(line) && line.holds(parts),
                None => outcome is Err,
            },
    {
        let words = split_ascii_whitespace(request_line.as_str());
        if words.len() < 3 {
            return Err(ParseError);
        }
        proof {
            let spec_words = tokens(request_line@);
            assert(views(words@)[0] == spec_words[0]);
            assert(views(words@)[1] == spec_words[1]);
            assert(views(words@)[2] == spec_words[2]);
        }
        let method = match Method::parse(words[0].as_str()) {
            Ok(method) => method,
            Err(error) => {
                return Err(error);
            },
        };
        let request_target = match RequestTarget::parse(words[1].clone()) {
            Ok(request_target) => request_target,
            Err(error) => {
                return Err(error);
            },
        };
        if !begins_with(request_target.get_path(), '/') {
            return Err(ParseError);
        }
        Ok(RequestLine { method, request_target, http_version: words[2].clone() })
    }

    /// The method.
    pub fn get_method(&self) -> (method: &Method)
        ensures
            *method == self.method,
    {
        &self.method
    }

    /// The path of the request target.
    pub fn get_path(&self) -> (path: &str)
        ensures
            path@ == self.request_target.path(),
    {
        self.request_target.get_path()
    }

    /// The value of the query parameter named `param`, if there is one.
    pub fn get_param(&self, param: &str) -> (value: Option<&String>)
        ensures
            match value {
                Some(found) => self.request_target.params().contains_key(param@) && found@
                    == self.request_target.params()[param@],
                None => !self.request_target.params().contains_key(param@),
            },
    {
        self.request_target.get_param(param)
    }
}

/// What a request holds, as plain values.
pub struct RequestView {
    pub method: Method,
    pub path: Seq<char>,
    pub params: Map<Seq<char>, Seq<char>>,
    pub version: Seq<char>,
    pub fields: Seq<Pair>,
    /// The body, which is not read: it is empty.
    pub body: Seq<char>,
}

impl RequestView {
    /// The header fields as a map from name to value.
    pub open spec fn headers(self) -> Map<Seq<char>, Seq<char>> {
        to_map(self.fields)
    }

    /// The request with the given header fields in the place of its own.
    pub open spec fn with_fields(self, fields: Seq<Pair>) -> RequestView {
        RequestView { fields, ..self }
    }
}

/// The request that a request line begins: no header fields yet, and no
/// body.
pub open spec fn begun(parts: (Method, Seq<char>, Seq<char>)) -> RequestView {
    RequestView {
        method: parts.0,
        path: target_path(parts.1),
        params: target_params(parts.1),
        version: parts.2,
        fields: Seq::empty(),
        body: Seq::empty(),
    }
}

/// A request whose head was read in full. Its path begins with `/`.
pub struct Request {
    request_line: RequestLine,
    headers: Headers,
    _body: Body,
}

impl View for Request {
    type V = RequestView;

    closed spec fn view(&self) -> RequestView {
        RequestView {
            method: self.request_line.method,
            path: self.request_line.request_target.path(),
            params: self.request_line.request_target.params(),
            version: self.request_line.http_version@,
            fields: self.headers.fields(),
            body: self._body@,
        }
    }
}

impl Request {
    #[verifier::type_invariant]
    spec fn path_is_rooted(self) -> bool {
        rooted(self.request_line.request_target.path())
    }

    /// The path of the request target, which begins with `/`.
    pub fn get_path(&self) -> (path: &str)
        ensures
            path@ == self@.path,
            rooted(path@),
    {
        proof {
            use_type_invariant(self);
        }
        self.request_line.get_path()
    }

    /// The method.
    pub fn get_method(&self) -> (method: &Method)
        ensures
            *method == self@.method,
    {
        self.request_line.get_method()
    }

    /// The value of the header field named `header`, if it is set. The name
    /// is matched exactly.
    pub fn get_header(&self, header: &str) -> (value: Option<&String>)
        ensures
            match value {
                Some(found) => self@.headers().contains_key(header@) && found@
                    == self@.headers()[header@],
                None => !self@.headers().contains_key(header@),
            },
    {
        self.headers.get_header(header)
    }

    /// The value of the query parameter named `param`, if there is one.
    pub fn get_param(&self, param: &str) -> (value: Option<&String>)
        ensures
            match value {
                Some(found) => self@.params.contains_key(param@) && found@ == self@.params[param@],
                None => !self@.params.contains_key(param@),
            },
    {
        self.request_line.get_param(param)
    }
}

/// What one read of a connection gave.
pub enum Line {
    /// A line, with its line end where the stream had one.
    Text(String),
    /// The line did not end within the bytes that a line may take.
    TooLong,
    /// The stream ended.
    EndOfStream,
    /// The read failed.
    Failure,
}

/// What one read of a connection gave, as plain values.
pub enum LineView {
    Text(Seq<char>),
    TooLong,
    EndOfStream,
    Failure,
}

impl View for Line {
    type V = LineView;

    open spec fn view(&self) -> LineView {
        match self {
            Line::Text(text) => LineView::Text(text@),
            Line::TooLong => LineView::TooLong,
            Line::EndOfStream => LineView::EndOfStream,
            Line::Failure => LineView::Failure,
        }
    }
}

/// What a read of at most one byte more than a line may take gave: the end
/// of the stream where no byte was read; a line that is too long where more
/// bytes were read than a line may take; a failure where the bytes are not
/// text; the text otherwise.
pub open spec fn line_of_read(read: nat, text: Option<Seq<char>>) -> LineView {
    if read == 0 {
        LineView::EndOfStream
    } else if read > MAX_LINE_LENGTH {
        LineView::TooLong
    } else {
        match text {
            Some(text) => LineView::Text(text),
            None => LineView::Failure,
        }
    }
}

impl Line {
    /// Names what a read gave. `read` is the number of bytes that were
    /// read; `text` is these bytes as text, or `None` where they are not
    /// valid UTF-8.
    pub fn from_read(read: usize, text: Option<String>) -> (line: Line)
        ensures
            line@ == line_of_read(
                read as nat,
                match text {
                    Some(text) => Some(text@),
                    None => None,
                },
            ),
    {
        if read == 0 {
            Line::EndOfStream
        } else if read > MAX_LINE_LENGTH {
            Line::TooLong
        } else {
            match text {
                Some(text) => Line::Text(text),
                None => Line::Failure,
            }
        }
    }
}

/// Where the reading of a request head stands after a line, as plain values.
pub enum Progress {
    /// More lines are needed; the request so far.
    More(Option<RequestView>),
    /// The head is complete.
    Done(RequestView),
    /// The head cannot be read.
    Failed(HttpError),
}

/// Whether a line takes more bytes than a request head may hold in one line.
pub open spec fn too_long(line: Seq<char>) -> bool {
    encode_utf8(line).len() > MAX_LINE_LENGTH
}

/// One step of reading a request head. `state` is the request so far, `None`
/// before the request line. A failed read is an internal error. The end of
/// the stream before the empty line, a line that is too long, a request line
/// or a header line that does not parse are bad requests. The line that holds
/// a line end and nothing else completes the head.
pub open spec fn step(state: Option<RequestView>, line: LineView) -> Progress {
    match line {
        LineView::Failure => Progress::Failed(
            HttpError::ServerError(ServerError::InternalServerError),
        ),
        LineView::EndOfStream => Progress::Failed(HttpError::ClientError(ClientError::BadRequest)),
        LineView::TooLong => Progress::Failed(HttpError::ClientError(ClientError::BadRequest)),
        LineView::Text(text) => if too_long(text) {
            Progress::Failed(HttpError::ClientError(ClientError::BadRequest))
        } else {
            match state {
                None => match request_line_parts(text) {
                    Some(parts) => Progress::More(Some(begun(parts))),
                    None => Progress::Failed(HttpError::ClientError(ClientError::BadRequest)),
                },
                Some(request) => if text == line_end() {
                    Progress::Done(request)
                } else {
                    match with_header_line(request.fields, text) {
                        Some(fields) => Progress::More(Some(request.with_fields(fields))),
                        None => Progress::Failed(HttpError::ClientError(ClientError::BadRequest)),
                    }
                },
            }
        },
    }
}

/// The outcome of reading a request head from the given lines, after which
/// the stream ends: the steps are taken line by line until one completes the
/// head or fails. Lines after the one that completes the head are not read.
pub open spec fn read_all(state: Option<RequestView>, lines: Seq<Seq<char>>) -> Result<
    RequestView,
    HttpError,
>
    decreases lines.len(),
{
    if lines.len() == 0 {
        Err(HttpError::ClientError(ClientError::BadRequest))
    } else {
        match step(state, LineView::Text(lines[0])) {
            Progress::More(state) => read_all(state, lines.drop_first()),
            Progress::Done(request) => Ok(request),
            Progress::Failed(error) => Err(error),
        }
    }
}

/// The request that the given lines hold, or the error that reading them
/// gives.
pub open spec fn parse_head(lines: Seq<Seq<char>>) -> Result<RequestView, HttpError> {
    read_all(None, lines)
}

/// The fields after the given header lines were read in their order, or
/// `None` where one of them has no colon.
pub open spec fn with_header_lines(fields: Seq<Pair>, lines: Seq<Seq<char>>) -> Option<Seq<Pair>>
    decreases lines.len(),
{
    if lines.len() == 0 {
        Some(fields)
    } else {
        match with_header_line(fields, lines[0]) {
            Some(next) => with_header_lines(next, lines.drop_first()),
            None => None,
        }
    }
}

/// Lines that begin with less than a request line give a bad request:
/// no line at all, or a first line with fewer than three tokens, with an
/// unknown method, or with a path that does not begin with `/`.
pub proof fn lemma_bad_request_line(lines: Seq<Seq<char>>)
    requires
        lines.len() > 0 ==> tokens(lines[0]).len() < 3 || method_of(tokens(lines[0])[0]) is None
            || !rooted(target_path(tokens(lines[0])[1])),
    ensures
        parse_head(lines) == Err::<RequestView, HttpError>(
            HttpError::ClientError(ClientError::BadRequest),
        ),
{
}

/// A request line, header lines that each hold a colon, and the empty line
/// give the request that the request line begins, with the fields of the
/// header lines; what follows the empty line does not count. No line may be
/// too long.
pub proof fn lemma_head_reads_in_full(
    first: Seq<char>,
    headers: Seq<Seq<char>>,
    fields: Seq<Pair>,
    rest: Seq<Seq<char>>,
)
    requires
        !too_long(first),
        request_line_parts(first) is Some,
        forall|i: int| 0 <= i < headers.len() ==> !too_long(#[trigger] headers[i]),
        with_header_lines(Seq::empty(), headers) == Some(fields),
    ensures
        parse_head(seq![first] + headers + seq![line_end()] + rest) == Ok::<
            RequestView,
            HttpError,
        >(begun(request_line_parts(first).unwrap()).with_fields(fields)),
{
    let lines = seq![first] + headers + seq![line_end()] + rest;
    let request = begun(request_line_parts(first).unwrap());
    assert(lines.drop_first() == headers + seq![line_end()] + rest);
    assert(request.with_fields(Seq::empty()) == request);
    lemma_headers_read_in_full(request, headers, fields, rest);
}

/// The counterpart of `lemma_head_reads_in_full` for a request whose
/// request line was read already.
pub proof fn lemma_headers_read_in_full(
    request: RequestView,
    headers: Seq<Seq<char>>,
    fields: Seq<Pair>,
    rest: Seq<Seq<char>>,
)
    requires
        forall|i: int| 0 <= i < headers.len() ==> !too_long(#[trigger] headers[i]),
        with_header_lines(request.fields, headers) == Some(fields),
    ensures
        read_all(Some(request), headers + seq![line_end()] + rest) == Ok::<RequestView, HttpError>(
            request.with_fields(fields),
        ),
    decreases headers.len(),
{
    let lines = headers + seq![line_end()] + rest;
    if headers.len() == 0 {
        assert(lines[0] == line_end());
        lemma_line_end_is_short();
        assert(request.with_fields(fields) == request);
    } else {
        assert(lines[0] == headers[0]);
        let next = with_header_line(request.fields, headers[0]).unwrap();
        assert(headers[0] != line_end()) by {
            if headers[0] == line_end() {
                lemma_split_without_delimiter(line_end(), ':');
            }
        }
        let others = headers.drop_first();
        assert(lines.drop_first() == others + seq![line_end()] + rest);
        assert forall|i: int| 0 <= i < others.len() implies !too_long(#[trigger] others[i]) by {
            assert(others[i] == headers[i + 1]);
        }
        lemma_headers_read_in_full(request.with_fields(next), others, fields, rest);
        assert(request.with_fields(next).with_fields(fields) == request.with_fields(fields));
    }
}

/// The empty line is not too long.
pub proof fn lemma_line_end_is_short()
    ensures
        !too_long(line_end()),
{
    vstd::utf8::is_ascii_chars_encode_utf8(line_end());
}

/// The path of a request that was read begins with `/`.
pub proof fn lemma_head_is_rooted(lines: Seq<Seq<char>>)
    ensures
        parse_head(lines) matches Ok(request) ==> rooted(request.path),
{
    lemma_read_keeps_rooted(None, lines);
}

/// Reading on from a request whose path begins with `/` gives a request
/// whose path does.
pub proof fn lemma_read_keeps_rooted(state: Option<RequestView>, lines: Seq<Seq<char>>)
    requires
        state matches Some(request) ==> rooted(request.path),
    ensures
        read_all(state, lines) matches Ok(request) ==> rooted(request.path),
    decreases lines.len(),
{
    if lines.len() > 0 {
        match step(state, LineView::Text(lines[0])) {
            Progress::More(next) => {
                lemma_read_keeps_rooted(next, lines.drop_first());
            },
            _ => {},
        }
    }
}

/// A request head that is being read.
pub struct RequestReader {
    request_line: Option<RequestLine>,
    headers: Headers,
}

impl View for RequestReader {
    type V = Option<RequestView>;

    closed spec fn view(&self) -> Option<RequestView> {
        match self.request_line {
            Some(line) => Some(
                RequestView {
                    method: line.method,
                    path: line.request_target.path(),
                    params: line.request_target.params(),
                    version: line.http_version@,
                    fields: self.headers.fields(),
                    body: Seq::empty(),
                },
            ),
            None => None,
        }
    }
}

/// Where the reading of a request head stands after a line.
pub enum Reading {
    /// More lines are needed.
    More(RequestReader),
    /// The head is complete.
    Done(Request),
    /// The head cannot be read.
    Failed(HttpError),
}

impl View for Reading {
    type V = Progress;

    open spec fn view(&self) -> Progress {
        match self {
            Reading::More(reader) => Progress::More(reader@),
            Reading::Done(request) => Progress::Done(request@),
            Reading::Failed(error) => Progress::Failed(*error),
        }
    }
}

impl RequestReader {
    #[verifier::type_invariant]
    spec fn path_is_rooted(self) -> bool {
        self.request_line matches Some(line) ==> rooted(line.request_target.path())
    }

    /// A reader that has read nothing yet.
    pub fn new() -> (reader: RequestReader)
        ensures
            reader@ is None,
    {
        RequestReader { request_line: None, headers: Headers::new() }
    }

    /// Takes the next line of the head.
    pub fn accept(self, line: Line) -> (next: Reading)
        ensures
            next@ == step(self@, line@),
    {
        proof {
            use_type_invariant(&self);
        }
        let text = match line {
            Line::Failure => {
                return Reading::Failed(HttpError::ServerError(ServerError::InternalServerError));
            },
            Line::EndOfStream => {
                return Reading::Failed(HttpError::ClientError(ClientError::BadRequest));
            },
            Line::TooLong => {
                return Reading::Failed(HttpError::ClientError(ClientError::BadRequest));
            },
            Line::Text(text) => text,
        };
        if text.as_str().as_bytes().len() > MAX_LINE_LENGTH {
            return Reading::Failed(HttpError::ClientError(ClientError::BadRequest));
        }
        let RequestReader { request_line, headers } = self;
        match request_line {
            None => match RequestLine::parse(text) {
                Ok(request_line) => Reading::More(
                    RequestReader { request_line: Some(request_line), headers: Headers::new() },
                ),
                Err(error) => Reading::Failed(HttpError::from(error)),
            },
            Some(request_line) => {
                if equal(text.as_str(), crlf()) {
                    return Reading::Done(Request { request_line, headers, _body: String::new() });
                }
                let mut headers = headers;
                match headers.parse_and_add_header_from(text) {
                    Ok(()) => Reading::More(
                        RequestReader { request_line: Some(request_line), headers },
                    ),
                    Err(error) => Reading::Failed(HttpError::from(error)),
                }
            },
        }
    }
}

impl Request {
    /// Reads a request head from lines that were read before; after the last
    /// of them the stream counts as ended.
    pub fn parse(lines: &Vec<String>) -> (outcome: Result<Request, HttpError>)
        ensures
            match parse_head(views(lines@)) {
                Ok(request) => outcome matches Ok(parsed) && parsed@ == request,
                Err(error) => outcome == Err::<Request, HttpError>(error),
            },
    {
        let mut reader = RequestReader::new();
        let n = lines.len();
        let mut at: usize = 0;
        proof {
            assert(views(lines@).skip(0) == views(lines@));
            assert(reader@ == None::<RequestView>);
        }
        while at < n
            invariant
                at <= n,
                n == lines@.len(),
                read_all(reader@, views(lines@).skip(at as int)) == parse_head(views(lines@)),
            decreases n - at,
        {
            proof {
                let rest = views(lines@).skip(at as int);
                assert(rest[0] == lines@[at as int]@);
                assert(rest.drop_first() == views(lines@).skip(at + 1));
            }
            match reader.accept(Line::Text(lines[at].clone())) {
                Reading::More(next) => {
                    reader = next;
                },
                Reading::Done(request) => {
                    return Ok(request);
                },
                Reading::Failed(error) => {
                    return Err(error);
                },
            }
            at += 1;
        }
        match reader.accept(Line::EndOfStream) {
            Reading::Done(request) => Ok(request),
            Reading::More(_) => Err(HttpError::ClientError(ClientError::BadRequest)),
            Reading::Failed(error) => Err(error),
        }
    }
}

} // verus!
