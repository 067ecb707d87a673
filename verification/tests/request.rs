use yaw::http::errors::{ClientError, HttpError, ServerError};
use yaw::http::headers::Headers;
use yaw::http::request::{
    Line, Method, Query, Reading, Request, RequestLine, RequestReader, RequestTarget,
    MAX_LINE_LENGTH,
};
use yaw::http::ParseError;

fn lines(text: &[&str]) -> Vec<String> {
    text.iter().map(|line| line.to_string()).collect()
}

fn parsed(text: &[&str]) -> Request {
    match Request::parse(&lines(text)) {
        Ok(request) => request,
        Err(_) => panic!("the request does not parse"),
    }
}

fn failure(text: &[&str]) -> HttpError {
    match Request::parse(&lines(text)) {
        Ok(_) => panic!("the request parses"),
        Err(error) => error,
    }
}

fn value(found: Option<&String>) -> Option<&str> {
    found.map(|text| text.as_str())
}

#[test]
fn methods_are_matched_exactly() {
    assert_eq!(Method::parse("GET"), Ok(Method::GET));
    assert_eq!(Method::parse("POST"), Ok(Method::POST));
    assert_eq!(Method::parse("PUT"), Ok(Method::PUT));
    assert_eq!(Method::parse("DELETE"), Ok(Method::DELETE));
    assert_eq!(Method::parse("HEAD"), Ok(Method::HEAD));
    assert_eq!(Method::parse("get"), Err(ParseError));
    assert_eq!(Method::parse("PATCH"), Err(ParseError));
    assert_eq!(Method::parse(""), Err(ParseError));
    assert_eq!(Method::parse("GET "), Err(ParseError));
}

#[test]
fn query_keeps_the_last_value_of_a_key() {
    let query = Query::parse("k1=v1&k2=v2&k1=v3".to_string());
    assert_eq!(value(query.get_param("k1")), Some("v3"));
    assert_eq!(value(query.get_param("k2")), Some("v2"));
    assert_eq!(value(query.get_param("k3")), None);
}

#[test]
fn query_pieces_without_equals_have_empty_values() {
    let query = Query::parse("flag&name=Ada&empty=&=lonely&a=b=c".to_string());
    assert_eq!(value(query.get_param("flag")), Some(""));
    assert_eq!(value(query.get_param("name")), Some("Ada"));
    assert_eq!(value(query.get_param("empty")), Some(""));
    assert_eq!(value(query.get_param("")), Some("lonely"));
    assert_eq!(value(query.get_param("a")), Some("b=c"));
}

#[test]
fn empty_query_has_the_empty_key() {
    let query = Query::parse(String::new());
    assert_eq!(value(query.get_param("")), Some(""));
    assert_eq!(value(query.get_param("x")), None);
}

#[test]
fn target_is_cut_at_the_first_question_mark() {
    let target = match RequestTarget::parse("/sleep?time=3&why=a?b".to_string()) {
        Ok(target) => target,
        Err(_) => panic!("every target parses"),
    };
    assert_eq!(target.get_path(), "/sleep");
    assert_eq!(value(target.get_param("time")), Some("3"));
    assert_eq!(value(target.get_param("why")), Some("a?b"));
}

#[test]
fn target_without_query_has_no_parameters() {
    let target = match RequestTarget::parse("/index.html".to_string()) {
        Ok(target) => target,
        Err(_) => panic!("every target parses"),
    };
    assert_eq!(target.get_path(), "/index.html");
    assert_eq!(value(target.get_param("")), None);
    let bare = match RequestTarget::parse("/x?".to_string()) {
        Ok(target) => target,
        Err(_) => panic!("every target parses"),
    };
    assert_eq!(bare.get_path(), "/x");
    assert_eq!(value(bare.get_param("")), Some(""));
}

#[test]
fn request_line_holds_its_three_tokens() {
    let line = match RequestLine::parse("GET /hello?name=Ada HTTP/1.1\r\n".to_string()) {
        Ok(line) => line,
        Err(_) => panic!("the line parses"),
    };
    assert_eq!(*line.get_method(), Method::GET);
    assert_eq!(line.method, Method::GET);
    assert_eq!(line.get_path(), "/hello");
    assert_eq!(value(line.get_param("name")), Some("Ada"));
    assert_eq!(line.http_version, "HTTP/1.1");
    assert_eq!(line.request_target.get_path(), "/hello");
}

#[test]
fn request_line_takes_any_ascii_whitespace_between_tokens() {
    let line = match RequestLine::parse("\tHEAD \t /a\u{c}HTTP/1.0 extra tokens\n".to_string()) {
        Ok(line) => line,
        Err(_) => panic!("the line parses"),
    };
    assert_eq!(line.method, Method::HEAD);
    assert_eq!(line.get_path(), "/a");
    assert_eq!(line.http_version, "HTTP/1.0");
}

#[test]
fn request_line_with_fewer_than_three_tokens_is_refused() {
    assert!(RequestLine::parse(String::new()).is_err());
    assert!(RequestLine::parse("\r\n".to_string()).is_err());
    assert!(RequestLine::parse("GET\r\n".to_string()).is_err());
    assert!(RequestLine::parse("GET /\r\n".to_string()).is_err());
    assert!(RequestLine::parse("GET /HTTP/1.1\r\n".to_string()).is_err());
}

#[test]
fn request_line_with_an_unknown_method_is_refused() {
    assert!(RequestLine::parse("PATCH / HTTP/1.1\r\n".to_string()).is_err());
    assert!(RequestLine::parse("get / HTTP/1.1\r\n".to_string()).is_err());
    assert!(RequestLine::parse("/ GET HTTP/1.1\r\n".to_string()).is_err());
}

#[test]
fn header_lines_are_cut_at_the_first_colon_and_trimmed() {
    let mut headers = Headers::new();
    assert_eq!(headers.parse_and_add_header_from("Host: localhost:8080\r\n".to_string()), Ok(()));
    assert_eq!(headers.parse_and_add_header_from("  X-Pad \t:\t padded value \r\n".to_string()), Ok(()));
    assert_eq!(headers.parse_and_add_header_from("Empty:\r\n".to_string()), Ok(()));
    assert_eq!(headers.len(), 3);
    assert_eq!(value(headers.get_header("Host")), Some("localhost:8080"));
    assert_eq!(value(headers.get_header("X-Pad")), Some("padded value"));
    assert_eq!(value(headers.get_header("Empty")), Some(""));
    assert_eq!(value(headers.get_header("host")), None);
    assert_eq!(
        headers.to_string(),
        "Host: localhost:8080\r\nX-Pad: padded value\r\nEmpty: \r\n"
    );
}

#[test]
fn header_line_without_colon_is_refused_and_changes_nothing() {
    let mut headers = Headers::new();
    headers.add_header("A", "1");
    assert_eq!(headers.parse_and_add_header_from("no colon here\r\n".to_string()), Err(ParseError));
    assert_eq!(headers.parse_and_add_header_from(String::new()), Err(ParseError));
    assert_eq!(headers.to_string(), "A: 1\r\n");
}

#[test]
fn later_header_replaces_earlier_in_its_place() {
    let mut headers = Headers::new();
    headers.add_header("A", "1");
    headers.add_header("B", "2");
    headers.add_header(" A ", " 3 ");
    assert_eq!(headers.len(), 2);
    assert_eq!(value(headers.get_header("A")), Some("3"));
    assert_eq!(headers.to_string(), "A: 3\r\nB: 2\r\n");
}

#[test]
fn request_reflects_its_lines() {
    let request = parsed(&[
        "GET /sleep?time=1&time=2 HTTP/1.1\r\n",
        "Host: localhost:8080\r\n",
        "User-Agent: curl/8.0\r\n",
        "Accept: */*\r\n",
        "\r\n",
        "this is the body, which is not read",
    ]);
    assert_eq!(*request.get_method(), Method::GET);
    assert_eq!(request.get_path(), "/sleep");
    assert_eq!(value(request.get_param("time")), Some("2"));
    assert_eq!(value(request.get_header("Host")), Some("localhost:8080"));
    assert_eq!(value(request.get_header("User-Agent")), Some("curl/8.0"));
    assert_eq!(value(request.get_header("Accept")), Some("*/*"));
    assert_eq!(value(request.get_header("Content-Length")), None);
}

#[test]
fn request_without_headers_is_complete_at_the_empty_line() {
    let request = parsed(&["POST /submit HTTP/1.1\r\n", "\r\n"]);
    assert_eq!(*request.get_method(), Method::POST);
    assert_eq!(request.get_path(), "/submit");
    assert_eq!(value(request.get_param("x")), None);
}

#[test]
fn malformed_heads_are_bad_requests() {
    let bad = HttpError::ClientError(ClientError::BadRequest);
    assert_eq!(failure(&[]), bad);
    assert_eq!(failure(&["\r\n"]), bad);
    assert_eq!(failure(&["GET /\r\n", "\r\n"]), bad);
    assert_eq!(failure(&["BREW /pot HTCPCP/1.0\r\n", "\r\n"]), bad);
    assert_eq!(failure(&["GET / HTTP/1.1\r\n", "no colon\r\n", "\r\n"]), bad);
    assert_eq!(failure(&["GET / HTTP/1.1\r\n", "Host: a\r\n"]), bad);
    assert_eq!(failure(&["GET / HTTP/1.1\r\n", "\n"]), bad);
    assert_eq!(failure(&["GET / HTTP/1.1\r\n", ""]), bad);
}

#[test]
fn lines_over_the_limit_are_bad_requests() {
    let bad = HttpError::ClientError(ClientError::BadRequest);
    let padding = "a".repeat(MAX_LINE_LENGTH);
    let long_target = format!("GET /{} HTTP/1.1\r\n", padding);
    assert_eq!(failure(&[long_target.as_str(), "\r\n"]), bad);
    let long_header = format!("X: {}\r\n", padding);
    assert_eq!(failure(&["GET / HTTP/1.1\r\n", long_header.as_str(), "\r\n"]), bad);
    let widest = format!("X: {}\r\n", "a".repeat(MAX_LINE_LENGTH - 5));
    assert_eq!(widest.len(), MAX_LINE_LENGTH);
    let request = parsed(&["GET / HTTP/1.1\r\n", widest.as_str(), "\r\n"]);
    assert_eq!(request.get_header("X").map(|x| x.len()), Some(MAX_LINE_LENGTH - 5));
    let wide_characters = format!("X: {}\r\n", "\u{e9}".repeat(MAX_LINE_LENGTH / 2));
    assert_eq!(failure(&["GET / HTTP/1.1\r\n", wide_characters.as_str(), "\r\n"]), bad);
}

#[test]
fn reader_goes_line_by_line() {
    let reader = RequestReader::new();
    let reader = match reader.accept(Line::Text("GET /a HTTP/1.1\r\n".to_string())) {
        Reading::More(reader) => reader,
        _ => panic!("the request line is taken"),
    };
    let reader = match reader.accept(Line::Text("Host: here\r\n".to_string())) {
        Reading::More(reader) => reader,
        _ => panic!("the header line is taken"),
    };
    match reader.accept(Line::Text("\r\n".to_string())) {
        Reading::Done(request) => {
            assert_eq!(request.get_path(), "/a");
            assert_eq!(value(request.get_header("Host")), Some("here"));
        },
        _ => panic!("the empty line completes the head"),
    }
}

#[test]
fn reader_takes_the_empty_line_for_no_request_line() {
    match RequestReader::new().accept(Line::Text("\r\n".to_string())) {
        Reading::Failed(error) => assert_eq!(error, HttpError::ClientError(ClientError::BadRequest)),
        _ => panic!("an empty line is no request line"),
    }
}

#[test]
fn failed_read_is_an_internal_error() {
    let internal = HttpError::ServerError(ServerError::InternalServerError);
    match RequestReader::new().accept(Line::Failure) {
        Reading::Failed(error) => assert_eq!(error, internal),
        _ => panic!("a failed read ends the reading"),
    }
    let reader = match RequestReader::new().accept(Line::Text("GET / HTTP/1.1\r\n".to_string())) {
        Reading::More(reader) => reader,
        _ => panic!("the request line is taken"),
    };
    match reader.accept(Line::Failure) {
        Reading::Failed(error) => assert_eq!(error, internal),
        _ => panic!("a failed read ends the reading"),
    }
}

#[test]
fn end_of_stream_is_a_bad_request() {
    let bad = HttpError::ClientError(ClientError::BadRequest);
    match RequestReader::new().accept(Line::EndOfStream) {
        Reading::Failed(error) => assert_eq!(error, bad),
        _ => panic!("the end of the stream ends the reading"),
    }
    let reader = match RequestReader::new().accept(Line::Text("GET / HTTP/1.1\r\n".to_string())) {
        Reading::More(reader) => reader,
        _ => panic!("the request line is taken"),
    };
    match reader.accept(Line::EndOfStream) {
        Reading::Failed(error) => assert_eq!(error, bad),
        _ => panic!("the end of the stream ends the reading"),
    }
}

#[test]
fn parse_error_becomes_a_bad_request() {
    assert_eq!(HttpError::from(ParseError), HttpError::ClientError(ClientError::BadRequest));
}

#[test]
fn request_line_with_a_path_that_does_not_begin_with_a_slash_is_refused() {
    assert!(RequestLine::parse("GET foo HTTP/1.1\r\n".to_string()).is_err());
    assert!(RequestLine::parse("GET ?x=1 HTTP/1.1\r\n".to_string()).is_err());
    assert!(RequestLine::parse("GET http://localhost/ HTTP/1.1\r\n".to_string()).is_err());
    assert!(RequestLine::parse("GET * HTTP/1.1\r\n".to_string()).is_err());
    assert!(RequestLine::parse("GET a/?/b HTTP/1.1\r\n".to_string()).is_err());
    assert!(RequestLine::parse("GET /?foo HTTP/1.1\r\n".to_string()).is_ok());
    assert!(RequestLine::parse("GET //x HTTP/1.1\r\n".to_string()).is_ok());
    let bad = HttpError::ClientError(ClientError::BadRequest);
    assert_eq!(failure(&["GET foo HTTP/1.1\r\n", "\r\n"]), bad);
    assert_eq!(failure(&["POST ?x=1 HTTP/1.1\r\n", "\r\n"]), bad);
}

#[test]
fn every_target_parses_by_itself() {
    let target = match RequestTarget::parse("foo?a=b".to_string()) {
        Ok(target) => target,
        Err(_) => panic!("every target parses"),
    };
    assert_eq!(target.get_path(), "foo");
    assert_eq!(value(target.get_param("a")), Some("b"));
}

#[test]
fn reads_are_named_by_their_length_and_their_text() {
    assert!(matches!(Line::from_read(0, None), Line::EndOfStream));
    assert!(matches!(Line::from_read(0, Some(String::new())), Line::EndOfStream));
    assert!(matches!(Line::from_read(2, None), Line::Failure));
    assert!(matches!(Line::from_read(MAX_LINE_LENGTH, None), Line::Failure));
    assert!(matches!(Line::from_read(MAX_LINE_LENGTH + 1, None), Line::TooLong));
    assert!(matches!(Line::from_read(MAX_LINE_LENGTH + 1, Some("x".to_string())), Line::TooLong));
    match Line::from_read(2, Some("\r\n".to_string())) {
        Line::Text(text) => assert_eq!(text, "\r\n"),
        _ => panic!("a short read of text is a line"),
    }
    match Line::from_read(MAX_LINE_LENGTH, Some("x".to_string())) {
        Line::Text(text) => assert_eq!(text, "x"),
        _ => panic!("a read at the limit is a line"),
    }
}

#[test]
fn a_line_without_end_within_the_limit_is_a_bad_request() {
    let bad = HttpError::ClientError(ClientError::BadRequest);
    match RequestReader::new().accept(Line::TooLong) {
        Reading::Failed(error) => assert_eq!(error, bad),
        _ => panic!("a line that is too long ends the reading"),
    }
    let reader = match RequestReader::new().accept(Line::Text("GET / HTTP/1.1\r\n".to_string())) {
        Reading::More(reader) => reader,
        _ => panic!("the request line is taken"),
    };
    match reader.accept(Line::from_read(MAX_LINE_LENGTH + 1, None)) {
        Reading::Failed(error) => assert_eq!(error, bad),
        _ => panic!("a line that is too long ends the reading"),
    }
}
