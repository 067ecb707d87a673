use yaw::http::errors::{challenge_for, ClientError, HttpError, ServerError};
use yaw::http::response::{Response, Status, StatusLine};
use yaw::http::string_map::StringMap;
use yaw::http::crlf;

const STATUSES: [(Status, u16, &str); 10] = [
    (Status::Okay, 200, "Ok"),
    (Status::Found, 302, "Found"),
    (Status::NotFound, 404, "Not Found"),
    (Status::NotImplemented, 501, "Not Implemented"),
    (Status::InvalidRequest, 400, "Invalid Request"),
    (Status::Unauthorized, 401, "Unauthorized"),
    (Status::MethodNotAllowed, 405, "Method Not Allowed"),
    (Status::InternalServerError, 500, "Internal Server Error"),
    (Status::BadGateway, 502, "Bad Gateway"),
    (Status::ServiceUnavailable, 503, "Service Unavailable"),
];

#[test]
fn every_status_has_its_code_and_phrase() {
    for (status, code, phrase) in STATUSES {
        assert_eq!(status.code(), code);
        assert_eq!(status.get_reason_phrase(), phrase);
        let mut line = StatusLine::new();
        line.set_status_code(status);
        assert_eq!(*line.get_status_code(), status);
        assert_eq!(line.to_string(), format!("HTTP/1.1 {} {}", code, phrase));
    }
}

#[test]
fn new_status_line_is_ok() {
    let line = StatusLine::new();
    assert_eq!(*line.get_status_code(), Status::Okay);
    assert_eq!(line.to_string(), "HTTP/1.1 200 Ok");
}

#[test]
fn new_response_is_ok_and_empty() {
    let response = Response::new();
    assert_eq!(*response.get_status_code(), Status::Okay);
    assert_eq!(response.content_length(), 0);
    assert_eq!(response.to_string(), "HTTP/1.1 200 Ok\r\nServer: yaw\r\nContent-Length: 0\r\n\r\n");
}

#[test]
fn content_length_is_the_length_of_the_body_in_bytes() {
    for body in ["", "a", "slept\r\n", "0123456789", "caf\u{e9} \u{1F600}"] {
        let mut response = Response::new();
        response.set_body(body.to_string());
        assert_eq!(response.content_length(), body.len());
        assert_eq!(response.get_header("Content-Length"), Some(body.len().to_string()));
        assert_eq!(
            response.to_string(),
            format!("HTTP/1.1 200 Ok\r\nServer: yaw\r\nContent-Length: {}\r\n\r\n{}", body.len(), body)
        );
    }
    let long = "x".repeat(12345);
    let mut response = Response::new();
    response.set_body(long.clone());
    assert_eq!(response.get_header("Content-Length"), Some("12345".to_string()));
    response.set_body("short".to_string());
    assert_eq!(response.get_header("Content-Length"), Some("5".to_string()));
}

#[test]
fn serialized_response_is_its_text_in_utf8() {
    let mut response = Response::new();
    response.set_status_code(Status::NotFound);
    response.set_body("caf\u{e9}".to_string());
    assert_eq!(
        response.serialize(),
        b"HTTP/1.1 404 Not Found\r\nServer: yaw\r\nContent-Length: 5\r\n\r\ncaf\xc3\xa9".to_vec()
    );
    assert_eq!(response.serialize(), response.to_string().into_bytes());
}

#[test]
fn added_headers_follow_the_fixed_ones_in_their_order() {
    let mut response = Response::new();
    response.add_header("Location", "/a");
    response.add_header(" X-Two ", "  2  ");
    response.add_header("Location", "/b");
    assert_eq!(response.get_header("Location"), Some("/b".to_string()));
    assert_eq!(response.get_header("X-Two"), Some("2".to_string()));
    assert_eq!(response.get_header("X-Three"), None);
    assert_eq!(response.get_header("Server"), Some("yaw".to_string()));
    assert_eq!(
        response.to_string(),
        "HTTP/1.1 200 Ok\r\nServer: yaw\r\nContent-Length: 0\r\nLocation: /b\r\nX-Two: 2\r\n\r\n"
    );
}

#[test]
fn fixed_headers_cannot_be_set() {
    let mut response = Response::new();
    response.set_body("abc".to_string());
    response.add_header("Content-Length", "42");
    response.add_header("Server", "nginx");
    response.add_header("  Content-Length\t", "43");
    assert_eq!(response.get_header("Content-Length"), Some("3".to_string()));
    assert_eq!(response.get_header("Server"), Some("yaw".to_string()));
    assert_eq!(response.to_string(), "HTTP/1.1 200 Ok\r\nServer: yaw\r\nContent-Length: 3\r\n\r\nabc");
    response.add_header("content-length", "44");
    assert_eq!(response.get_header("content-length"), Some("44".to_string()));
    assert_eq!(response.get_header("Content-Length"), Some("3".to_string()));
}

#[test]
fn status_can_be_set_again() {
    let mut response = Response::new();
    response.set_status_code(Status::Found);
    response.set_status_code(Status::ServiceUnavailable);
    assert_eq!(*response.get_status_code(), Status::ServiceUnavailable);
    assert_eq!(
        response.to_string(),
        "HTTP/1.1 503 Service Unavailable\r\nServer: yaw\r\nContent-Length: 0\r\n\r\n"
    );
}

#[test]
fn client_errors_have_their_statuses() {
    let cases = [
        (ClientError::BadRequest, Status::InvalidRequest),
        (ClientError::Unauthorized, Status::Unauthorized),
        (ClientError::NotFound, Status::NotFound),
        (ClientError::MethodNotAllowed, Status::MethodNotAllowed),
    ];
    for (error, status) in cases {
        assert_eq!(error.status_code(), status);
        assert_eq!(*error.to_response().get_status_code(), status);
        assert_eq!(*HttpError::ClientError(error).to_response().get_status_code(), status);
        assert_eq!(error.to_response().content_length(), 0);
    }
}

#[test]
fn server_errors_have_their_statuses() {
    let cases = [
        (ServerError::InternalServerError, Status::InternalServerError),
        (ServerError::MethodNotImplemented, Status::NotImplemented),
        (ServerError::BadGateway, Status::BadGateway),
        (ServerError::ServiceUnavailable, Status::ServiceUnavailable),
    ];
    for (error, status) in cases {
        assert_eq!(error.status_code(), status);
        assert_eq!(*error.to_response().get_status_code(), status);
        assert_eq!(*HttpError::ServerError(error).to_response().get_status_code(), status);
        assert_eq!(error.to_response().get_header("WWW-Authenticate"), None);
    }
}

#[test]
fn only_unauthorized_carries_a_challenge() {
    let denied = ClientError::Unauthorized.to_response();
    assert_eq!(
        denied.get_header("WWW-Authenticate"),
        Some("Basic realm=\"WallyWorld\"".to_string())
    );
    assert_eq!(
        HttpError::ClientError(ClientError::Unauthorized).to_response().to_string(),
        "HTTP/1.1 401 Unauthorized\r\nServer: yaw\r\nContent-Length: 0\r\nWWW-Authenticate: Basic realm=\"WallyWorld\"\r\n\r\n"
    );
    assert_eq!(ClientError::NotFound.to_response().get_header("WWW-Authenticate"), None);
    assert_eq!(
        ClientError::Unauthorized.to_response_in("Vault").get_header("WWW-Authenticate"),
        Some("Basic realm=\"Vault\"".to_string())
    );
    assert_eq!(
        HttpError::ClientError(ClientError::NotFound).to_response_in("Vault").to_string(),
        "HTTP/1.1 404 Not Found\r\nServer: yaw\r\nContent-Length: 0\r\n\r\n"
    );
    assert_eq!(challenge_for(""), "Basic realm=\"\"");
}

#[test]
fn string_map_keeps_first_places_and_last_values() {
    let mut map = StringMap::new();
    assert_eq!(map.len(), 0);
    assert_eq!(map.get("a"), None);
    map.insert("a".to_string(), "1".to_string());
    map.insert("b".to_string(), "2".to_string());
    map.insert("a".to_string(), "3".to_string());
    map.insert(String::new(), "4".to_string());
    assert_eq!(map.len(), 3);
    assert_eq!(map.key_at(0), "a");
    assert_eq!(map.value_at(0), "3");
    assert_eq!(map.key_at(1), "b");
    assert_eq!(map.value_at(1), "2");
    assert_eq!(map.key_at(2), "");
    assert_eq!(map.get("a").map(|v| v.as_str()), Some("3"));
    assert_eq!(map.get("").map(|v| v.as_str()), Some("4"));
    assert_eq!(map.get("A"), None);
}

#[test]
fn line_end_is_carriage_return_and_line_feed() {
    assert_eq!(crlf(), "\r\n");
}
