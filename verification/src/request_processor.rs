//! Routing: from a request, and from what a look at the file system gave,
//! to a response or an error.
//!
//! A request is answered in a fixed order. A `GET` of the admin page must
//! carry the configured credentials. A `GET` of a path with a registered
//! handler is the handler's. Any other `GET` is answered from a file. Any
//! other method is refused: as not allowed where the path is known, by a
//! handler or by a file, and as not implemented where it is not.

use crate::config::{Config, RequestHandler};
use crate::http::auth::{authorized, basic_auth_validate};
use crate::http::errors::{
    challenge, error_fields, is_error_response, ClientError, HttpError, ServerError,
};
use crate::http::headers::WWW_AUTHENTICATE;
use crate::http::request::{Method, Request, RequestView};
use crate::http::response::{Response, Status};
use crate::http::string_map::Pair;
use crate::text::equal;
use std::sync::Arc;
use vstd::prelude::*;
use vstd::string::StringExecFns;

verus! {

/// The path of the admin page.
pub const ADMIN_PATH: &'static str = "/admin";

/// The name of the file that holds the admin page.
pub const ADMIN_FILE: &'static str = "admin.html";

/// The path that the index document answers.
pub const INDEX_PATH: &'static str = "/";

/// What reading a file gave.
pub enum FileRead {
    /// The file exists; its contents.
    Found(String),
    /// There is no such file.
    NotFound,
    /// The file exists and could not be read.
    Failed,
}

/// What reading a file gave, as plain values.
pub enum FileReadView {
    Found(Seq<char>),
    NotFound,
    Failed,
}

impl View for FileRead {
    type V = FileReadView;

    open spec fn view(&self) -> FileReadView {
        match self {
            FileRead::Found(contents) => FileReadView::Found(contents@),
            FileRead::NotFound => FileReadView::NotFound,
            FileRead::Failed => FileReadView::Failed,
        }
    }
}

/// What a request resolves to before any file is looked at.
pub enum Route {
    /// The request lacks the credentials that its path asks for.
    Unauthorized,
    /// The handler that is registered for the path answers.
    Handler,
    /// The file at the given location answers, if it is there.
    File(String),
    /// The method is not allowed on the path, which a handler answers.
    MethodNotAllowed,
    /// The method is refused; how, depends on whether the file at the given
    /// location is there.
    Probe(String),
}

/// What a request resolves to, as plain values.
pub enum RouteView {
    Unauthorized,
    Handler,
    File(Seq<char>),
    MethodNotAllowed,
    Probe(Seq<char>),
}

impl View for Route {
    type V = RouteView;

    open spec fn view(&self) -> RouteView {
        match self {
            Route::Unauthorized => RouteView::Unauthorized,
            Route::Handler => RouteView::Handler,
            Route::File(location) => RouteView::File(location@),
            Route::MethodNotAllowed => RouteView::MethodNotAllowed,
            Route::Probe(location) => RouteView::Probe(location@),
        }
    }
}

/// The name of the file that stands for a path: the admin file for the
/// admin page, the index document for `/`, and the path itself otherwise.
pub open spec fn file_name(index: Seq<char>, path: Seq<char>) -> Seq<char> {
    if path == ADMIN_PATH@ {
        ADMIN_FILE@
    } else if path == INDEX_PATH@ {
        index
    } else {
        path
    }
}

/// Where the file that stands for a path is: the root directory, and the
/// file name right after it.
pub open spec fn file_location<H: RequestHandler>(config: Config<H>, path: Seq<char>) -> Seq<char> {
    config.root_path@ + file_name(config.index@, path)
}

/// Whether the request is stopped at the authentication gate: a `GET` of
/// the admin page without the configured credentials.
pub open spec fn denied<H: RequestHandler>(config: Config<H>, request: RequestView) -> bool {
    request.method == Method::GET && request.path == ADMIN_PATH@ && !authorized(
        request.headers(),
        config.username@,
        config.password@,
    )
}

/// What a request resolves to once it is past the authentication gate.
pub open spec fn route_past_gate<H: RequestHandler>(config: Config<H>, request: RequestView) -> RouteView {
    let handled = config.handles(request.path);
    if request.method == Method::GET {
        if handled {
            RouteView::Handler
        } else {
            RouteView::File(file_location(config, request.path))
        }
    } else if handled {
        RouteView::MethodNotAllowed
    } else {
        RouteView::Probe(file_location(config, request.path))
    }
}

/// What a request resolves to under a configuration.
pub open spec fn route_of<H: RequestHandler>(config: Config<H>, request: RequestView) -> RouteView {
    if denied(config, request) {
        RouteView::Unauthorized
    } else {
        route_past_gate(config, request)
    }
}

/// What answers a route, given what the look at the file gave: the contents
/// of the file, or an error; `None` where a handler answers.
pub open spec fn settled(route: RouteView, file: FileReadView) -> Option<
    Result<Seq<char>, HttpError>,
> {
    match route {
        RouteView::Unauthorized => Some(Err(HttpError::ClientError(ClientError::Unauthorized))),
        RouteView::Handler => None,
        RouteView::File(_) => Some(
            match file {
                FileReadView::Found(contents) => Ok(contents),
                FileReadView::NotFound => Err(HttpError::ClientError(ClientError::NotFound)),
                FileReadView::Failed => Err(
                    HttpError::ServerError(ServerError::InternalServerError),
                ),
            },
        ),
        RouteView::MethodNotAllowed => Some(
            Err(HttpError::ClientError(ClientError::MethodNotAllowed)),
        ),
        RouteView::Probe(_) => Some(
            match file {
                FileReadView::NotFound => Err(
                    HttpError::ServerError(ServerError::MethodNotImplemented),
                ),
                _ => Err(HttpError::ClientError(ClientError::MethodNotAllowed)),
            },
        ),
    }
}

/// A `GET` of the admin page without the configured credentials is
/// unauthorized, whatever else holds, and the response to that error names
/// the configured realm in its challenge. With the credentials, and no
/// handler on the path, the admin file answers: its contents where it is
/// found, not found or an internal error where it is not.
pub proof fn lemma_admin_gate<H: RequestHandler>(
    config: Config<H>,
    request: RequestView,
    file: FileReadView,
)
    requires
        request.method == Method::GET,
        request.path == ADMIN_PATH@,
    ensures
        !authorized(request.headers(), config.username@, config.password@) ==> settled(
            route_of(config, request),
            file,
        ) == Some(
            Err::<Seq<char>, HttpError>(HttpError::ClientError(ClientError::Unauthorized)),
        ),
        error_fields(ClientError::Unauthorized.status(), config.realm@) == seq![
            (WWW_AUTHENTICATE@, challenge(config.realm@)),
        ],
        authorized(request.headers(), config.username@, config.password@) && !config.handles(
            request.path,
        ) ==> route_of(config, request) == RouteView::File(config.root_path@ + ADMIN_FILE@)
            && settled(route_of(config, request), file) == Some(
            match file {
                FileReadView::Found(contents) => Ok::<Seq<char>, HttpError>(contents),
                FileReadView::NotFound => Err(HttpError::ClientError(ClientError::NotFound)),
                FileReadView::Failed => Err(
                    HttpError::ServerError(ServerError::InternalServerError),
                ),
            },
        ),
{
}

/// Whether `response` is the successful response that carries `contents`
/// and no added field.
pub open spec fn serves(response: Response, contents: Seq<char>) -> bool {
    &&& response.status() == Status::Okay
    &&& response.body() == contents
    &&& response.added_fields() == Seq::<Pair>::empty()
}

/// Whether `response` is what the handler that is registered for the path
/// of the request may make of a new response: successful, empty, with no
/// added field.
pub open spec fn answered<H: RequestHandler>(
    config: Config<H>,
    request: RequestView,
    response: Response,
) -> bool {
    exists|fresh: Response|
        serves(fresh, Seq::empty()) && #[trigger] config.handler_of(request.path).answers(
            request,
            fresh,
            response,
        )
}

/// Whether `outcome` is what processing owes a request, given what the look
/// at the file gave. Where a handler answers, the outcome is the response
/// that the handler made of a new one.
pub open spec fn owed<H: RequestHandler>(
    outcome: Result<Response, HttpError>,
    config: Config<H>,
    request: RequestView,
    file: FileReadView,
) -> bool {
    match settled(route_of(config, request), file) {
        None => outcome matches Ok(response) && answered(config, request, response),
        Some(Ok(contents)) => outcome matches Ok(response) && serves(response, contents),
        Some(Err(error)) => outcome == Err::<Response, HttpError>(error),
    }
}

/// Routes requests under a configuration that it shares.
#[verifier::reject_recursive_types(H)]
pub struct RequestProcessor<H: RequestHandler> {
    config: Arc<Config<H>>,
}

impl<H: RequestHandler> RequestProcessor<H> {
    /// The configuration.
    pub closed spec fn config(self) -> Config<H> {
        *self.config
    }

    /// A processor for the given configuration.
    pub fn new(config: Arc<Config<H>>) -> (processor: RequestProcessor<H>)
        ensures
            processor.config() == *config,
    {
        Self { config }
    }

    /// The name of the file that stands for the path of the request.
    fn file_name_of(&self, request: &Request) -> (name: String)
        ensures
            name@ == file_name(self.config().index@, request@.path),
    {
        let path = request.get_path();
        if equal(path, ADMIN_PATH) {
            ADMIN_FILE.to_owned()
        } else if equal(path, INDEX_PATH) {
            self.config.index.clone()
        } else {
            path.to_owned()
        }
    }

    /// What the request resolves to.
    pub fn route(&self, request: &Request) -> (route: Route)
        ensures
            route@ == route_of(self.config(), request@),
    {
        match self.handle_authentication(request) {
            Err(_) => {
                return Route::Unauthorized;
            },
            Ok(()) => {},
        }
        let handled = self.config.request_handlers.contains_key(request.get_path());
        let wanted = *request.get_method() == Method::GET;
        if handled {
            if wanted {
                Route::Handler
            } else {
                Route::MethodNotAllowed
            }
        } else {
            let mut location = self.config.root_path.clone();
            location.append(self.file_name_of(request).as_str());
            if wanted {
                Route::File(location)
            } else {
                Route::Probe(location)
            }
        }
    }

    /// The location of the file that must be looked at before the request
    /// can be processed, if there is one.
    pub fn file_for(&self, request: &Request) -> (location: Option<String>)
        ensures
            match route_of(self.config(), request@) {
                RouteView::File(wanted) => location matches Some(found) && found@ == wanted,
                RouteView::Probe(wanted) => location matches Some(found) && found@ == wanted,
                _ => location is None,
            },
    {
        match self.route(request) {
            Route::File(location) => Some(location),
            Route::Probe(location) => Some(location),
            _ => None,
        }
    }

    /// Answers a request. `file` is what a look at the file named by
    /// `file_for` gave; where `file_for` names none, it is not read. Where
    /// a handler is registered for a `GET`, it is called once, on a new
    /// response.
    pub fn process(&self, request: Request, file: FileRead) -> (outcome: Result<
        Response,
        HttpError,
    >)
        ensures
            owed(outcome, self.config(), request@, file@),
    {
        let mut response = Response::new();
        match self.handle_authentication(&request) {
            Err(error) => {
                return Err(error);
            },
            Ok(()) => {},
        }
        match self.handle_routes(&request, &mut response, file) {
            Err(error) => {
                return Err(error);
            },
            Ok(()) => {},
        }
        Ok(response)
    }

    /// The response to an error: its status, an empty body, and for
    /// `Unauthorized` the challenge for the configured realm.
    pub fn error_response(&self, error: HttpError) -> (response: Response)
        ensures
            is_error_response(response, error.status(), self.config().realm@),
    {
        error.to_response_in(self.config.realm.as_str())
    }

    /// Answers a request with a response in every case: what `process`
    /// gives, with each error turned into the response that reports it.
    pub fn respond(&self, request: Request, file: FileRead) -> (response: Response)
        ensures
            match settled(route_of(self.config(), request@), file@) {
                None => answered(self.config(), request@, response),
                Some(Ok(contents)) => serves(response, contents),
                Some(Err(error)) => is_error_response(
                    response,
                    error.status(),
                    self.config().realm@,
                ),
            },
    {
        match self.process(request, file) {
            Ok(response) => response,
            Err(error) => self.error_response(error),
        }
    }

    /// The authentication gate: a `GET` of the admin page passes with the
    /// configured credentials only; every other request passes.
    pub fn handle_authentication(&self, request: &Request) -> (outcome: Result<(), HttpError>)
        ensures
            outcome == if denied(self.config(), request@) {
                Err::<(), HttpError>(HttpError::ClientError(ClientError::Unauthorized))
            } else {
                Ok::<(), HttpError>(())
            },
    {
        if *request.get_method() == Method::GET && equal(request.get_path(), ADMIN_PATH) {
            if !basic_auth_validate(request, &self.config.username, &self.config.password) {
                return Err(HttpError::ClientError(ClientError::Unauthorized));
            }
        }
        Ok(())
    }

    /// Routes a request that passed the authentication gate. `Okay` is also
    /// the status of a response that nothing has decided yet: a response
    /// with another status was decided before and is left as it is, and a
    /// handler that does not set a status answers with `Okay`. The handler
    /// that is registered for the path of a `GET` is called once, on the
    /// response as it is.
    pub fn handle_routes(&self, request: &Request, response: &mut Response, file: FileRead) -> (outcome:
        Result<(), HttpError>)
        ensures
            old(response).status() != Status::Okay ==> outcome is Ok && *final(response) == *old(response),
            old(response).status() == Status::Okay ==> {
                match settled(route_past_gate(self.config(), request@), file@) {
                    None => outcome is Ok && self.config().handler_of(request@.path).answers(
                        request@,
                        *old(response),
                        *final(response),
                    ),
                    Some(Ok(contents)) => outcome is Ok && final(response).status() == Status::Okay
                        && final(response).body() == contents && final(response).added_fields()
                        == old(response).added_fields(),
                    Some(Err(error)) => outcome == Err::<(), HttpError>(error) && *final(response)
                        == *old(response),
                }
            },
    {
        if *response.get_status_code() == Status::Okay {
            let handler = self.config.request_handlers.get(request.get_path());
            if *request.get_method() == Method::GET {
                match handler {
                    Some(handler) => {
                        handler.handle(request, response);
                    },
                    None => {
                        return self.load_content_from_file(response, file);
                    },
                }
            } else {
                return match (handler, file) {
                    (None, FileRead::NotFound) => Err(
                        HttpError::ServerError(ServerError::MethodNotImplemented),
                    ),
                    (_, _) => Err(HttpError::ClientError(ClientError::MethodNotAllowed)),
                };
            }
        }
        Ok(())
    }

    /// Makes what reading a file gave the body of the response: the
    /// contents where the file was found; an error, and no change, where
    /// it was not found or not read.
    pub fn load_content_from_file(&self, response: &mut Response, file: FileRead) -> (outcome:
        Result<(), HttpError>)
        ensures
            match file@ {
                FileReadView::Found(contents) => outcome is Ok && final(response).body() == contents
                    && final(response).status() == old(response).status() && final(response).added_fields() == old(response).added_fields(),
                FileReadView::NotFound => outcome == Err::<(), HttpError>(
                    HttpError::ClientError(ClientError::NotFound),
                ) && *final(response) == *old(response),
                FileReadView::Failed => outcome == Err::<(), HttpError>(
                    HttpError::ServerError(ServerError::InternalServerError),
                ) && *final(response) == *old(response),
            },
    {
        match file {
            FileRead::Found(contents) => {
                response.set_body(contents);
                Ok(())
            },
            FileRead::NotFound => Err(HttpError::ClientError(ClientError::NotFound)),
            FileRead::Failed => Err(HttpError::ServerError(ServerError::InternalServerError)),
        }
    }
}

} // verus!
