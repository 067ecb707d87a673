//! The configuration of a server, fixed before it starts.

use crate::http::request::{Request, RequestView};
use crate::http::response::Response;
use vstd::hash_map::StringHashMap;
use vstd::prelude::*;

verus! {

/// A handler for the requests to one path. It is given the request and the
/// response to fill in, and is alone responsible for status and body.
pub trait RequestHandler: Send + Sync {
    /// Whether the handler may turn the response `before` into the response
    /// `after` when it is given `request`. A handler that does not say
    /// what it does may do anything.
    open spec fn answers(&self, request: RequestView, before: Response, after: Response) -> bool {
        true
    }

    /// Answers `request` by filling in `response`.
    fn handle(&self, request: &Request, response: &mut Response)
        ensures
            self.answers(request@, *old(response), *final(response)),
    ;
}

/// The configuration of a server whose handlers are of the type `H`.
#[verifier::reject_recursive_types(H)]
pub struct Config<H: RequestHandler> {
    /// The port to listen on.
    pub port: u32,
    /// The directory that holds the static files; file names are appended
    /// to it as they are.
    pub root_path: String,
    /// The name of the file that answers the path `/`.
    pub index: String,
    /// The user name that opens the admin page.
    pub username: String,
    /// The password that opens the admin page.
    pub password: String,
    /// The realm that an authentication challenge names.
    pub realm: String,
    /// The handlers, by the exact path that they answer.
    pub request_handlers: StringHashMap<H>,
}

impl<H: RequestHandler> Config<H> {
    /// Whether all settings but the handlers are those of `other`.
    pub open spec fn same_settings(self, other: Config<H>) -> bool {
        &&& self.port == other.port
        &&& self.root_path@ == other.root_path@
        &&& self.index@ == other.index@
        &&& self.username@ == other.username@
        &&& self.password@ == other.password@
        &&& self.realm@ == other.realm@
    }

    /// Whether a handler is registered for `path`.
    pub open spec fn handles(self, path: Seq<char>) -> bool {
        self.request_handlers@.dom().contains(path)
    }

    /// The handler that is registered for `path`.
    pub open spec fn handler_of(self, path: Seq<char>) -> H {
        self.request_handlers@[path]
    }

    /// Whether the settings are those that a new configuration has.
    pub open spec fn is_default(self) -> bool {
        &&& self.port == 8080
        &&& self.root_path@ == "root/"@
        &&& self.index@ == "index.html"@
        &&& self.username@ == "user"@
        &&& self.password@ == "password"@
        &&& self.realm@ == "WallyWorld"@
        &&& self.request_handlers@ == Map::<Seq<char>, H>::empty()
    }

    /// The configuration that a server has where nothing is set.
    pub fn default() -> (config: Config<H>)
        ensures
            config.is_default(),
    {
        Config {
            port: 8080,
            root_path: "root/".to_owned(),
            index: "index.html".to_owned(),
            username: "user".to_owned(),
            password: "password".to_owned(),
            realm: "WallyWorld".to_owned(),
            request_handlers: StringHashMap::new(),
        }
    }

    /// The same as `default`.
    pub fn new() -> (config: Config<H>)
        ensures
            config.is_default(),
    {
        Config::default()
    }

    /// Sets the name of the file that answers the path `/`.
    pub fn set_index(&mut self, index: &str)
        ensures
            final(self).index@ == index@,
            final(self).port == old(self).port,
            final(self).root_path@ == old(self).root_path@,
            final(self).username@ == old(self).username@,
            final(self).password@ == old(self).password@,
            final(self).realm@ == old(self).realm@,
            final(self).request_handlers@ == old(self).request_handlers@,
    {
        self.index = index.to_owned();
    }

    /// Registers `handler` for the path `path`, in the place of any handler
    /// that the path had.
    pub fn add_request_handler(&mut self, path: &str, handler: H)
        ensures
            final(self).request_handlers@ == old(self).request_handlers@.insert(path@, handler),
            final(self).same_settings(*old(self)),
    {
        self.request_handlers.insert(path.to_owned(), handler);
    }
}

} // verus!
