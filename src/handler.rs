use crate::router::{classify, route_of, Route};
use crate::store::{inserted, is_listing, marker_text, removed, updated, UserData, UserStore};
use crate::text::{decimal, decimal_string, join_decimal, join_ids, push_decimal};
use vstd::prelude::*;
use vstd::string::StringSliceAdditionalSpecFns;

verus! {

/// The request methods that the service tells apart.
#[derive(Clone, Copy, Debug, PartialEq, Eq, Structural)]
pub enum Method {
    Get,
    Post,
    Put,
    Delete,
    /// Any other method.
    Other,
}

/// The outcome of a request.
#[derive(Clone, Copy, Debug, PartialEq, Eq, Structural)]
pub enum Status {
    Success,
    BadRequest,
    NotFound,
    MethodNotAllowed,
}

impl Status {
    /// The HTTP status code.
    pub open spec fn spec_code(self) -> u16 {
        match self {
            Status::Success => 200,
            Status::BadRequest => 400,
            Status::NotFound => 404,
            Status::MethodNotAllowed => 405,
        }
    }

    /// The HTTP status code.
    pub fn code(&self) -> (r: u16)
        ensures
            r == self.spec_code(),
    {
        match self {
            Status::Success => 200,
            Status::BadRequest => 400,
            Status::NotFound => 404,
            Status::MethodNotAllowed => 405,
        }
    }
}

/// A status and a body text.
pub struct Reply {
    pub status: Status,
    pub body: String,
}

/// The landing page up to the random number.
pub const INDEX_HEAD: &'static str = "\n<!doctype html>\n<html>\n    <head>\n        <title>Rust Microservices</title>\n    </head>\n    <body>\n        <h3>Rust Microservices ";

/// The landing page after the random number.
pub const INDEX_TAIL: &'static str = "</h3>\n    </body>\n</html>\n";

/// The landing page showing `b`.
pub open spec fn index_page(b: u8) -> Seq<char> {
    INDEX_HEAD@ + decimal(b as nat) + INDEX_TAIL@
}

/// A reply with status `s` and an empty body.
pub open spec fn bare(r: Reply, s: Status) -> bool {
    r.status == s && r.body@.len() == 0
}

/// What a request on a user with a known id does to the store and replies.
pub open spec fn handled_user(pre: UserStore, post: UserStore, method: Method, id: usize, reply: Reply) -> bool {
    let live = pre@.contains_key(id);
    match method {
        Method::Post => post == pre && bare(reply, Status::BadRequest),
        Method::Get => post == pre && if live {
            reply.status == Status::Success && reply.body@ == marker_text()
        } else {
            bare(reply, Status::NotFound)
        },
        Method::Put => updated(pre, post, id, UserData, live) && if live {
            bare(reply, Status::Success)
        } else {
            bare(reply, Status::NotFound)
        },
        Method::Delete => removed(pre, post, id, live) && if live {
            bare(reply, Status::Success)
        } else {
            bare(reply, Status::NotFound)
        },
        Method::Other => post == pre && bare(reply, Status::MethodNotAllowed),
    }
}

/// The request `method` on `route` takes the store from `pre` to `post` and
/// gives `reply`; `byte` is the number that the landing page shows.
pub open spec fn handled(pre: UserStore, post: UserStore, method: Method, route: Route, byte: u8, reply: Reply) -> bool {
    match route {
        Route::Index => post == pre && if method == Method::Get {
            reply.status == Status::Success && reply.body@ == index_page(byte)
        } else {
            bare(reply, Status::MethodNotAllowed)
        },
        Route::Users => post == pre && if method == Method::Get {
            reply.status == Status::Success && exists|ids: Seq<usize>|
                is_listing(ids, pre@) && #[trigger] join_ids(ids) == reply.body@
        } else {
            bare(reply, Status::MethodNotAllowed)
        },
        Route::User(None) => if method == Method::Post {
            &&& reply.status == Status::Success
            &&& exists|id: usize| inserted(pre, post, UserData, id) && #[trigger] decimal(id as nat) == reply.body@
        } else {
            post == pre && bare(reply, Status::MethodNotAllowed)
        },
        Route::User(Some(id)) => handled_user(pre, post, method, id, reply),
        Route::NotFound => post == pre && bare(reply, Status::NotFound),
    }
}

fn bare_reply(status: Status) -> (r: Reply)
    ensures
        bare(r, status),
{
    Reply { status, body: String::new() }
}

/// The landing page showing `b`.
pub fn index_page_text(b: u8) -> (r: String)
    ensures
        r@ == index_page(b),
{
    let mut out = String::from_str(INDEX_HEAD);
    push_decimal(&mut out, b as usize);
    out.append(INDEX_TAIL);
    out
}

fn handle_user(store: &mut UserStore, method: Method, id: usize) -> (r: Reply)
    requires
        old(store).wf(),
    ensures
        final(store).wf(),
        handled_user(*old(store), *final(store), method, id, r),
{
    match method {
        Method::Post => bare_reply(Status::BadRequest),
        Method::Get => match store.get(id) {
            Some(rec) => Reply { status: Status::Success, body: rec.text() },
            None => bare_reply(Status::NotFound),
        },
        Method::Put => {
            if store.update(id, UserData) {
                bare_reply(Status::Success)
            } else {
                bare_reply(Status::NotFound)
            }
        },
        Method::Delete => {
            if store.remove(id) {
                bare_reply(Status::Success)
            } else {
                bare_reply(Status::NotFound)
            }
        },
        Method::Other => bare_reply(Status::MethodNotAllowed),
    }
}

/// Serves `method` on `route` against the store; `byte` is the number that
/// the landing page shows.
pub fn dispatch(store: &mut UserStore, method: Method, route: Route, byte: u8) -> (r: Reply)
    requires
        old(store).wf(),
    ensures
        final(store).wf(),
        handled(*old(store), *final(store), method, route, byte, r),
{
    match route {
        Route::Index => {
            if method == Method::Get {
                Reply { status: Status::Success, body: index_page_text(byte) }
            } else {
                bare_reply(Status::MethodNotAllowed)
            }
        },
        Route::Users => {
            if method == Method::Get {
                let ids = store.list_ids();
                let body = join_decimal(&ids);
                assert(is_listing(ids@, store@) && join_ids(ids@) == body@);
                Reply { status: Status::Success, body }
            } else {
                bare_reply(Status::MethodNotAllowed)
            }
        },
        Route::User(None) => {
            if method == Method::Post {
                let id = store.insert(UserData);
                let body = decimal_string(id);
                assert(inserted(*old(store), *store, UserData, id) && decimal(id as nat) == body@);
                Reply { status: Status::Success, body }
            } else {
                bare_reply(Status::MethodNotAllowed)
            }
        },
        Route::User(Some(id)) => handle_user(store, method, id),
        Route::NotFound => bare_reply(Status::NotFound),
    }
}

/// Relies on rand::random::<u8>: some byte, drawn afresh on each call.
#[verifier::external_body]
fn random_byte() -> (r: u8) {
    rand::random::<u8>()
}

/// Serves one request: classifies `path`, draws a fresh random number for
/// the landing page, and acts on the store.
pub fn handle(store: &mut UserStore, method: Method, path: &str) -> (r: Reply)
    requires
        old(store).wf(),
    ensures
        final(store).wf(),
        exists|b: u8| handled(*old(store), *final(store), method, route_of(path.spec_bytes()), b, r),
{
    let route = classify(path);
    let byte = if route == Route::Index && method == Method::Get {
        random_byte()
    } else {
        0
    };
    let r = dispatch(store, method, route, byte);
    assert(handled(*old(store), *store, method, route, byte, r));
    r
}

/// A POST that names an id is refused and leaves the store alone, whether or
/// not that id is live.
pub proof fn lemma_post_with_id_rejected(pre: UserStore, post: UserStore, id: usize, byte: u8, reply: Reply)
    requires
        handled(pre, post, Method::Post, Route::User(Some(id)), byte, reply),
    ensures
        reply.status == Status::BadRequest,
        post == pre,
{
}

} // verus!
