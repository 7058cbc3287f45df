//! Route matching: which handler an HTTP method and path select, and the
//! path parameter the matched pattern binds.

use vstd::prelude::*;
use vstd::string::StrSliceExecFns;

use crate::text::{no_slash_from, starts_with, str_eq};

verus! {

/// The HTTP methods the service routes.
#[derive(Clone, Copy, Debug, PartialEq, Eq, Structural)]
pub enum Method {
    Get,
    Post,
    Put,
    Delete,
}

/// The handler a request is routed to, with the path parameter its pattern
/// bound, or `NotFound` when no pattern matches.
pub enum Route {
    Root,
    FixedUser,
    Greet,
    Echo,
    GreetName(String),
    SharedState,
    CreateUser,
    GetUser(String),
    Users,
    UpdateUser(String),
    DeleteUser(String),
    NotFound,
}

/// The mathematical value of a `Route`: parameters as character sequences.
pub ghost enum RouteView {
    Root,
    FixedUser,
    Greet,
    Echo,
    GreetName(Seq<char>),
    SharedState,
    CreateUser,
    GetUser(Seq<char>),
    Users,
    UpdateUser(Seq<char>),
    DeleteUser(Seq<char>),
    NotFound,
}

impl View for Route {
    type V = RouteView;

    open spec fn view(&self) -> RouteView {
        match self {
            Route::Root => RouteView::Root,
            Route::FixedUser => RouteView::FixedUser,
            Route::Greet => RouteView::Greet,
            Route::Echo => RouteView::Echo,
            Route::GreetName(s) => RouteView::GreetName(s@),
            Route::SharedState => RouteView::SharedState,
            Route::CreateUser => RouteView::CreateUser,
            Route::GetUser(s) => RouteView::GetUser(s@),
            Route::Users => RouteView::Users,
            Route::UpdateUser(s) => RouteView::UpdateUser(s@),
            Route::DeleteUser(s) => RouteView::DeleteUser(s@),
            Route::NotFound => RouteView::NotFound,
        }
    }
}

/// Whether `path` matches the pattern `prefix` followed by one non-empty
/// path segment: the prefix verbatim, then at least one character, none of
/// them a slash.
pub open spec fn param_route(path: Seq<char>, prefix: Seq<char>) -> bool {
    &&& path.len() > prefix.len()
    &&& path.subrange(0, prefix.len() as int) == prefix
    &&& forall|j: int| prefix.len() <= j < path.len() ==> path[j] != '/'
}

/// The segment such a pattern binds: everything after the prefix.
pub open spec fn param_of(path: Seq<char>, prefix: Seq<char>) -> Seq<char> {
    path.subrange(prefix.len() as int, path.len() as int)
}

/// Where each method and path is routed: the fixed paths exactly as given,
/// the parameterised patterns per `param_route`, anything else `NotFound`.
pub open spec fn spec_route(method: Method, path: Seq<char>) -> RouteView {
    match method {
        Method::Get => if path == "/"@ {
            RouteView::Root
        } else if path == "/user"@ {
            RouteView::FixedUser
        } else if path == "/greet"@ {
            RouteView::Greet
        } else if path == "/sharedstate"@ {
            RouteView::SharedState
        } else if path == "/users"@ {
            RouteView::Users
        } else if param_route(path, "/greet/"@) {
            RouteView::GreetName(param_of(path, "/greet/"@))
        } else if param_route(path, "/getuser/"@) {
            RouteView::GetUser(param_of(path, "/getuser/"@))
        } else {
            RouteView::NotFound
        },
        Method::Post => if path == "/echo"@ {
            RouteView::Echo
        } else if path == "/create-user"@ {
            RouteView::CreateUser
        } else {
            RouteView::NotFound
        },
        Method::Put => if param_route(path, "/update-user/"@) {
            RouteView::UpdateUser(param_of(path, "/update-user/"@))
        } else {
            RouteView::NotFound
        },
        Method::Delete => if param_route(path, "/delete-user/"@) {
            RouteView::DeleteUser(param_of(path, "/delete-user/"@))
        } else {
            RouteView::NotFound
        },
    }
}

/// Matches `path` against `prefix` plus one non-empty slash-free segment and
/// returns that segment.
fn match_param(path: &str, prefix: &str) -> (r: Option<String>)
    ensures
        match r {
            Some(s) => param_route(path@, prefix@) && s@ == param_of(path@, prefix@),
            None => !param_route(path@, prefix@),
        },
{
    if !starts_with(path, prefix) {
        return None;
    }
    let plen = prefix.unicode_len();
    let n = path.unicode_len();
    if n <= plen {
        return None;
    }
    if !no_slash_from(path, plen) {
        return None;
    }
    let rest = path.substring_char(plen, n);
    Some(rest.to_owned())
}

/// Routes one request: the handler `method` and `path` select, with the
/// bound path parameter, or `NotFound`.
pub fn route(method: Method, path: &str) -> (r: Route)
    ensures
        r@ == spec_route(method, path@),
{
    match method {
        Method::Get => {
            if str_eq(path, "/") {
                Route::Root
            } else if str_eq(path, "/user") {
                Route::FixedUser
            } else if str_eq(path, "/greet") {
                Route::Greet
            } else if str_eq(path, "/sharedstate") {
                Route::SharedState
            } else if str_eq(path, "/users") {
                Route::Users
            } else if let Some(name) = match_param(path, "/greet/") {
                Route::GreetName(name)
            } else if let Some(id) = match_param(path, "/getuser/") {
                Route::GetUser(id)
            } else {
                Route::NotFound
            }
        },
        Method::Post => {
            if str_eq(path, "/echo") {
                Route::Echo
            } else if str_eq(path, "/create-user") {
                Route::CreateUser
            } else {
                Route::NotFound
            }
        },
        Method::Put => {
            if let Some(id) = match_param(path, "/update-user/") {
                Route::UpdateUser(id)
            } else {
                Route::NotFound
            }
        },
        Method::Delete => {
            if let Some(id) = match_param(path, "/delete-user/") {
                Route::DeleteUser(id)
            } else {
                Route::NotFound
            }
        },
    }
}

} // verus!
