//! Dispatch of a request to a handler.
use vstd::prelude::*;

use crate::handler::{
    escapes_root, not_found_page, requested_name, Handler, PageNotFoundHandler,
    StaticPageHandler, WebServiceHandler,
};
use crate::request::{HttpRequest, Method, ParseError, Resource};
use crate::response::{built, opt_view, HttpResponse, ResponseModel};
use crate::text::{find_char, index_of, lemma_index_of_bound, str_eq};

verus! {

/// Chooses the handler for each request.
pub struct Router;

/// The handler a request goes to.
#[derive(PartialEq, Eq, Structural, Debug, Clone, Copy)]
pub enum Route {
    WebService,
    StaticPage,
    PageNotFound,
}

/// The second `/`-separated segment of a path is `api`.
pub open spec fn is_api_path(path: Seq<char>) -> bool {
    let i = index_of(path, '/') as int;
    &&& i < path.len()
    &&& {
        let rest = path.skip(i + 1);
        rest.take(index_of(rest, '/') as int) == "api"@
    }
}

/// Non-GET requests are not found; GET requests under `/api` go to the web
/// service; every other GET serves a static page.
pub open spec fn route_of(method: Method, path: Seq<char>) -> Route {
    if method != Method::GET {
        Route::PageNotFound
    } else if is_api_path(path) {
        Route::WebService
    } else {
        Route::StaticPage
    }
}

/// The response to a request, given what was loaded for it.
pub open spec fn routed_response(method: Method, path: Seq<char>, content: Option<Seq<char>>) -> ResponseModel {
    match route_of(method, path) {
        Route::PageNotFound => built("404"@, None, content),
        Route::StaticPage => match content {
            Some(c) => built("200"@, None, Some(c)),
            None => built("404"@, None, None),
        },
        Route::WebService => built("404"@, None, None),
    }
}

impl Router {
    /// The response to the outcome of parsing: the routed response for a
    /// request, and an empty 400 for text that could not be parsed.
    pub fn answer(parsed: &Result<HttpRequest, ParseError>, content: Option<String>) -> (r:
        HttpResponse)
        ensures
            parsed is Ok ==> r@ == routed_response(
                parsed->Ok_0@.method,
                parsed->Ok_0@.path,
                opt_view(content),
            ),
            parsed is Err ==> r@ == built("400"@, None, None),
    {
        match parsed {
            Ok(req) => Self::respond(req, content),
            Err(_) => HttpResponse::new("400", None, None),
        }
    }

    /// The handler for `req`.
    pub fn router(req: &HttpRequest) -> (r: Route)
        ensures
            r == route_of(req@.method, req@.path),
    {
        match req.method {
            Method::GET => {
                if Self::is_api(req) {
                    Route::WebService
                } else {
                    Route::StaticPage
                }
            },
            _ => Route::PageNotFound,
        }
    }

    fn is_api(req: &HttpRequest) -> (r: bool)
        ensures
            r == is_api_path(req@.path),
    {
        let path = match &req.resource {
            Resource::Path(p) => p.as_str(),
        };
        let n = path.unicode_len();
        let i = find_char(path, n, 0, '/');
        proof {
            assert(path@.skip(0) =~= path@);
        }
        if i == n {
            return false;
        }
        let j = find_char(path, n, i + 1, '/');
        let second = path.substring_char(i + 1, j);
        proof {
            let rest = path@.skip(i + 1);
            lemma_index_of_bound(rest, '/');
            assert(second@ =~= rest.take(index_of(rest, '/') as int));
        }
        str_eq(second, "api")
    }

    /// The file that the chosen handler reads: the not-found page, the
    /// requested static file, or none.
    pub fn file_to_load(req: &HttpRequest) -> (r: Option<String>)
        ensures
            match route_of(req@.method, req@.path) {
                Route::PageNotFound => r is Some && r->Some_0@ == not_found_page(),
                Route::StaticPage => if escapes_root(req@.path) {
                    r is None
                } else {
                    r is Some && r->Some_0@ == requested_name(req@.path)
                },
                Route::WebService => r is None,
            },
    {
        match Self::router(req) {
            Route::PageNotFound => Some(String::from_str("404.html")),
            Route::StaticPage => StaticPageHandler::file_name(req),
            Route::WebService => None,
        }
    }

    /// The response to `req`, given what was loaded for it.
    pub fn respond(req: &HttpRequest, content: Option<String>) -> (r: HttpResponse)
        ensures
            r@ == routed_response(req@.method, req@.path, opt_view(content)),
    {
        match Self::router(req) {
            Route::PageNotFound => Self::handle_not_found(req, content),
            Route::StaticPage => Self::handle_static(req, content),
            Route::WebService => Self::handle_api(req),
        }
    }

    /// The web service's response.
    pub fn handle_api(req: &HttpRequest) -> (r: HttpResponse)
        ensures
            r@ == built("404"@, None, None),
    {
        WebServiceHandler::handle(req, None)
    }

    /// The static page's response for the loaded content.
    pub fn handle_static(req: &HttpRequest, content: Option<String>) -> (r: HttpResponse)
        ensures
            content is Some ==> r@ == built("200"@, None, opt_view(content)),
            content is None ==> r@ == built("404"@, None, None),
    {
        StaticPageHandler::handle(req, content)
    }

    /// The not-found response with the loaded page.
    pub fn handle_not_found(req: &HttpRequest, page: Option<String>) -> (r: HttpResponse)
        ensures
            r@ == built("404"@, None, opt_view(page)),
    {
        PageNotFoundHandler::handle(req, page)
    }
}

} // verus!
