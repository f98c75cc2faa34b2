//! Handlers: each turns a request (and the file content it asked for) into a response.
use vstd::prelude::*;

use crate::request::HttpRequest;
use crate::response::{built, opt_view, HttpResponse, ResponseModel};
use crate::text::{contains_seq, contains_str, str_eq};

verus! {

/// An order record as the web service describes it.
pub struct OrderStatus {
    pub order_id: i32,
    pub order_date: String,
    pub order_status: String,
}

/// Serves files below the public root.
pub struct StaticPageHandler;

/// Answers with the not-found page.
pub struct PageNotFoundHandler;

/// Answers API requests.
pub struct WebServiceHandler;

/// The file that serves the page not found.
pub open spec fn not_found_page() -> Seq<char> {
    "404.html"@
}

/// The file name a static path asks for: the index page for the root,
/// else the path without its leading slash.
pub open spec fn requested_name(path: Seq<char>) -> Seq<char> {
    if path.len() == 0 || path == "/"@ {
        "index.html"@
    } else if path[0] == '/' {
        path.drop_first()
    } else {
        path
    }
}

/// A path that could climb out of the public root: it holds `..`, or the
/// name it asks for is absolute (a second leading `/`), which a path join
/// would take in place of the root.
pub open spec fn escapes_root(path: Seq<char>) -> bool {
    ||| contains_seq(path, ".."@)
    ||| (requested_name(path).len() > 0 && requested_name(path)[0] == '/')
}

/// The capability every handler has: turn a request, and the file content
/// loaded for it, into a response.
pub trait Handler {
    /// The response that `handle` gives.
    spec fn response_for(content: Option<Seq<char>>) -> ResponseModel;

    fn handle(req: &HttpRequest, content: Option<String>) -> (r: HttpResponse)
        ensures
            r@ == Self::response_for(opt_view(content)),
    ;
}

impl StaticPageHandler {
    /// The file to load for the request, or `None` when its path could
    /// leave the public root.
    pub fn file_name(req: &HttpRequest) -> (r: Option<String>)
        ensures
            r is None <==> escapes_root(req@.path),
            r is Some ==> r->Some_0@ == requested_name(req@.path),
    {
        let path = match &req.resource {
            crate::request::Resource::Path(p) => p.as_str(),
        };
        if contains_str(path, "..") {
            return None;
        }
        let n = path.unicode_len();
        if n == 0 || str_eq(path, "/") {
            proof {
                reveal_strlit("index.html");
            }
            return Some(String::from_str("index.html"));
        }
        let name = if path.get_char(0) == '/' {
            let rest = path.substring_char(1, n);
            proof {
                assert(rest@ =~= req@.path.drop_first());
            }
            rest
        } else {
            path
        };
        if name.unicode_len() > 0 && name.get_char(0) == '/' {
            return None;
        }
        Some(String::from_str(name))
    }
}

impl Handler for StaticPageHandler {
    /// The file's content with status 200, or an empty 404 when nothing was loaded.
    open spec fn response_for(content: Option<Seq<char>>) -> ResponseModel {
        match content {
            Some(c) => built("200"@, None, Some(c)),
            None => built("404"@, None, None),
        }
    }

    fn handle(_req: &HttpRequest, content: Option<String>) -> (r: HttpResponse) {
        match content {
            Some(c) => HttpResponse::new("200", None, Some(c)),
            None => HttpResponse::new("404", None, None),
        }
    }
}

impl Handler for PageNotFoundHandler {
    /// Status 404 with the not-found page (if it could be loaded) as body.
    open spec fn response_for(content: Option<Seq<char>>) -> ResponseModel {
        built("404"@, None, content)
    }

    fn handle(_req: &HttpRequest, content: Option<String>) -> (r: HttpResponse) {
        HttpResponse::new("404", None, content)
    }
}

impl Handler for WebServiceHandler {
    /// No API endpoint is implemented: every API request is answered with
    /// an empty 404, whatever was loaded.
    open spec fn response_for(content: Option<Seq<char>>) -> ResponseModel {
        built("404"@, None, None)
    }

    fn handle(_req: &HttpRequest, _content: Option<String>) -> (r: HttpResponse) {
        HttpResponse::new("404", None, None)
    }
}

} // verus!
