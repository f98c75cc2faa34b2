use httpserver::handler::{
    Handler, OrderStatus, PageNotFoundHandler, StaticPageHandler, WebServiceHandler,
};
use httpserver::request::ParseError;
use httpserver::request::HttpRequest;
use httpserver::router::{Route, Router};
use httpserver::server::{ReadProgress, Server, MAX_REQUEST_BYTES};

fn req(text: &str) -> HttpRequest {
    HttpRequest::parse(text).unwrap()
}

#[test]
fn get_api_goes_to_web_service() {
    assert_eq!(Router::router(&req("GET /api/orders HTTP/1.1\r\n\r\n")), Route::WebService);
}

#[test]
fn get_page_goes_to_static_page() {
    assert_eq!(Router::router(&req("GET /index.html HTTP/1.1\r\n\r\n")), Route::StaticPage);
}

#[test]
fn post_goes_to_not_found() {
    assert_eq!(Router::router(&req("POST /api/orders HTTP/1.1\r\n\r\n")), Route::PageNotFound);
    assert_eq!(Router::router(&req("POST / HTTP/1.1\r\n\r\n")), Route::PageNotFound);
    assert_eq!(Router::router(&req("DELETE / HTTP/1.1\r\n\r\n")), Route::PageNotFound);
}

#[test]
fn root_goes_to_static_page() {
    assert_eq!(Router::router(&req("GET / HTTP/1.1\r\n\r\n")), Route::StaticPage);
}

#[test]
fn api_must_be_the_second_segment() {
    assert_eq!(Router::router(&req("GET /apis HTTP/1.1\r\n\r\n")), Route::StaticPage);
    assert_eq!(Router::router(&req("GET /x/api HTTP/1.1\r\n\r\n")), Route::StaticPage);
    assert_eq!(Router::router(&req("GET /api HTTP/1.1\r\n\r\n")), Route::WebService);
    assert_eq!(Router::router(&req("GET api HTTP/1.1\r\n\r\n")), Route::StaticPage);
}

#[test]
fn files_to_load() {
    assert_eq!(Router::file_to_load(&req("GET / HTTP/1.1\r\n\r\n")), Some("index.html".to_string()));
    assert_eq!(
        Router::file_to_load(&req("GET /style.css HTTP/1.1\r\n\r\n")),
        Some("style.css".to_string())
    );
    assert_eq!(
        Router::file_to_load(&req("POST /a HTTP/1.1\r\n\r\n")),
        Some("404.html".to_string())
    );
    assert_eq!(Router::file_to_load(&req("GET /api/x HTTP/1.1\r\n\r\n")), None);
}

#[test]
fn parent_directory_is_refused() {
    assert_eq!(StaticPageHandler::file_name(&req("GET /../secret HTTP/1.1\r\n\r\n")), None);
    assert_eq!(Router::file_to_load(&req("GET /a/../../b HTTP/1.1\r\n\r\n")), None);
}

#[test]
fn absolute_names_are_refused() {
    assert_eq!(StaticPageHandler::file_name(&req("GET //etc/passwd HTTP/1.1\r\n\r\n")), None);
    assert_eq!(Router::file_to_load(&req("GET ///x HTTP/1.1\r\n\r\n")), None);
    assert_eq!(
        StaticPageHandler::file_name(&req("GET etc/passwd HTTP/1.1\r\n\r\n")),
        Some("etc/passwd".to_string())
    );
    assert_eq!(
        StaticPageHandler::file_name(&req("GET /a/b.html HTTP/1.1\r\n\r\n")),
        Some("a/b.html".to_string())
    );
}

#[test]
fn answer_to_parse_outcome() {
    let bad: Result<HttpRequest, ParseError> = HttpRequest::parse("GET HTTP/1.1\r\n\r\n");
    assert_eq!(
        Router::answer(&bad, None).to_string(),
        "HTTP/1.1 400 Bad Request\r\nContent-Type: text/html\r\nContent-Length: 0\r\n\r\n"
    );
    let good = HttpRequest::parse("GET /index.html HTTP/1.1\r\n\r\n");
    let r = Router::answer(&good, Some("hello".to_string()));
    assert_eq!(r.status_code(), "200");
    assert_eq!(r.body(), "hello");
}

#[test]
fn responses_per_route() {
    let page = Router::respond(&req("GET /index.html HTTP/1.1\r\n\r\n"), Some("<p>".to_string()));
    assert_eq!(page.status_code(), "200");
    assert_eq!(page.body(), "<p>");
    let missing = Router::respond(&req("GET /nope.html HTTP/1.1\r\n\r\n"), None);
    assert_eq!(missing.status_code(), "404");
    assert_eq!(missing.body(), "");
    let nf = Router::respond(&req("POST / HTTP/1.1\r\n\r\n"), Some("gone".to_string()));
    assert_eq!(nf.to_string(), "HTTP/1.1 404 Not Found\r\nContent-Type: text/html\r\nContent-Length: 4\r\n\r\ngone");
    let api = Router::respond(&req("GET /api/orders HTTP/1.1\r\n\r\n"), None);
    assert_eq!(api.status_code(), "404");
}

#[test]
fn handlers_directly() {
    let r = req("GET / HTTP/1.1\r\n\r\n");
    assert_eq!(PageNotFoundHandler::handle(&r, None).status_text(), "Not Found");
    assert_eq!(WebServiceHandler::handle(&r, Some("x".to_string())).status_code(), "404");
    assert_eq!(StaticPageHandler::handle(&r, Some("x".to_string())).status_text(), "OK");
    assert_eq!(Router::handle_api(&r).status_code(), "404");
    assert_eq!(Router::handle_static(&r, None).status_code(), "404");
    assert_eq!(Router::handle_not_found(&r, Some("p".to_string())).body(), "p");
}

#[test]
fn order_status_fields() {
    let o = OrderStatus { order_id: 7, order_date: "2020-12-21".to_string(), order_status: "Shipped".to_string() };
    assert_eq!(o.order_id, 7);
}

#[test]
fn server_keeps_address() {
    let s = Server::new("localhost:3000");
    assert_eq!(s.socket_address(), "localhost:3000");
}

#[test]
fn read_progress_cases() {
    assert_eq!(Server::read_progress(b"GET / HTTP/1.1\r\n\r\n"), ReadProgress::Complete);
    assert_eq!(Server::read_progress(b"GET / HTTP/1.1\r\n"), ReadProgress::NeedMore);
    assert_eq!(Server::read_progress(b""), ReadProgress::NeedMore);
    assert_eq!(Server::read_progress(&vec![b'a'; MAX_REQUEST_BYTES]), ReadProgress::NeedMore);
    assert_eq!(Server::read_progress(&vec![b'a'; MAX_REQUEST_BYTES + 1]), ReadProgress::TooLarge);
    let mut big = vec![b'a'; MAX_REQUEST_BYTES + 10];
    big.extend_from_slice(b"\r\n\r\n");
    assert_eq!(Server::read_progress(&big), ReadProgress::Complete);
}

#[test]
fn read_progress_when_peer_closes() {
    assert_eq!(Server::read_progress_at_close(b""), ReadProgress::Closed);
    assert_eq!(Server::read_progress_at_close(b"GET / HTTP/1.1\r\n"), ReadProgress::Complete);
    assert_eq!(
        Server::read_progress_at_close(&vec![b'a'; MAX_REQUEST_BYTES + 1]),
        ReadProgress::TooLarge
    );
}
