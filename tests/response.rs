use httpserver::response::HttpResponse;
use std::collections::HashMap;

fn header_map(r: &HttpResponse) -> Option<HashMap<String, String>> {
    r.headers().map(|h| h.iter().cloned().collect())
}

fn content_type_html() -> Option<HashMap<String, String>> {
    let mut h = HashMap::new();
    h.insert("Content-Type".to_string(), "text/html".to_string());
    Some(h)
}

#[test]
fn test_send_response_parse() {
    let headers = vec![("Content-Type".to_string(), "text/html".to_string())];
    let new_response = HttpResponse::new("200", Some(headers), None);
    let parsed_response = new_response.to_string();
    let expected_response =
        "HTTP/1.1 200 OK\r\nContent-Type: text/html\r\nContent-Length: 0\r\n\r\n";
    println!("\nExpected response:\n{}", expected_response);
    println!("Parsed response:\n{}", parsed_response);
    assert_eq!(parsed_response, expected_response);
}

#[test]
fn test_response_struct_creation_200() {
    let response_actual =
        HttpResponse::new("200", None, Some("Item was shipped on my birthday".into()));
    println!("Actual:\n {}\n", response_actual.to_string());
    assert_eq!(response_actual.version(), "HTTP/1.1");
    assert_eq!(response_actual.status_code(), "200");
    assert_eq!(response_actual.status_text(), "OK");
    assert_eq!(header_map(&response_actual), content_type_html());
    assert_eq!(response_actual.body(), "Item was shipped on my birthday");
}

#[test]
fn test_response_struct_creation_404() {
    let response_actual =
        HttpResponse::new("404", None, Some("Item was shipped on 21st Dec 2020".into()));
    assert_eq!(response_actual.version(), "HTTP/1.1");
    assert_eq!(response_actual.status_code(), "404");
    assert_eq!(response_actual.status_text(), "Not Found");
    assert_eq!(header_map(&response_actual), content_type_html());
    assert_eq!(response_actual.body(), "Item was shipped on 21st Dec 2020");
}

#[test]
fn test_http_response_creation() {
    let response = HttpResponse::new("404", None, Some("Item was shipped on 21st Dec 2020".into()));
    let http_string: String = response.to_string();
    let response_actual = "HTTP/1.1 404 Not Found\r\nContent-Type: text/html\r\nContent-Length: 33\r\n\r\nItem was shipped on 21st Dec 2020";
    assert_eq!(http_string, response_actual);
}

#[test]
fn default_headers_when_none_given() {
    let r = HttpResponse::new("200", None, None);
    assert_eq!(
        r.to_string(),
        "HTTP/1.1 200 OK\r\nContent-Type: text/html\r\nContent-Length: 0\r\n\r\n"
    );
}

#[test]
fn explicit_empty_headers_stay_empty() {
    let r = HttpResponse::new("200", Some(Vec::new()), Some("hi".to_string()));
    assert_eq!(r.to_string(), "HTTP/1.1 200 OK\r\nContent-Length: 2\r\n\r\nhi");
    assert_eq!(header_map(&r), Some(HashMap::new()));
}

#[test]
fn status_table() {
    assert_eq!(HttpResponse::new("404", None, None).status_text(), "Not Found");
    // An unknown code reads "Not Found" as well.
    assert_eq!(HttpResponse::new("999", None, None).status_text(), "Not Found");
    assert_eq!(HttpResponse::new("400", None, None).status_text(), "Bad Request");
    assert_eq!(HttpResponse::new("500", None, None).status_text(), "Internal Server Error");
    assert_eq!(HttpResponse::new("200", None, None).status_text(), "OK");
    assert_eq!(HttpResponse::new("999", None, None).status_code(), "999");
}

#[test]
fn serializing_twice_is_identical() {
    let headers = vec![
        ("A".to_string(), "1".to_string()),
        ("B".to_string(), "2".to_string()),
    ];
    let r = HttpResponse::new("200", Some(headers), Some("body".to_string()));
    assert_eq!(r.to_string(), r.to_string());
    assert_eq!(r.send_response(), r.send_response());
    assert_eq!(
        r.to_string(),
        "HTTP/1.1 200 OK\r\nA: 1\r\nB: 2\r\nContent-Length: 4\r\n\r\nbody"
    );
}

#[test]
fn content_length_counts_bytes() {
    let r = HttpResponse::new("200", Some(Vec::new()), Some("héllo".to_string()));
    assert_eq!(r.to_string(), "HTTP/1.1 200 OK\r\nContent-Length: 6\r\n\r\nhéllo");
}

#[test]
fn content_length_of_many_digits() {
    let body = "x".repeat(1234);
    let r = HttpResponse::new("200", Some(Vec::new()), Some(body.clone()));
    assert_eq!(r.to_string(), format!("HTTP/1.1 200 OK\r\nContent-Length: 1234\r\n\r\n{}", body));
}

#[test]
fn send_response_is_utf8_of_wire_form() {
    let r = HttpResponse::new("500", None, Some("é".to_string()));
    let bytes = r.send_response();
    assert_eq!(
        bytes,
        "HTTP/1.1 500 Internal Server Error\r\nContent-Type: text/html\r\nContent-Length: 2\r\n\r\né"
            .as_bytes()
            .to_vec()
    );
}

#[test]
fn body_defaults_to_empty() {
    assert_eq!(HttpResponse::new("200", None, None).body(), "");
}

#[test]
fn header_lines_text() {
    let headers = vec![
        ("A".to_string(), "1".to_string()),
        ("B".to_string(), "x y".to_string()),
    ];
    let r = HttpResponse::new("200", Some(headers), None);
    assert_eq!(r.headers_text(), "A: 1\r\nB: x y\r\n");
    assert_eq!(HttpResponse::new("200", Some(Vec::new()), None).headers_text(), "");
    assert_eq!(HttpResponse::new("200", None, None).headers_text(), "Content-Type: text/html\r\n");
}

#[test]
fn header_block_reads_back_to_the_same_headers() {
    let headers = vec![
        ("Content-Type".to_string(), "text/html".to_string()),
        ("X-Time".to_string(), "12:30".to_string()),
    ];
    let r = HttpResponse::new("200", Some(headers.clone()), Some("ok".to_string()));
    let text = r.headers_text();
    let read: Vec<(String, String)> = text
        .lines()
        .map(|l| {
            let i = l.find(':').unwrap();
            (l[..i].to_string(), l[i + 2..].to_string())
        })
        .collect();
    assert_eq!(read, headers);
    assert!(r.to_string().contains(&text));
}
