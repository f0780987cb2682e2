use bypaxdpi::http::{
    classify_request, handle_pac_request, http_response, is_get_request, logo_header,
    request_line, request_path, route_request, PacReply, Route,
};
use bypaxdpi::pac::{make_pac_body, make_setup_html};

fn page(reply: PacReply) -> String {
    match reply {
        PacReply::Page { response } => response,
        PacReply::Logo { .. } => panic!("expected a page"),
    }
}

fn chars(s: &str) -> Vec<char> {
    s.chars().collect()
}

#[test]
fn serves_the_current_pac_script() {
    let body = make_pac_body("192.168.1.20", 8080);
    let reply = handle_pac_request(
        b"GET /proxy.pac HTTP/1.1\r\nHost: 192.168.1.20\r\n\r\n",
        &body,
        "http://192.168.1.20:8787/proxy.pac",
        100,
    );
    let expected = format!(
        "HTTP/1.1 200 OK\r\nContent-Type: application/x-ns-proxy-autoconfig\r\nConnection: close\r\nCache-Control: no-cache, no-store, must-revalidate\r\nPragma: no-cache\r\nExpires: 0\r\nContent-Length: {}\r\n\r\n{}",
        body.len(),
        body
    );
    assert_eq!(page(reply), expected);
}

#[test]
fn query_is_ignored_and_method_case_folded() {
    assert_eq!(classify_request(b"get /proxy.pac?t=123 HTTP/1.1\r\n"), Route::PacScript);
    assert_eq!(classify_request(b"Get /logo HTTP/1.0"), Route::Logo);
}

#[test]
fn setup_page_with_byte_length() {
    let url = "http://192.168.1.20:8787/proxy.pac";
    let reply = handle_pac_request(b"GET / HTTP/1.1\r\n\r\n", "unused", url, 0);
    let html = make_setup_html(url);
    let expected = format!(
        "HTTP/1.1 200 OK\r\nContent-Type: text/html; charset=utf-8\r\nConnection: close\r\nCache-Control: no-cache, no-store, must-revalidate\r\nPragma: no-cache\r\nExpires: 0\r\nContent-Length: {}\r\n\r\n{}",
        html.len(),
        html
    );
    assert!(html.len() > html.chars().count());
    assert_eq!(page(reply), expected);
}

#[test]
fn other_requests_are_not_found() {
    let not_found = "HTTP/1.1 404 Not Found\r\nContent-Type: text/plain\r\nConnection: close\r\nCache-Control: no-cache, no-store, must-revalidate\r\nPragma: no-cache\r\nExpires: 0\r\nContent-Length: 0\r\n\r\n";
    assert_eq!(page(handle_pac_request(b"POST /proxy.pac HTTP/1.1\r\n", "b", "u", 1)), not_found);
    assert_eq!(page(handle_pac_request(b"GET /favicon.ico HTTP/1.1\r\n", "b", "u", 1)), not_found);
    assert_eq!(page(handle_pac_request(b"", "b", "u", 1)), not_found);
    assert_eq!(page(handle_pac_request(b"GET /proxy.pac \xff\xfe", "b", "u", 1)), not_found);
    assert_eq!(page(handle_pac_request(b"POST /logo HTTP/1.1", "b", "u", 1)), not_found);
}

#[test]
fn logo_gets_image_header() {
    match handle_pac_request(b"GET /logo HTTP/1.1\r\n", "b", "u", 4321) {
        PacReply::Logo { header } => assert_eq!(
            header,
            "HTTP/1.1 200 OK\r\nContent-Type: image/png\r\nConnection: close\r\nContent-Length: 4321\r\n\r\n"
        ),
        PacReply::Page { .. } => panic!("expected the logo"),
    }
    assert_eq!(logo_header(0), "HTTP/1.1 200 OK\r\nContent-Type: image/png\r\nConnection: close\r\nContent-Length: 0\r\n\r\n");
}

#[test]
fn missing_path_means_root() {
    assert_eq!(classify_request(b"GET"), Route::NotFound);
    assert_eq!(classify_request(b"GET    \r\n"), Route::SetupPage);
    assert_eq!(classify_request(b"GET ?x=1 HTTP/1.1"), Route::SetupPage);
    assert_eq!(classify_request(b"GETX / HTTP/1.1"), Route::NotFound);
}

#[test]
fn first_line_follows_str_lines() {
    let cases: [&[u8]; 6] = [
        b"GET / HTTP/1.1\r\nHost: a\r\n",
        b"GET / HTTP/1.1\nHost: a",
        b"GET / HTTP/1.1\r",
        b"",
        b"\r\nGET /",
        b"one line only",
    ];
    for c in cases {
        let text = std::str::from_utf8(c).unwrap();
        let expected: Vec<char> = text.lines().next().unwrap_or_default().chars().collect();
        assert_eq!(request_line(c), expected);
    }
}

#[test]
fn path_follows_split_whitespace() {
    let cases = [
        "GET /proxy.pac HTTP/1.1",
        "  GET\t/a?b?c  HTTP/1.1",
        "GET",
        "GET\u{3000}/wide\u{a0}x",
        "",
        "GET ?q",
    ];
    for c in cases {
        let expected: Vec<char> = c
            .split_whitespace()
            .nth(1)
            .unwrap_or("/")
            .split('?')
            .next()
            .unwrap_or("/")
            .chars()
            .collect();
        assert_eq!(request_path(&chars(c)), expected);
    }
}

#[test]
fn get_detection_and_routing() {
    assert!(is_get_request("GET / HTTP/1.1"));
    assert!(!is_get_request("GET/ HTTP/1.1"));
    assert!(!is_get_request("get / HTTP/1.1"));
    assert_eq!(route_request(true, &chars("/proxy.pac")), Route::PacScript);
    assert_eq!(route_request(true, &chars("")), Route::SetupPage);
    assert_eq!(route_request(true, &chars("/")), Route::SetupPage);
    assert_eq!(route_request(false, &chars("/")), Route::NotFound);
    assert_eq!(route_request(true, &chars("/Logo")), Route::NotFound);
}

#[test]
fn response_length_counts_bytes() {
    let r = http_response("200 OK", "text/plain", "çay");
    assert!(r.contains("Content-Length: 4\r\n\r\nçay"));
}

#[test]
fn method_case_and_query_give_same_bytes() {
    let body = make_pac_body("10.1.1.1", 8080);
    let url = "http://10.1.1.1:8787/proxy.pac";
    let a = page(handle_pac_request(b"get /proxy.pac?v=2 HTTP/1.1\r\n\r\n", &body, url, 9));
    let b = page(handle_pac_request(b"GET /proxy.pac HTTP/1.1\r\n\r\n", &body, url, 9));
    assert_eq!(a, b);
    let c = page(handle_pac_request(b"gEt /?lang=en HTTP/1.1", &body, url, 9));
    let d = page(handle_pac_request(b"GET / HTTP/1.1", &body, url, 9));
    assert_eq!(c, d);
}

#[test]
fn method_case_with_unicode_path_and_inner_query() {
    let url = "http://10.1.1.1:8787/proxy.pac";
    let a = page(handle_pac_request("gEt /ağ?x=ş HTTP/1.1".as_bytes(), "b", url, 1));
    let b = page(handle_pac_request("GET /ağ?y HTTP/1.1".as_bytes(), "b", url, 1));
    assert_eq!(a, b);
    assert_eq!(classify_request("get /proxy.pac?a?b".as_bytes()), Route::PacScript);
}
