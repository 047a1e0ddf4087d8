use webweb::http::Route;

#[test]
fn routes_match_the_request_table() {
    assert_eq!(webweb::http::route_request("GET / HTTP/1.1"), Route::Root);
    assert_eq!(webweb::http::route_request("GET /sleep HTTP/1.1"), Route::Sleep);
    assert_eq!(webweb::http::route_request("GET /nope HTTP/1.1"), Route::NotFound);
    assert_eq!(webweb::http::route_request(""), Route::NotFound);
}

#[test]
fn routes_pick_status_and_file() {
    assert_eq!(webweb::http::status_line(Route::Root), "HTTP/1.1 200 OK BOOMER");
    assert_eq!(
        webweb::http::status_line(Route::Sleep),
        "HTTP/1.1 200 I be gotten da sleepy"
    );
    assert_eq!(webweb::http::status_line(Route::NotFound), "HTTP/1.1 404 how about NO");
    assert_eq!(webweb::http::filename(Route::Root), "hello.html");
    assert_eq!(webweb::http::filename(Route::Sleep), "hello.html");
    assert_eq!(webweb::http::filename(Route::NotFound), "404.html");
}

#[test]
fn responses_carry_the_byte_length() {
    let response = webweb::http::build_response("HTTP/1.1 200 OK BOOMER", "hello");
    assert_eq!(
        response,
        "HTTP/1.1 200 OK BOOMER\r\nContent-Length: 5\r\n\r\nhello"
    );
}

#[test]
fn empty_body_has_length_zero() {
    let response = webweb::http::build_response("HTTP/1.1 404 how about NO", "");
    assert_eq!(response, "HTTP/1.1 404 how about NO\r\nContent-Length: 0\r\n\r\n");
}
