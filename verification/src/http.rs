//! The request table of the demo server: which canned response each
//! request line selects, and how a response is framed on the wire.
//!
//! The surrounding program reads the request from the socket, hands the
//! first line in here, performs the pause that the sleepy route asks for,
//! loads the chosen file, and writes the framed response back out.

use vstd::prelude::*;
use vstd::string::StringSliceAdditionalSpecFns;

use crate::text;

verus! {

/// The routes the server knows.
#[derive(Clone, Copy, Debug, PartialEq, Eq, Structural)]
pub enum Route {
    /// The front page.
    Root,
    /// The front page again, after a deliberate pause.
    Sleep,
    /// Anything else.
    NotFound,
}

/// Selects the route for a request line.
pub fn route_request(first_line: &str) -> (r: Route)
    ensures
        first_line@ == "GET / HTTP/1.1"@ ==> r is Root,
        first_line@ == "GET /sleep HTTP/1.1"@ ==> r is Sleep,
        first_line@ != "GET / HTTP/1.1"@ && first_line@ != "GET /sleep HTTP/1.1"@
            ==> r is NotFound,
{
    proof {
        reveal_strlit("GET / HTTP/1.1");
        reveal_strlit("GET /sleep HTTP/1.1");
        assert("GET / HTTP/1.1"@.len() == 14);
        assert("GET /sleep HTTP/1.1"@.len() == 19);
    }
    if text::str_eq(first_line, "GET / HTTP/1.1") {
        Route::Root
    } else if text::str_eq(first_line, "GET /sleep HTTP/1.1") {
        Route::Sleep
    } else {
        Route::NotFound
    }
}

/// The status line each route answers with.
pub fn status_line(route: Route) -> (r: &'static str)
    ensures
        route is Root ==> r@ == "HTTP/1.1 200 OK BOOMER"@,
        route is Sleep ==> r@ == "HTTP/1.1 200 I be gotten da sleepy"@,
        route is NotFound ==> r@ == "HTTP/1.1 404 how about NO"@,
{
    match route {
        Route::Root => "HTTP/1.1 200 OK BOOMER",
        Route::Sleep => "HTTP/1.1 200 I be gotten da sleepy",
        Route::NotFound => "HTTP/1.1 404 how about NO",
    }
}

/// The file each route serves.
pub fn filename(route: Route) -> (r: &'static str)
    ensures
        route is Root || route is Sleep ==> r@ == "hello.html"@,
        route is NotFound ==> r@ == "404.html"@,
{
    match route {
        Route::Root => "hello.html",
        Route::Sleep => "hello.html",
        Route::NotFound => "404.html",
    }
}

/// Frames a response: status line, a Content-Length header carrying the
/// body's byte length, a blank line, then the body.
pub fn build_response(status: &str, contents: &str) -> (r: String)
    ensures
        r@ == status@ + "\r\nContent-Length: "@ + text::decimal_digits(
            contents.spec_bytes().len(),
        ) + "\r\n\r\n"@ + contents@,
{
    let length = contents.as_bytes().len();
    let mut r = status.to_owned();
    r.append("\r\nContent-Length: ");
    let digits = text::u64_to_string(length as u64);
    r.append(digits.as_str());
    r.append("\r\n\r\n");
    r.append(contents);
    r
}

} // verus!
