//! Request routing and response framing for the demo web server.
//!
//! The server around this module reads one request line from a connection,
//! asks [`route`] what to serve, loads the file, and writes out what
//! [`build_response`] assembles.  Reading and writing stay outside; the
//! decisions and the exact bytes of the response are pinned down here.

use vstd::prelude::*;
use vstd::string::StringExecFns;
use vstd::string::StringSliceAdditionalSpecFns;

verus! {

/// The decimal digits of `n`, most significant first.
pub open spec fn decimal(n: nat) -> Seq<char>
    decreases n,
{
    if n < 10 {
        seq![digit_char(n)]
    } else {
        decimal(n / 10) + seq![digit_char(n % 10)]
    }
}

/// The character for one decimal digit.
pub open spec fn digit_char(d: nat) -> char {
    if d == 0 {
        '0'
    } else if d == 1 {
        '1'
    } else if d == 2 {
        '2'
    } else if d == 3 {
        '3'
    } else if d == 4 {
        '4'
    } else if d == 5 {
        '5'
    } else if d == 6 {
        '6'
    } else if d == 7 {
        '7'
    } else if d == 8 {
        '8'
    } else {
        '9'
    }
}

/// One decimal digit as a string.
fn digit_str(d: u64) -> (s: String)
    requires
        d < 10,
    ensures
        s@ == seq![digit_char(d as nat)],
{
    let s = if d == 0 {
        "0"
    } else if d == 1 {
        "1"
    } else if d == 2 {
        "2"
    } else if d == 3 {
        "3"
    } else if d == 4 {
        "4"
    } else if d == 5 {
        "5"
    } else if d == 6 {
        "6"
    } else if d == 7 {
        "7"
    } else if d == 8 {
        "8"
    } else {
        "9"
    };
    proof {
        reveal_strlit("0");
        reveal_strlit("1");
        reveal_strlit("2");
        reveal_strlit("3");
        reveal_strlit("4");
        reveal_strlit("5");
        reveal_strlit("6");
        reveal_strlit("7");
        reveal_strlit("8");
        reveal_strlit("9");
        assert(s@ =~= seq![digit_char(d as nat)]);
    }
    s.to_owned()
}

/// `n` written out in decimal.
fn u64_to_decimal(n: u64) -> (s: String)
    ensures
        s@ == decimal(n as nat),
    decreases n,
{
    if n < 10 {
        digit_str(n)
    } else {
        let s = u64_to_decimal(n / 10);
        let last = digit_str(n % 10);
        s.concat(last.as_str())
    }
}

/// Pick the status line and the file to serve for one request line: the
/// root page for a plain `GET /`, the not-found page for anything else.
pub fn route(request_line: &str) -> (r: (String, String))
    ensures
        request_line@ == "GET / HTTP/1.1"@ ==> r.0@ == "HTTP/1.1 200 OK"@ && r.1@
            == "hello.html"@,
        request_line@ != "GET / HTTP/1.1"@ ==> r.0@ == "HTTP/1.1 404 NOT FOUND"@ && r.1@
            == "404.html"@,
{
    let line = request_line.to_owned();
    if line == "GET / HTTP/1.1".to_owned() {
        ("HTTP/1.1 200 OK".to_owned(), "hello.html".to_owned())
    } else {
        ("HTTP/1.1 404 NOT FOUND".to_owned(), "404.html".to_owned())
    }
}

/// Assemble one complete response: the status line, a `Content-Length`
/// header carrying the body's byte count in decimal, a blank line, and the
/// body itself.
pub fn build_response(status_line: &str, contents: &str) -> (r: String)
    requires
        contents.spec_bytes().len() <= usize::MAX,
    ensures
        r@ == status_line@ + "\r\nContent-Length: "@ + decimal(contents.spec_bytes().len())
            + "\r\n\r\n"@ + contents@,
{
    let mut r = status_line.to_owned();
    r.append("\r\nContent-Length: ");
    let len_str = u64_to_decimal(contents.len() as u64);
    r.append(len_str.as_str());
    r.append("\r\n\r\n");
    r.append(contents);
    r
}

} // verus!
