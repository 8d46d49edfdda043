//! What the server makes of a request line, and how it frames a reply.
//!
//! A job of the pool serves one connection. Reading the request and sending
//! the reply are the caller's part; what lies between is decided here, on
//! bytes.

use vstd::prelude::*;
use vstd::slice::{slice_subrange, slice_to_vec};
use vstd::string::StringSliceAdditionalSpecFns;

verus! {

/// The byte that separates the tokens of a request line.
pub const SPACE: u8 = 32;

/// The byte of the decimal digit zero.
pub const ZERO: u8 = 48;

/// Where the token that starts at `from` ends: at the next space, or at the
/// end of the line.
pub open spec fn token_end(line: Seq<u8>, from: int) -> int
    decreases line.len() - from,
{
    if from >= line.len() {
        line.len() as int
    } else if line[from] == SPACE {
        from
    } else {
        token_end(line, from + 1)
    }
}

/// The mathematical content of a route.
pub enum Target {
    /// The file with this path, relative to the server's directory.
    File(Seq<u8>),
    /// Nothing that the server has.
    NotFound,
}

/// What a request asks for.
#[derive(Debug, PartialEq, Eq)]
pub enum Route {
    /// The file with this path, relative to the server's directory.
    File(Vec<u8>),
    /// Nothing that the server has.
    NotFound,
}

impl View for Route {
    type V = Target;

    open spec fn view(&self) -> Target {
        match self {
            Route::File(path) => Target::File(path@),
            Route::NotFound => Target::NotFound,
        }
    }
}

/// The path of the file for a request target: the target below the server's
/// directory, and the greeting page for the root.
pub open spec fn page_of(target: Seq<u8>) -> Seq<u8> {
    if target == "/".spec_bytes() {
        "./hello.html".spec_bytes()
    } else {
        ".".spec_bytes() + target
    }
}

/// What a request line asks for. The line is cut at single spaces: the first
/// token is the method, the second the target. A line without a space has no
/// target, and asks for nothing that could be answered. Only `GET` is served.
pub open spec fn route_of(line: Seq<u8>) -> Option<Target> {
    let method_end = token_end(line, 0);
    if method_end >= line.len() {
        None
    } else {
        let target = line.subrange(method_end + 1, token_end(line, method_end + 1));
        if line.subrange(0, method_end) == "GET".spec_bytes() {
            Some(Target::File(page_of(target)))
        } else {
            Some(Target::NotFound)
        }
    }
}

/// The decimal digits of `n`, most significant first, without leading zeros.
pub open spec fn decimal(n: nat) -> Seq<u8>
    decreases n,
{
    if n < 10 {
        seq![(ZERO + n) as u8]
    } else {
        decimal(n / 10).push((ZERO + n % 10) as u8)
    }
}

/// A reply as it goes over the wire: the status line, the length of the body
/// in bytes, an empty line, and the body.
pub open spec fn framed(status_line: Seq<u8>, body: Seq<u8>) -> Seq<u8> {
    status_line + "\r\n".spec_bytes() + "Content-Length: ".spec_bytes() + decimal(body.len())
        + "\r\n".spec_bytes() + "\r\n".spec_bytes() + body
}

/// The status of a reply.
#[derive(Clone, Copy, Debug, PartialEq, Eq, Structural)]
pub enum Status {
    /// The page was found and follows.
    Found,
    /// There is no such page; the page that says so follows.
    NotFound,
}

impl Status {
    /// The status line of a reply with this status.
    pub fn line(self) -> (line: &'static str)
        ensures
            line@ == match self {
                Status::Found => "HTTP/1.1 200 OK"@,
                Status::NotFound => "HTTP/1.1 404 NOT FOUND"@,
            },
    {
        match self {
            Status::Found => "HTTP/1.1 200 OK",
            Status::NotFound => "HTTP/1.1 404 NOT FOUND",
        }
    }
}

/// The path of the page that is sent when a request cannot be served.
pub fn not_found_page() -> (page: &'static str)
    ensures
        page@ == "404.html"@,
{
    "404.html"
}

/// Chooses what is sent once the file that a request asks for has been looked
/// up: the file itself as found, or else the page `not_found` as not found.
pub fn page_to_send<P>(resolved: Option<P>, not_found: P) -> (reply: (Status, P))
    ensures
        reply == match resolved {
            Some(page) => (Status::Found, page),
            None => (Status::NotFound, not_found),
        },
{
    match resolved {
        Some(page) => (Status::Found, page),
        None => (Status::NotFound, not_found),
    }
}

/// Whether two byte strings are the same.
pub fn same_bytes(a: &[u8], b: &[u8]) -> (same: bool)
    ensures
        same == (a@ == b@),
{
    if a.len() != b.len() {
        return false;
    }
    let mut i: usize = 0;
    while i < a.len()
        invariant
            a@.len() == b@.len(),
            i <= a@.len(),
            forall|k: int| 0 <= k < i ==> a@[k] == b@[k],
        decreases a.len() - i,
    {
        if a[i] != b[i] {
            return false;
        }
        i = i + 1;
    }
    assert(a@ =~= b@);
    true
}

/// Finds the end of the token that starts at `from`: the place of the next
/// space, or the length of the line where no space follows.
pub fn find_token_end(line: &[u8], from: usize) -> (end: usize)
    ensures
        end == token_end(line@, from as int),
        end <= line@.len(),
        from <= line@.len() ==> from <= end,
{
    if from >= line.len() {
        return line.len();
    }
    let mut i: usize = from;
    while i < line.len() && line[i] != SPACE
        invariant
            from <= i <= line@.len(),
            token_end(line@, from as int) == token_end(line@, i as int),
        decreases line.len() - i,
    {
        i = i + 1;
    }
    i
}

/// Builds the path of the file for a request target.
pub fn page_for(target: &[u8]) -> (page: Vec<u8>)
    ensures
        page@ == page_of(target@),
{
    if same_bytes(target, "/".as_bytes()) {
        slice_to_vec("./hello.html".as_bytes())
    } else {
        let mut page = slice_to_vec(".".as_bytes());
        page.extend_from_slice(target);
        page
    }
}

/// Reads a request line. The result is `None` exactly when the line holds no
/// space, and so no target; otherwise it is the file to serve for a `GET`,
/// and `NotFound` for any other method.
pub fn route(line: &[u8]) -> (route: Option<Route>)
    ensures
        route is Some <==> route_of(line@) is Some,
        route matches Some(r) ==> route_of(line@) == Some(r@),
{
    let method_end = find_token_end(line, 0);
    if method_end >= line.len() {
        return None;
    }
    let target_end = find_token_end(line, method_end + 1);
    let method = slice_subrange(line, 0, method_end);
    let target = slice_subrange(line, method_end + 1, target_end);
    if same_bytes(method, "GET".as_bytes()) {
        Some(Route::File(page_for(target)))
    } else {
        Some(Route::NotFound)
    }
}

/// Appends the decimal digits of `n` to `out`.
pub fn push_decimal(out: &mut Vec<u8>, n: usize)
    ensures
        final(out)@ == old(out)@ + decimal(n as nat),
    decreases n,
{
    if n >= 10 {
        push_decimal(out, n / 10);
    }
    let digit: u8 = (n % 10) as u8;
    out.push(ZERO + digit);
}

/// Frames a reply: the status line, the length of the body, an empty line,
/// and the body.
pub fn frame_response(status_line: &[u8], body: &[u8]) -> (response: Vec<u8>)
    ensures
        response@ == framed(status_line@, body@),
{
    let mut response: Vec<u8> = Vec::new();
    response.extend_from_slice(status_line);
    response.extend_from_slice("\r\n".as_bytes());
    response.extend_from_slice("Content-Length: ".as_bytes());
    push_decimal(&mut response, body.len());
    response.extend_from_slice("\r\n".as_bytes());
    response.extend_from_slice("\r\n".as_bytes());
    response.extend_from_slice(body);
    response
}

} // verus!
