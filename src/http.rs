use vstd::prelude::*;
use vstd::string::*;

verus! {

/// The index of the first space in `line` at or after `from`, or the length
/// of `line` when there is none.
pub open spec fn space_from(line: Seq<u8>, from: int) -> int
    decreases line.len() - from,
{
    if from < 0 || from >= line.len() {
        line.len() as int
    } else if line[from] == 32u8 {
        from
    } else {
        space_from(line, from + 1)
    }
}

/// The request line's first space-separated token: its method.
pub open spec fn method_of(line: Seq<u8>) -> Seq<u8> {
    line.subrange(0, space_from(line, 0))
}

/// Whether the request line has a second token, the requested target.
pub open spec fn has_target(line: Seq<u8>) -> bool {
    space_from(line, 0) < line.len()
}

/// The request line's second space-separated token.
pub open spec fn target_of(line: Seq<u8>) -> Seq<u8> {
    let s = space_from(line, 0);
    line.subrange(s + 1, space_from(line, s + 1))
}

/// The file a request line asks for: the target under the `html` directory.
pub open spec fn file_of(line: Seq<u8>) -> Seq<u8> {
    "html".spec_bytes() + target_of(line)
}

proof fn lemma_space_from_bounds(line: Seq<u8>, from: int)
    requires
        0 <= from <= line.len(),
    ensures
        from <= space_from(line, from) <= line.len(),
    decreases line.len() - from,
{
    if from < line.len() && line[from] != 32u8 {
        lemma_space_from_bounds(line, from + 1);
    }
}

/// Finds the first space in `line` at or after `from`.
fn find_space(line: &[u8], from: usize) -> (r: usize)
    requires
        from <= line@.len(),
    ensures
        r == space_from(line@, from as int),
{
    let mut i = from;
    while i < line.len() && line[i] != 32u8
        invariant
            from <= i <= line@.len(),
            space_from(line@, from as int) == space_from(line@, i as int),
        decreases line@.len() - i,
    {
        i = i + 1;
    }
    i
}

/// Appends `line[from..to]` to `out`.
fn push_range(out: &mut Vec<u8>, line: &[u8], from: usize, to: usize)
    requires
        from <= to <= line@.len(),
    ensures
        final(out)@ == old(out)@ + line@.subrange(from as int, to as int),
{
    let mut i = from;
    while i < to
        invariant
            from <= i <= to <= line@.len(),
            out@ == old(out)@ + line@.subrange(from as int, i as int),
        decreases to - i,
    {
        out.push(line[i]);
        i = i + 1;
        assert(line@.subrange(from as int, i as int) =~= line@.subrange(from as int, i - 1).push(
            line@[i - 1],
        ));
    }
}

/// Appends all of `bytes` to `out`.
fn push_all(out: &mut Vec<u8>, bytes: &[u8])
    ensures
        final(out)@ == old(out)@ + bytes@,
{
    push_range(out, bytes, 0, bytes.len());
    assert(bytes@.subrange(0, bytes@.len() as int) =~= bytes@);
}

/// Whether two byte strings are equal.
fn bytes_eq(a: &[u8], b: &[u8]) -> (r: bool)
    ensures
        r == (a@ == b@),
{
    if a.len() != b.len() {
        return false;
    }
    let mut i: usize = 0;
    while i < a.len()
        invariant
            a@.len() == b@.len(),
            i <= a@.len(),
            forall|k: int| 0 <= k < i ==> a@[k] == b@[k],
        decreases a@.len() - i,
    {
        if a[i] != b[i] {
            return false;
        }
        i = i + 1;
    }
    assert(a@ =~= b@);
    true
}

/// The path of the file that a request line asks for, under the `html`
/// directory; `None` when the line names no target.
pub fn requested_file(line: &[u8]) -> (r: Option<Vec<u8>>)
    ensures
        r is Some <==> has_target(line@),
        r matches Some(p) ==> p@ == file_of(line@),
{
    let first = find_space(line, 0);
    if first >= line.len() {
        return None;
    }
    let end = find_space(line, first + 1);
    proof {
        lemma_space_from_bounds(line@, first + 1);
    }
    let mut path: Vec<u8> = Vec::new();
    push_all(&mut path, "html".as_bytes());
    push_range(&mut path, line, first + 1, end);
    Some(path)
}

/// How a request is answered.
#[derive(Clone, Copy, Debug, PartialEq, Eq, Structural)]
pub enum Route {
    /// The root page.
    Index,
    /// The root page, served after a deliberate delay.
    Slow,
    /// The requested file, which exists.
    Found,
    /// The not-found page.
    Missing,
}

/// The route for a request line, given whether the file it asks for exists.
pub open spec fn spec_route(line: Seq<u8>, file_exists: bool) -> Route {
    if line == "GET / HTTP/1.1".spec_bytes() {
        Route::Index
    } else if line == "GET /sleep HTTP/1.1".spec_bytes() {
        Route::Slow
    } else if method_of(line) == "GET".spec_bytes() && file_exists {
        Route::Found
    } else {
        Route::Missing
    }
}

/// Decides how to answer the request line `line`; `file_exists` tells
/// whether the file it asks for exists.
pub fn route(line: &[u8], file_exists: bool) -> (r: Route)
    ensures
        r == spec_route(line@, file_exists),
{
    if bytes_eq(line, "GET / HTTP/1.1".as_bytes()) {
        return Route::Index;
    }
    if bytes_eq(line, "GET /sleep HTTP/1.1".as_bytes()) {
        return Route::Slow;
    }
    let first = find_space(line, 0);
    proof {
        lemma_space_from_bounds(line@, 0);
    }
    let method = vstd::slice::slice_subrange(line, 0, first);
    if file_exists && bytes_eq(method, "GET".as_bytes()) {
        Route::Found
    } else {
        Route::Missing
    }
}

/// The status line that answers a route.
pub open spec fn spec_status_line(r: Route) -> Seq<u8> {
    match r {
        Route::Missing => "HTTP/1.1 404 NOT FOUND".spec_bytes(),
        _ => "HTTP/1.1 200 OK".spec_bytes(),
    }
}

/// The file served for a route; `requested` is the file the request asked for.
pub open spec fn spec_serve_path(r: Route, requested: Seq<u8>) -> Seq<u8> {
    match r {
        Route::Found => requested,
        Route::Missing => "html/404.html".spec_bytes(),
        _ => "html/index.html".spec_bytes(),
    }
}

impl Route {
    /// The status line of the response.
    pub fn status_line(&self) -> (r: &'static str)
        ensures
            r.spec_bytes() == spec_status_line(*self),
    {
        match self {
            Route::Missing => "HTTP/1.1 404 NOT FOUND",
            _ => "HTTP/1.1 200 OK",
        }
    }

    /// Whether the response is delayed before it is sent.
    pub fn delays(&self) -> (r: bool)
        ensures
            r == (*self == Route::Slow),
    {
        match self {
            Route::Slow => true,
            _ => false,
        }
    }

    /// The path of the file whose contents make the response body.
    pub fn serve_path(&self, requested: &[u8]) -> (r: Vec<u8>)
        ensures
            r@ == spec_serve_path(*self, requested@),
    {
        let mut path: Vec<u8> = Vec::new();
        match self {
            Route::Found => push_all(&mut path, requested),
            Route::Missing => push_all(&mut path, "html/404.html".as_bytes()),
            _ => push_all(&mut path, "html/index.html".as_bytes()),
        }
        path
    }
}

/// The decimal digits of `n`, most significant first.
pub open spec fn decimal(n: nat) -> Seq<u8>
    decreases n,
{
    if n < 10 {
        seq![(48 + n) as u8]
    } else {
        decimal(n / 10).push((48 + n % 10) as u8)
    }
}

/// Appends the decimal digits of `n` to `out`.
fn push_decimal(out: &mut Vec<u8>, n: usize)
    ensures
        final(out)@ == old(out)@ + decimal(n as nat),
    decreases n,
{
    if n >= 10 {
        push_decimal(out, n / 10);
    }
    let d = (n % 10) as u8;
    out.push(48u8 + d);
    proof {
        if n >= 10 {
            assert(decimal(n as nat) == decimal((n / 10) as nat).push((48 + n % 10) as u8));
        }
        assert(final(out)@ =~= old(out)@ + decimal(n as nat));
    }
}

/// The full response: status line, content type, content length, a blank
/// line and the body.
pub open spec fn spec_response(status_line: Seq<u8>, contents: Seq<u8>) -> Seq<u8> {
    status_line + "\r\n".spec_bytes() + "Content-Type: text/html; charset=utf-8".spec_bytes()
        + "\r\n".spec_bytes() + "Content-Length: ".spec_bytes() + decimal(contents.len())
        + "\r\n\r\n".spec_bytes() + contents
}

/// Builds the response that carries `contents` under `status_line`.
pub fn response(status_line: &[u8], contents: &[u8]) -> (r: Vec<u8>)
    ensures
        r@ == spec_response(status_line@, contents@),
{
    let mut out: Vec<u8> = Vec::new();
    push_all(&mut out, status_line);
    push_all(&mut out, "\r\n".as_bytes());
    push_all(&mut out, "Content-Type: text/html; charset=utf-8".as_bytes());
    push_all(&mut out, "\r\n".as_bytes());
    push_all(&mut out, "Content-Length: ".as_bytes());
    push_decimal(&mut out, contents.len());
    push_all(&mut out, "\r\n\r\n".as_bytes());
    push_all(&mut out, contents);
    out
}

} // verus!
