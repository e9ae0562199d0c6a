//! The control HTTP server's requests and responses: reading a request line,
//! deciding the answer, and encoding it.
use vstd::prelude::*;
use vstd::string::*;
use vstd::utf8::{valid_utf8, decode_utf8};
use crate::config::{
    ASCII_NEWLINE, HTTP_REQUEST_SIZE_MAX, HTTP_STATUS_OK, HTTP_STATUS_NOT_FOUND,
    HTTP_STATUS_METHOD_NOT_ALLOWED,
};

verus! {

/// The method and path of an HTTP request line.
#[derive(Debug)]
pub struct Request {
    pub method: String,
    pub path: String,
}

/// An HTTP response: only its status line.
#[derive(Debug)]
pub struct Response {
    pub status: &'static str,
}

/// Calls std's `str::from_utf8`. Trusted, as std documents: it succeeds
/// exactly on valid UTF-8, and the text is the decoded bytes.
#[verifier::external_body]
fn str_from_utf8(bytes: &[u8]) -> (r: Option<&str>)
    ensures
        r is Some <==> valid_utf8(bytes@),
        r matches Some(s) ==> s@ == decode_utf8(bytes@),
{
    std::str::from_utf8(bytes).ok()
}

/// Whether a character is white space as std's `char::is_whitespace` and
/// `str::trim` count it: the Unicode `White_Space` property.
pub open spec fn is_white_space(c: char) -> bool {
    let u = c as u32;
    ||| 0x9 <= u <= 0xD
    ||| u == 0x20
    ||| u == 0x85
    ||| u == 0xA0
    ||| u == 0x1680
    ||| 0x2000 <= u <= 0x200A
    ||| u == 0x2028
    ||| u == 0x2029
    ||| u == 0x202F
    ||| u == 0x205F
    ||| u == 0x3000
}

/// The number of white-space characters at the start of a text.
pub open spec fn leading_space(s: Seq<char>) -> nat
    decreases s.len(),
{
    if s.len() > 0 && is_white_space(s[0]) {
        1 + leading_space(s.drop_first())
    } else {
        0
    }
}

/// The number of white-space characters at the end of a text.
pub open spec fn trailing_space(s: Seq<char>) -> nat
    decreases s.len(),
{
    if s.len() > 0 && is_white_space(s.last()) {
        1 + trailing_space(s.drop_last())
    } else {
        0
    }
}

/// A text without its leading and trailing white space.
pub open spec fn trim_text(s: Seq<char>) -> Seq<char> {
    if leading_space(s) >= s.len() {
        Seq::empty()
    } else {
        s.subrange(leading_space(s) as int, s.len() - trailing_space(s))
    }
}

/// Calls std's `str::trim`, copying the result. Trusted, as std documents:
/// the text without its leading and trailing white space.
#[verifier::external_body]
fn trim(s: &str) -> (r: String)
    ensures
        r@ == trim_text(s@),
{
    s.trim().to_string()
}

/// The index of the first space at or after `from`, or the length.
pub open spec fn first_space(s: Seq<char>, from: int) -> int
    decreases s.len() - from,
{
    if from >= s.len() {
        s.len() as int
    } else if s[from] == ' ' {
        from
    } else {
        first_space(s, from + 1)
    }
}

/// What reading a request line gives: the text must be UTF-8 and hold a
/// space; the method is what comes before the first space, the path what
/// comes between it and the next space (or the end), each trimmed.
pub open spec fn spec_parse_request(raw: Seq<u8>) -> Option<(Seq<char>, Seq<char>)> {
    if !valid_utf8(raw) {
        None
    } else {
        let s = decode_utf8(raw);
        let i1 = first_space(s, 0);
        if i1 >= s.len() {
            None
        } else {
            let i2 = first_space(s, i1 + 1);
            Some((trim_text(s.subrange(0, i1)), trim_text(s.subrange(i1 + 1, i2))))
        }
    }
}

proof fn lemma_first_space_bounds(s: Seq<char>, from: int)
    requires
        0 <= from,
    ensures
        from <= first_space(s, from) <= s.len() || (from > s.len() && first_space(s, from) == s.len()),
        first_space(s, from) < s.len() ==> s[first_space(s, from)] == ' ',
        forall|k: int| from <= k < first_space(s, from) ==> s[k] != ' ',
    decreases s.len() - from,
{
    if from < s.len() && s[from] != ' ' {
        lemma_first_space_bounds(s, from + 1);
    }
}

/// Finds the first space at or after `from`.
fn find_space(s: &str, n: usize, from: usize) -> (r: usize)
    requires
        n == s@.len(),
        from <= n,
    ensures
        r == first_space(s@, from as int),
        from <= r <= n,
{
    let mut i = from;
    proof {
        lemma_first_space_bounds(s@, from as int);
    }
    while i < n
        invariant
            n == s@.len(),
            from <= i <= n,
            first_space(s@, i as int) == first_space(s@, from as int),
        decreases n - i,
    {
        if s.get_char(i) == ' ' {
            return i;
        }
        i = i + 1;
    }
    i
}

/// Reads the method and path of a request line.
pub fn parse_request(raw_request: &[u8]) -> (r: Result<Request, ()>)
    ensures
        match r {
            Ok(req) => spec_parse_request(raw_request@) == Some((req.method@, req.path@)),
            Err(()) => spec_parse_request(raw_request@) is None,
        },
{
    let request = match str_from_utf8(raw_request) {
        Some(v) => v,
        None => {
            return Err(());
        },
    };
    let n = request.unicode_len();
    let i1 = find_space(request, n, 0);
    if i1 >= n {
        return Err(());
    }
    let i2 = find_space(request, n, i1 + 1);
    let method = trim(request.substring_char(0, i1));
    let path = trim(request.substring_char(i1 + 1, i2));
    Ok(Request { method, path })
}

/// How the server answers a request: `POST /shutdown` shuts it down, any
/// other `POST` is not found, any other method is not allowed.
pub open spec fn spec_answer(method: Seq<char>, path: Seq<char>) -> (Seq<char>, bool) {
    if method == "POST"@ {
        if path == "/shutdown"@ {
            (HTTP_STATUS_OK@, true)
        } else {
            (HTTP_STATUS_NOT_FOUND@, false)
        }
    } else {
        (HTTP_STATUS_METHOD_NOT_ALLOWED@, false)
    }
}

/// Decides the answer to a request, and whether it shuts the server down.
pub fn answer(request: &Request) -> (r: (Response, bool))
    ensures
        (r.0.status@, r.1) == spec_answer(request.method@, request.path@),
{
    let post = "POST".to_owned();
    let shutdown = "/shutdown".to_owned();
    if request.method == post {
        if request.path == shutdown {
            (Response { status: HTTP_STATUS_OK }, true)
        } else {
            (Response { status: HTTP_STATUS_NOT_FOUND }, false)
        }
    } else {
        (Response { status: HTTP_STATUS_METHOD_NOT_ALLOWED }, false)
    }
}

/// Appends the encoding of a response to `stack`, and returns it.
pub fn encode_response(stack: &mut Vec<u8>, response: Response) -> (r: Vec<u8>)
    ensures
        r@ == "HTTP/1.0 ".spec_bytes() + response.status.spec_bytes() + "\r\n".spec_bytes() + "\r\n".spec_bytes(),
        final(stack)@ == old(stack)@ + r@,
{
    let mut out: Vec<u8> = Vec::new();
    crate::util::push_u8s(&mut out, "HTTP/1.0 ".as_bytes());
    crate::util::push_u8s(&mut out, response.status.as_bytes());
    crate::util::push_u8s(&mut out, "\r\n".as_bytes());
    crate::util::push_u8s(&mut out, "\r\n".as_bytes());
    crate::util::push_u8s(stack, out.as_slice());
    out
}

/// Takes the bytes of `chunk` into `mem` up to and including the first
/// newline, stopping once `total_read` reaches the size cap. Returns the new
/// total and whether a newline was taken.
pub fn take_request_line(mem: &mut Vec<u8>, chunk: &[u8], total_read: usize) -> (r: (usize, bool))
    ensures
        r.0 - total_read == final(mem)@.len() - old(mem)@.len(),
        final(mem)@ == old(mem)@ + chunk@.take(r.0 - total_read),
        r.1 <==> (r.0 > total_read && chunk@[r.0 - total_read - 1] == ASCII_NEWLINE),
        forall|k: int| 0 <= k < r.0 - total_read - 1 ==> chunk@[k] != ASCII_NEWLINE,
        r.0 - total_read <= chunk@.len(),
        r.0 >= total_read,
{
    let mut i: usize = 0;
    let mut total = total_read;
    while i < chunk.len()
        invariant
            i <= chunk@.len(),
            total == total_read + i,
            mem@ == old(mem)@ + chunk@.take(i as int),
            forall|k: int| 0 <= k < i ==> chunk@[k] != ASCII_NEWLINE,
        decreases chunk@.len() - i,
    {
        if total == usize::MAX {
            return (total, false);
        }
        total = total + 1;
        mem.push(chunk[i]);
        proof {
            assert(chunk@.take(i as int + 1) =~= chunk@.take(i as int).push(chunk@[i as int]));
        }
        if chunk[i] == ASCII_NEWLINE {
            return (total, true);
        }
        i = i + 1;
    }
    (total, false)
}

/// Whether the reading of a request line goes on.
pub fn keep_reading(got_newline: bool, total_read: usize) -> (r: bool)
    ensures
        r == (!got_newline && total_read < HTTP_REQUEST_SIZE_MAX),
{
    !got_newline && total_read < HTTP_REQUEST_SIZE_MAX
}

} // verus!
