use vstd::prelude::*;
use vstd::string::StrSliceExecFns;

verus! {

/// The answer to a request that is missing or malformed.
pub const BAD_REQUEST_RESPONSE: &'static str = "HTTP/1.1 400 Bad Request\r\n\r\n";

/// The answer to a well-formed request for anything but `GET /`.
pub const NOT_FOUND_RESPONSE: &'static str = "HTTP/1.1 404 Not Found";

/// The answer to `GET /`: a status line, the length of the body, the body.
pub const OK_RESPONSE: &'static str = "HTTP/1.1 200 OK\r\nContent-Length: 20\r\n\r\nHi, my name is Josh.";

/// The only protocol version served.
pub const HTTP_VERSION: &'static str = "HTTP/1.1";

/// The pieces of `s` between runs of Unicode white space, in order.
pub uninterp spec fn whitespace_tokens(s: Seq<char>) -> Seq<Seq<char>>;

/// The response to a request line split into tokens: the first three are
/// the method, the target and the version; anything after them is ignored.
pub open spec fn response_spec(tokens: Seq<Seq<char>>) -> Seq<char> {
    if tokens.len() < 3 || tokens[2] != HTTP_VERSION@ {
        BAD_REQUEST_RESPONSE@
    } else if tokens[0] == "GET"@ && tokens[1] == "/"@ {
        OK_RESPONSE@
    } else {
        NOT_FOUND_RESPONSE@
    }
}

/// Relies on str::split_whitespace: the pieces of `line` between runs of
/// Unicode white space, in order, none of them empty.
#[verifier::external_body]
fn split_tokens(line: &str) -> (r: Vec<&str>)
    ensures
        r@.len() == whitespace_tokens(line@).len(),
        forall|i: int| 0 <= i < r@.len() ==> #[trigger] r@[i]@ == whitespace_tokens(line@)[i],
{
    line.split_whitespace().collect()
}

/// Whether two strings hold the same characters.
pub fn same_text(a: &str, b: &str) -> (r: bool)
    ensures
        r == (a@ == b@),
{
    let n = a.unicode_len();
    if n != b.unicode_len() {
        return false;
    }
    let mut i: usize = 0;
    while i < n
        invariant
            n == a@.len(),
            n == b@.len(),
            i <= n,
            forall|k: int| 0 <= k < i ==> a@[k] == b@[k],
        decreases n - i,
    {
        if a.get_char(i) != b.get_char(i) {
            return false;
        }
        i += 1;
    }
    assert(a@ =~= b@);
    true
}

/// The response to a request line already split into tokens.
pub fn response_for_tokens(tokens: &Vec<&str>) -> (r: String)
    ensures
        r@ == response_spec(tokens@.map_values(|t: &str| t@)),
{
    if tokens.len() < 3 || !same_text(tokens[2], HTTP_VERSION) {
        return BAD_REQUEST_RESPONSE.to_owned();
    }
    if same_text(tokens[0], "GET") && same_text(tokens[1], "/") {
        OK_RESPONSE.to_owned()
    } else {
        NOT_FOUND_RESPONSE.to_owned()
    }
}

/// The response to a request, given its request line, or `None` where the
/// request had no line before the blank one that ends its head.
pub fn handle_request(request_line: Option<&str>) -> (r: String)
    ensures
        r@ == match request_line {
            None => BAD_REQUEST_RESPONSE@,
            Some(line) => response_spec(whitespace_tokens(line@)),
        },
{
    match request_line {
        None => BAD_REQUEST_RESPONSE.to_owned(),
        Some(line) => {
            let tokens = split_tokens(line);
            assert(tokens@.map_values(|t: &str| t@) =~= whitespace_tokens(line@));
            response_for_tokens(&tokens)
        },
    }
}

} // verus!
