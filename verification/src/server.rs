//! A minimal static file server: request lines, file lookup and responses.

use vstd::prelude::*;
use crate::text::{nat_digits, push_u64, split_on, split_str, str_eq, str_views};

verus! {

/// The method, target and version of an HTTP request line, when it has all three.
pub open spec fn request_line_spec(line: Seq<char>) -> Option<(Seq<char>, Seq<char>, Seq<char>)> {
    let parts = split_on(line, ' ');
    if parts.len() >= 3 {
        Some((parts[0], parts[1], parts[2]))
    } else {
        None
    }
}

/// Splits an HTTP request line at spaces into method, target and version.
pub fn parse_request_line(line: &str) -> (r: Option<(&str, &str, &str)>)
    ensures
        r is Some <==> request_line_spec(line@) is Some,
        r matches Some(p) ==> request_line_spec(line@) == Some((p.0@, p.1@, p.2@)),
{
    let parts = split_str(line, ' ');
    assert(str_views(parts@).len() == parts@.len());
    if parts.len() < 3 {
        return None;
    }
    assert(str_views(parts@)[0] == parts@[0]@);
    assert(str_views(parts@)[1] == parts@[1]@);
    assert(str_views(parts@)[2] == parts@[2]@);
    Some((parts[0], parts[1], parts[2]))
}

/// The extension that `std::path::Path::extension` finds in a path.
pub uninterp spec fn path_extension(path: Seq<char>) -> Option<Seq<char>>;

/// Calls `std::path::Path::new(path).extension()`. Trusted: the result is
/// `path_extension`; as documented, a path without any `.` has none, and an
/// extension, being what follows the last `.` of the file name, holds no `.`.
#[verifier::external_body]
fn std_path_extension(path: &str) -> (e: Option<String>)
    ensures
        e is Some <==> path_extension(path@) is Some,
        e matches Some(x) ==> path_extension(path@) == Some(x@) && !x@.contains('.'),
        !path@.contains('.') ==> e is None,
{
    std::path::Path::new(path).extension().and_then(|x| x.to_str()).map(|x| x.to_string())
}

/// The content type served for a file extension.
pub open spec fn content_type_spec(ext: Option<Seq<char>>) -> Seq<char> {
    if ext == Some("js"@) {
        "text/javascript"@
    } else if ext == Some("html"@) {
        "text/html"@
    } else {
        "?"@
    }
}

/// The content type served for a file extension.
pub fn content_type_for(ext: Option<&str>) -> (t: &'static str)
    ensures
        t@ == content_type_spec(match ext {
            Some(x) => Some(x@),
            None => None,
        }),
{
    match ext {
        Some(x) => {
            if str_eq(x, "js") {
                "text/javascript"
            } else if str_eq(x, "html") {
                "text/html"
            } else {
                "?"
            }
        },
        None => "?",
    }
}

/// The file path served for a request target: the index page for `/`,
/// else the target under `static/`.
pub open spec fn static_path_spec(uri: Seq<char>) -> Seq<char> {
    if uri == "/"@ {
        "static/index.html"@
    } else {
        "static/"@ + uri
    }
}

/// The file path and content type served for a request target (whether the
/// file exists is left to the caller).
pub fn static_file_for(uri: &str) -> (r: (String, &'static str))
    ensures
        r.0@ == static_path_spec(uri@),
        uri@ == "/"@ ==> r.1@ == "text/html"@,
        uri@ != "/"@ ==> r.1@ == content_type_spec(path_extension(r.0@)),
{
    if str_eq(uri, "/") {
        let mut p = String::new();
        p.append("static/index.html");
        (p, "text/html")
    } else {
        let mut p = String::new();
        p.append("static/");
        p.append(uri);
        let ext = std_path_extension(p.as_str());
        let t = match &ext {
            Some(x) => content_type_for(Some(x.as_str())),
            None => content_type_for(None),
        };
        (p, t)
    }
}

/// A `200 OK` response carrying `contents`, with its length in bytes.
pub open spec fn ok_response_spec(content_type: Seq<char>, contents: &str) -> Seq<char> {
    "HTTP/1.1 200 OK\r\nContent-Length: "@ + nat_digits(contents.len() as nat) + "\r\nContent-Type: "@
        + content_type + "\r\n\r\n"@ + contents@
}

/// Builds a `200 OK` response.
pub fn ok_response(content_type: &str, contents: &str) -> (r: String)
    ensures
        r@ == ok_response_spec(content_type@, contents),
{
    let mut r = String::new();
    r.append("HTTP/1.1 200 OK\r\nContent-Length: ");
    let length = contents.len();
    push_u64(&mut r, length as u64);
    r.append("\r\nContent-Type: ");
    r.append(content_type);
    r.append("\r\n\r\n");
    r.append(contents);
    assert(r@ =~= ok_response_spec(content_type@, contents));
    r
}

} // verus!
