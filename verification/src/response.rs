//! The response: status, headers and body, and its wire format with the
//! default headers filled in.

use crate::header::{
    contains_header, clone_headers, has_header, header_lines_text, header_views,
    write_header_lines,
};
use crate::text::{
    chars_of, decimal, decimal_of, eq_ignoring_ascii_case, find_pair, lines, lines_of,
    pair_position_of, push_decimal, string_of, texts_of,
};
use vstd::prelude::*;
use vstd::string::*;

verus! {

/// A response. The default headers are no part of it: they are added when it
/// is written to the wire.
#[derive(Debug)]
pub struct Response {
    pub status_code: u16,
    pub reason_phrase: String,
    pub headers: Vec<(String, String)>,
    pub body: String,
}

/// The mathematical value of a [`Response`].
pub struct ResponseView {
    pub status_code: u16,
    pub reason_phrase: Seq<char>,
    pub headers: Seq<(Seq<char>, Seq<char>)>,
    pub body: Seq<char>,
}

impl View for Response {
    type V = ResponseView;

    open spec fn view(&self) -> ResponseView {
        ResponseView {
            status_code: self.status_code,
            reason_phrase: self.reason_phrase@,
            headers: header_views(self.headers@),
            body: self.body@,
        }
    }
}

/// The reason phrase that goes with a status code.
pub open spec fn reason_phrase_of(status_code: u16) -> Seq<char> {
    if status_code == 200 {
        "OK"@
    } else if status_code == 201 {
        "Created"@
    } else if status_code == 204 {
        "No Content"@
    } else if status_code == 301 {
        "Moved Permanently"@
    } else if status_code == 302 {
        "Found"@
    } else if status_code == 400 {
        "Bad Request"@
    } else if status_code == 401 {
        "Unauthorized"@
    } else if status_code == 403 {
        "Forbidden"@
    } else if status_code == 404 {
        "Not Found"@
    } else if status_code == 405 {
        "Method Not Allowed"@
    } else if status_code == 500 {
        "Internal Server Error"@
    } else if status_code == 501 {
        "Not Implemented"@
    } else if status_code == 503 {
        "Service Unavailable"@
    } else {
        "Unknown"@
    }
}

/// A response of that status that holds nothing else.
pub open spec fn bare_response(status_code: u16) -> ResponseView {
    ResponseView {
        status_code,
        reason_phrase: reason_phrase_of(status_code),
        headers: Seq::empty(),
        body: Seq::empty(),
    }
}

/// A response of status 200 with that body and that media type.
pub open spec fn content_response(body: Seq<char>, content_type: Seq<char>) -> ResponseView {
    ResponseView {
        headers: seq![("Content-Type"@, content_type)],
        body,
        ..bare_response(200)
    }
}

/// The name and the value that a line of a header block holds: the text
/// before the first colon that a space follows, and the text after that
/// space. A line without such a colon is a name with an empty value.
pub open spec fn name_and_value_of(line: Seq<char>) -> (Seq<char>, Seq<char>) {
    let n = pair_position_of(line, ':', ' ') as int;
    if n < line.len() {
        (line.take(n), line.skip(n + 2))
    } else {
        (line, Seq::empty())
    }
}

/// The headers of the lines of a header block; empty lines hold none.
pub open spec fn headers_of_lines(lines: Seq<Seq<char>>) -> Seq<(Seq<char>, Seq<char>)>
    decreases lines.len(),
{
    if lines.len() == 0 {
        Seq::empty()
    } else if lines[0].len() == 0 {
        headers_of_lines(lines.drop_first())
    } else {
        seq![name_and_value_of(lines[0])] + headers_of_lines(lines.drop_first())
    }
}

/// The header list with a header of that name and value at its end, unless it
/// holds one of that name already.
pub open spec fn with_default_header(
    headers: Seq<(Seq<char>, Seq<char>)>,
    name: Seq<char>,
    value: Seq<char>,
) -> Seq<(Seq<char>, Seq<char>)> {
    if has_header(headers, name) {
        headers
    } else {
        headers.push((name, value))
    }
}

/// The headers that a response is written with: its own, and after them a
/// default for each of `Content-Length`, `Content-Type`, `Connection`, `Date`
/// and `Server` that it does not hold itself.
pub open spec fn final_headers(res: ResponseView, date: Seq<char>) -> Seq<(Seq<char>, Seq<char>)> {
    let h0 = res.headers;
    let h1 = with_default_header(
        h0,
        "Content-Length"@,
        decimal_of(vstd::utf8::encode_utf8(res.body).len()),
    );
    let h2 = with_default_header(h1, "Content-Type"@, "text/plain"@);
    let h3 = with_default_header(h2, "Connection"@, "close"@);
    let h4 = with_default_header(h3, "Date"@, date);
    with_default_header(h4, "Server"@, "RustHTTP/0.1"@)
}

/// The wire form of a response that is written at the given date: status
/// line, final headers, an empty line and the body.
pub open spec fn response_text(res: ResponseView, date: Seq<char>) -> Seq<char> {
    "HTTP/1.1 "@ + decimal_of(res.status_code as nat) + " "@ + res.reason_phrase + "\r\n"@
        + header_lines_text(final_headers(res, date)) + "\r\n"@ + res.body
}

/// `chrono::Utc::now` reads the system clock and `to_rfc2822` formats that
/// moment, so nothing is promised of the text. The call panics where the
/// clock stands before 1970 or after the year 9999.
#[verifier::external_body]
pub(crate) fn current_date() -> (date: String) {
    chrono::Utc::now().to_rfc2822()
}

/// `mime_guess::from_path` guesses a media type from the extension of a path
/// without reading the disk, `first_or_octet_stream` falls back to
/// `application/octet-stream`. What counts as the extension follows the
/// platform's path rules, so nothing is promised of the text.
#[verifier::external_body]
pub(crate) fn guess_content_type(path: &str) -> (content_type: String) {
    mime_guess::from_path(path).first_or_octet_stream().essence_str().to_string()
}

/// Adds a header of that name and value unless one of that name is there.
fn insert_if_missing(headers: &mut Vec<(String, String)>, name: &str, value: String)
    ensures
        header_views(final(headers)@) == with_default_header(
            header_views(old(headers)@),
            name@,
            value@,
        ),
{
    if !contains_header(headers, name) {
        headers.push((name.to_owned(), value));
    }
}

impl Response {
    /// A response of that status, with the reason phrase that goes with it,
    /// no headers and an empty body.
    pub fn new(status_code: u16) -> (res: Response)
        ensures
            res@ == bare_response(status_code),
    {
        let res = Response {
            status_code,
            reason_phrase: Response::get_reason_phrase(status_code).to_owned(),
            headers: Vec::new(),
            body: String::new(),
        };
        assert(header_views(res.headers@) =~= Seq::empty());
        res
    }

    /// The response with that body in place of its own.
    pub fn with_body(self, body: &str) -> (res: Response)
        ensures
            res@ == (ResponseView { body: body@, ..self@ }),
    {
        let mut res = self;
        res.body = body.to_owned();
        res
    }

    /// The response with one more header at the end of its list; a header of
    /// the same name that is there already stays.
    pub fn with_header(self, key: &str, value: &str) -> (res: Response)
        ensures
            res@ == (ResponseView { headers: self@.headers.push((key@, value@)), ..self@ }),
    {
        let mut res = self;
        let ghost before = header_views(res.headers@);
        res.headers.push((key.to_owned(), value.to_owned()));
        assert(header_views(res.headers@) =~= before.push((key@, value@)));
        res
    }

    /// The response for a file that was read, or could not be read. What was
    /// read is served with status 200 and the media type guessed from the
    /// path; a failed read gives status 404.
    pub fn from_file_contents(path: &str, contents: Option<String>) -> (res: Response)
        ensures
            match contents {
                Some(body) => exists|content_type: Seq<char>|
                    res@ == #[trigger] content_response(body@, content_type),
                None => res@ == (ResponseView { body: "404 Not Found"@, ..bare_response(404) }),
            },
    {
        match contents {
            Some(body) => {
                let content_type = guess_content_type(path);
                Response::with_content(body.as_str(), content_type.as_str())
            },
            None => Response::new(404).with_body("404 Not Found"),
        }
    }

    /// A response of status 200 with that body and that media type.
    pub fn with_content(body: &str, content_type: &str) -> (res: Response)
        ensures
            res@ == content_response(body@, content_type@),
    {
        Response::new(200).with_body(body).with_header("Content-Type", content_type)
    }

    /// The response with the headers of a header block in place of its own.
    /// Each line of the block that is not empty is one header.
    pub fn parse_headers(self, headers_str: &str) -> (res: Response)
        ensures
            res@ == (ResponseView { headers: headers_of_lines(lines_of(headers_str@)), ..self@ }),
    {
        let chars = chars_of(headers_str);
        let all = lines(chars.as_slice());
        let ghost all_texts = lines_of(headers_str@);
        let mut headers: Vec<(String, String)> = Vec::new();
        let mut i: usize = 0;
        assert(all_texts.skip(0) =~= all_texts);
        while i < all.len()
            invariant
                i <= all.len(),
                texts_of(all@) == all_texts,
                headers_of_lines(all_texts) == header_views(headers@) + headers_of_lines(
                    all_texts.skip(i as int),
                ),
            decreases all.len() - i,
        {
            let line = all[i];
            assert(all_texts.skip(i as int).drop_first() =~= all_texts.skip(i + 1));
            if line.len() > 0 {
                let n = find_pair(line, ':', ' ');
                let (name, value) = if n < line.len() {
                    (string_of(&line[0..n]), string_of(&line[n + 2..line.len()]))
                } else {
                    (string_of(line), String::new())
                };
                headers.push((name, value));
            }
            i += 1;
        }
        let mut res = self;
        res.headers = headers;
        res
    }

    /// Writes the response in its wire form, with the current time as the
    /// default of the `Date` header.
    pub fn to_bytes(&self) -> (bytes: Vec<u8>)
        ensures
            exists|date: Seq<char>|
                bytes@ == vstd::utf8::encode_utf8(#[trigger] response_text(self@, date)),
    {
        let date = current_date();
        self.to_bytes_dated(date.as_str())
    }

    /// Writes the response in its wire form, with the given text as the
    /// default of the `Date` header.
    pub fn to_bytes_dated(&self, date: &str) -> (bytes: Vec<u8>)
        ensures
            bytes@ == vstd::utf8::encode_utf8(response_text(self@, date@)),
    {
        let headers = self.prepare_headers(date);
        let mut out = "HTTP/1.1 ".to_owned();
        push_decimal(&mut out, self.status_code as usize);
        out.append(" ");
        out.append(self.reason_phrase.as_str());
        out.append("\r\n");
        write_header_lines(&mut out, &headers);
        out.append("\r\n");
        out.append(self.body.as_str());
        out.as_str().as_bytes_vec()
    }

    /// The headers that the response is written with: its own, and the
    /// defaults for those of the five standard headers that it lacks.
    pub fn prepare_headers(&self, date: &str) -> (headers: Vec<(String, String)>)
        ensures
            header_views(headers@) == final_headers(self@, date@),
    {
        let mut headers = clone_headers(&self.headers);
        let body_len = self.body.as_str().as_bytes().len();
        insert_if_missing(&mut headers, "Content-Length", decimal(body_len));
        insert_if_missing(&mut headers, "Content-Type", "text/plain".to_owned());
        insert_if_missing(&mut headers, "Connection", "close".to_owned());
        insert_if_missing(&mut headers, "Date", date.to_owned());
        insert_if_missing(&mut headers, "Server", "RustHTTP/0.1".to_owned());
        headers
    }

    /// The reason phrase that goes with a status code; `Unknown` for a code
    /// that the table does not hold.
    pub fn get_reason_phrase(status_code: u16) -> (phrase: &'static str)
        ensures
            phrase@ == reason_phrase_of(status_code),
    {
        match status_code {
            200 => "OK",
            201 => "Created",
            204 => "No Content",
            301 => "Moved Permanently",
            302 => "Found",
            400 => "Bad Request",
            401 => "Unauthorized",
            403 => "Forbidden",
            404 => "Not Found",
            405 => "Method Not Allowed",
            500 => "Internal Server Error",
            501 => "Not Implemented",
            503 => "Service Unavailable",
            _ => "Unknown",
        }
    }
}

/// A response without headers of its own is written with exactly the five
/// default headers, one of each: `Content-Length` with the length of the body
/// in bytes, `Content-Type`, `Connection`, `Date` and `Server`.
pub proof fn lemma_default_headers(res: ResponseView, date: Seq<char>)
    requires
        res.headers.len() == 0,
    ensures
        final_headers(res, date) == seq![
            ("Content-Length"@, decimal_of(vstd::utf8::encode_utf8(res.body).len())),
            ("Content-Type"@, "text/plain"@),
            ("Connection"@, "close"@),
            ("Date"@, date),
            ("Server"@, "RustHTTP/0.1"@),
        ],
{
    reveal_strlit("Content-Length");
    reveal_strlit("Content-Type");
    reveal_strlit("Connection");
    reveal_strlit("Date");
    reveal_strlit("Server");
    let length = decimal_of(vstd::utf8::encode_utf8(res.body).len());
    let h1 = seq![("Content-Length"@, length)];
    let h2 = h1.push(("Content-Type"@, "text/plain"@));
    let h3 = h2.push(("Connection"@, "close"@));
    let h4 = h3.push(("Date"@, date));
    let h5 = h4.push(("Server"@, "RustHTTP/0.1"@));
    assert(res.headers.push(("Content-Length"@, length)) =~= h1);
    assert(!has_header(res.headers, "Content-Length"@));
    assert(!has_header(h1, "Content-Type"@));
    assert(!has_header(h2, "Connection"@));
    assert(!has_header(h3, "Date"@));
    assert(!has_header(h4, "Server"@));
    assert(final_headers(res, date) =~= h5);
}

/// The headers that a response sets itself are written first and as they
/// are, and a default is added only under a name that the response does not
/// set: an explicit `Content-Type` is kept, and no default stands beside it.
pub proof fn lemma_explicit_headers_kept(res: ResponseView, date: Seq<char>)
    ensures
        res.headers.len() <= final_headers(res, date).len() <= res.headers.len() + 5,
        final_headers(res, date).take(res.headers.len() as int) == res.headers,
        forall|i: int|
            res.headers.len() <= i < final_headers(res, date).len() ==> !has_header(
                res.headers,
                #[trigger] final_headers(res, date)[i].0,
            ),
{
    let length = decimal_of(vstd::utf8::encode_utf8(res.body).len());
    let h0 = res.headers;
    let h1 = with_default_header(h0, "Content-Length"@, length);
    let h2 = with_default_header(h1, "Content-Type"@, "text/plain"@);
    let h3 = with_default_header(h2, "Connection"@, "close"@);
    let h4 = with_default_header(h3, "Date"@, date);
    let h5 = with_default_header(h4, "Server"@, "RustHTTP/0.1"@);
    assert(h0.take(h0.len() as int) =~= h0);
    lemma_default_keeps(h0, h0, "Content-Length"@, length);
    lemma_default_keeps(h0, h1, "Content-Type"@, "text/plain"@);
    lemma_default_keeps(h0, h2, "Connection"@, "close"@);
    lemma_default_keeps(h0, h3, "Date"@, date);
    lemma_default_keeps(h0, h4, "Server"@, "RustHTTP/0.1"@);
}

/// One step of filling in defaults keeps what the response set and adds
/// nothing under a name that the response set.
proof fn lemma_default_keeps(
    own: Seq<(Seq<char>, Seq<char>)>,
    headers: Seq<(Seq<char>, Seq<char>)>,
    name: Seq<char>,
    value: Seq<char>,
)
    requires
        own.len() <= headers.len(),
        headers.take(own.len() as int) == own,
        forall|i: int| own.len() <= i < headers.len() ==> !has_header(own, #[trigger] headers[i].0),
    ensures
        ({
            let next = with_default_header(headers, name, value);
            &&& headers.len() <= next.len() <= headers.len() + 1
            &&& next.take(own.len() as int) == own
            &&& forall|i: int| own.len() <= i < next.len() ==> !has_header(own, #[trigger] next[i].0)
        }),
{
    let next = with_default_header(headers, name, value);
    assert(next.take(own.len() as int) =~= headers.take(own.len() as int));
    if !has_header(headers, name) {
        if has_header(own, name) {
            let i = choose|i: int|
                0 <= i < own.len() && eq_ignoring_ascii_case(#[trigger] own[i].0, name);
            assert(headers[i] == headers.take(own.len() as int)[i]);
            assert(eq_ignoring_ascii_case(headers[i].0, name));
        }
    }
}

} // verus!
