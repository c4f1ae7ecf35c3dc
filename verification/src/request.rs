//! The request: a request line and headers, parsed from and written to the
//! wire format.

use crate::header::{
    clone_headers, header_lines_text, header_views, parse_header_line, parsed_headers,
    write_header_lines,
};
use crate::http_method::{parsed_method, token_of, HttpMethod, HttpMethodView, ParseHttpMethodError};
use crate::text::{
    chars_of, decode_utf8_lossy, lines, lines_of, split_whitespace, string_of, texts_of, trim,
    utf8_lossy_of, words_of,
};
use vstd::prelude::*;
use vstd::string::*;

verus! {

/// A parsed request. There is no body: bodies are neither read nor kept.
#[derive(Debug)]
pub struct Request {
    pub method: HttpMethod,
    pub path: String,
    pub version: String,
    pub headers: Vec<(String, String)>,
}

/// The mathematical value of a [`Request`].
pub struct RequestView {
    pub method: HttpMethodView,
    pub path: Seq<char>,
    pub version: Seq<char>,
    pub headers: Seq<(Seq<char>, Seq<char>)>,
}

impl View for Request {
    type V = RequestView;

    open spec fn view(&self) -> RequestView {
        RequestView {
            method: self.method@,
            path: self.path@,
            version: self.version@,
            headers: header_views(self.headers@),
        }
    }
}

/// The request that a text holds. Its first line is the request line, split
/// at white space into method, path and version; a token that is missing is
/// taken to be `GET`, `/` and `HTTP/1.1` in turn. The lines after it are
/// headers, up to the first blank line.
pub open spec fn parsed_request(text: Seq<char>) -> RequestView {
    let all = lines_of(text);
    let tokens = if all.len() > 0 {
        words_of(all[0])
    } else {
        Seq::empty()
    };
    RequestView {
        method: if tokens.len() > 0 {
            parsed_method(tokens[0])
        } else {
            HttpMethodView::GET
        },
        path: if tokens.len() > 1 {
            tokens[1]
        } else {
            "/"@
        },
        version: if tokens.len() > 2 {
            tokens[2]
        } else {
            "HTTP/1.1"@
        },
        headers: if all.len() > 0 {
            parsed_headers(all.drop_first())
        } else {
            Seq::empty()
        },
    }
}

/// The wire form of a request: the request line, one line for each header,
/// and an empty line.
pub open spec fn request_text(req: RequestView) -> Seq<char> {
    token_of(req.method) + " "@ + req.path + " "@ + req.version + "\r\n"@ + header_lines_text(
        req.headers,
    ) + "\r\n"@
}

impl Request {
    /// Parses a request from the bytes that were read, taken as UTF-8 with
    /// every ill-formed part replaced. No input is rejected.
    pub fn from_buffer(buffer: &[u8]) -> (res: Result<Request, ParseHttpMethodError>)
        ensures
            res matches Ok(req) && req@ == parsed_request(utf8_lossy_of(buffer@)),
            vstd::utf8::valid_utf8(buffer@) ==> (res matches Ok(req) && req@ == parsed_request(
                vstd::utf8::decode_utf8(buffer@),
            )),
    {
        let text = decode_utf8_lossy(buffer);
        Request::from_text(text.as_str())
    }

    /// Parses a request from text. No input is rejected.
    pub fn from_text(text: &str) -> (res: Result<Request, ParseHttpMethodError>)
        ensures
            res matches Ok(req) && req@ == parsed_request(text@),
    {
        let chars = chars_of(text);
        let all = lines(chars.as_slice());
        let ghost all_texts = lines_of(text@);
        if all.len() == 0 {
            return Ok(Request::get("/"));
        }
        let tokens = split_whitespace(all[0]);
        let method = if tokens.len() > 0 {
            match HttpMethod::from_str(string_of(tokens[0]).as_str()) {
                Ok(m) => m,
                Err(e) => {
                    return Err(e);
                },
            }
        } else {
            HttpMethod::GET
        };
        let path = if tokens.len() > 1 {
            string_of(tokens[1])
        } else {
            "/".to_owned()
        };
        let version = if tokens.len() > 2 {
            string_of(tokens[2])
        } else {
            "HTTP/1.1".to_owned()
        };
        let mut headers: Vec<(String, String)> = Vec::new();
        let mut i: usize = 1;
        let mut open = true;
        while open && i < all.len()
            invariant
                1 <= i <= all.len(),
                texts_of(all@) == all_texts,
                parsed_headers(all_texts.drop_first()) == header_views(headers@) + (if open {
                    parsed_headers(all_texts.skip(i as int))
                } else {
                    Seq::empty()
                }),
            decreases all.len() - i + (if open { 1int } else { 0int }),
        {
            let line = all[i];
            assert(all_texts.skip(i as int).drop_first() =~= all_texts.skip(i + 1));
            if trim(line).len() == 0 {
                open = false;
            } else {
                if let Some(header) = parse_header_line(line) {
                    headers.push(header);
                }
                i += 1;
            }
        }
        Ok(Request { method, path, version, headers })
    }

    /// Writes the request in its wire form.
    pub fn to_string(&self) -> (out: String)
        ensures
            out@ == request_text(self@),
    {
        let mut out = self.method.to_string();
        out.append(" ");
        out.append(self.path.as_str());
        out.append(" ");
        out.append(self.version.as_str());
        out.append("\r\n");
        write_header_lines(&mut out, &self.headers);
        out.append("\r\n");
        out
    }

    /// A `GET` request for a path, with no headers.
    pub fn get(path: &str) -> (req: Request)
        ensures
            req@ == (RequestView {
                method: HttpMethodView::GET,
                path: path@,
                version: "HTTP/1.1"@,
                headers: Seq::empty(),
            }),
    {
        let req = Request {
            method: HttpMethod::GET,
            path: path.to_owned(),
            version: "HTTP/1.1".to_owned(),
            headers: Vec::new(),
        };
        assert(header_views(req.headers@) =~= Seq::empty());
        req
    }

    /// A `POST` request for a path, with no headers.
    pub fn post(path: &str) -> (req: Request)
        ensures
            req@ == (RequestView {
                method: HttpMethodView::POST,
                path: path@,
                version: "HTTP/1.1"@,
                headers: Seq::empty(),
            }),
    {
        let req = Request {
            method: HttpMethod::POST,
            path: path.to_owned(),
            version: "HTTP/1.1".to_owned(),
            headers: Vec::new(),
        };
        assert(header_views(req.headers@) =~= Seq::empty());
        req
    }

    /// The request with one more header at the end of its list.
    pub fn with_header(self, key: &str, value: &str) -> (req: Request)
        ensures
            req@ == (RequestView { headers: self@.headers.push((key@, value@)), ..self@ }),
    {
        let mut req = self;
        let ghost before = header_views(req.headers@);
        req.headers.push((key.to_owned(), value.to_owned()));
        assert(header_views(req.headers@) =~= before.push((key@, value@)));
        req
    }
}

impl Clone for Request {
    fn clone(&self) -> (out: Request)
        ensures
            out@ == self@,
    {
        Request {
            method: self.method.clone(),
            path: self.path.clone(),
            version: self.version.clone(),
            headers: clone_headers(&self.headers),
        }
    }
}

} // verus!
