//! The request method: the nine standard verbs and an open extension case.

use crate::text::str_eq;
use vstd::prelude::*;
use vstd::string::*;

verus! {

/// An HTTP request method.
#[derive(Debug, Eq, Hash)]
pub enum HttpMethod {
    GET,
    POST,
    PUT,
    DELETE,
    PATCH,
    HEAD,
    OPTIONS,
    CONNECT,
    TRACE,
    /// Any other token, kept as it was written in upper case.
    OTHER(String),
}

/// The mathematical value of an [`HttpMethod`].
pub enum HttpMethodView {
    GET,
    POST,
    PUT,
    DELETE,
    PATCH,
    HEAD,
    OPTIONS,
    CONNECT,
    TRACE,
    OTHER(Seq<char>),
}

/// The error type of method parsing. Parsing never fails, so no value of it
/// is ever returned.
#[derive(Debug, Clone, Copy, PartialEq, Eq)]
pub struct ParseHttpMethodError;

impl View for HttpMethod {
    type V = HttpMethodView;

    open spec fn view(&self) -> HttpMethodView {
        match self {
            HttpMethod::GET => HttpMethodView::GET,
            HttpMethod::POST => HttpMethodView::POST,
            HttpMethod::PUT => HttpMethodView::PUT,
            HttpMethod::DELETE => HttpMethodView::DELETE,
            HttpMethod::PATCH => HttpMethodView::PATCH,
            HttpMethod::HEAD => HttpMethodView::HEAD,
            HttpMethod::OPTIONS => HttpMethodView::OPTIONS,
            HttpMethod::CONNECT => HttpMethodView::CONNECT,
            HttpMethod::TRACE => HttpMethodView::TRACE,
            HttpMethod::OTHER(s) => HttpMethodView::OTHER(s@),
        }
    }
}

/// What `str::to_uppercase` returns for a text: its Unicode upper-case
/// equivalent.
pub uninterp spec fn uppercase_of(s: Seq<char>) -> Seq<char>;

/// `str::to_uppercase` returns the upper-case equivalent of the string as a
/// new `String`; the result depends on the characters alone.
pub assume_specification[ str::to_uppercase ](s: &str) -> (out: String)
    ensures
        out@ == uppercase_of(s@),
;

/// The method that an upper-case token names: one of the standard verbs where
/// the token is exactly its name, the extension case otherwise.
pub open spec fn method_of_token(token: Seq<char>) -> HttpMethodView {
    if token == "GET"@ {
        HttpMethodView::GET
    } else if token == "POST"@ {
        HttpMethodView::POST
    } else if token == "PUT"@ {
        HttpMethodView::PUT
    } else if token == "DELETE"@ {
        HttpMethodView::DELETE
    } else if token == "PATCH"@ {
        HttpMethodView::PATCH
    } else if token == "HEAD"@ {
        HttpMethodView::HEAD
    } else if token == "OPTIONS"@ {
        HttpMethodView::OPTIONS
    } else if token == "CONNECT"@ {
        HttpMethodView::CONNECT
    } else if token == "TRACE"@ {
        HttpMethodView::TRACE
    } else {
        HttpMethodView::OTHER(token)
    }
}

/// The method that a text of any case parses to.
pub open spec fn parsed_method(s: Seq<char>) -> HttpMethodView {
    method_of_token(uppercase_of(s))
}

/// The token that a method is written as on the wire.
pub open spec fn token_of(method: HttpMethodView) -> Seq<char> {
    match method {
        HttpMethodView::GET => "GET"@,
        HttpMethodView::POST => "POST"@,
        HttpMethodView::PUT => "PUT"@,
        HttpMethodView::DELETE => "DELETE"@,
        HttpMethodView::PATCH => "PATCH"@,
        HttpMethodView::HEAD => "HEAD"@,
        HttpMethodView::OPTIONS => "OPTIONS"@,
        HttpMethodView::CONNECT => "CONNECT"@,
        HttpMethodView::TRACE => "TRACE"@,
        HttpMethodView::OTHER(s) => s,
    }
}

impl HttpMethod {
    /// Parses a method from text of any case. Every text is a method.
    pub fn from_str(s: &str) -> (res: Result<HttpMethod, ParseHttpMethodError>)
        ensures
            res matches Ok(m) && m@ == parsed_method(s@),
    {
        Ok(HttpMethod::from_uppercase(s.to_uppercase()))
    }

    /// The method that a token already in upper case names.
    pub fn from_uppercase(token: String) -> (m: HttpMethod)
        ensures
            m@ == method_of_token(token@),
    {
        let t = token.as_str();
        if str_eq(t, "GET") {
            HttpMethod::GET
        } else if str_eq(t, "POST") {
            HttpMethod::POST
        } else if str_eq(t, "PUT") {
            HttpMethod::PUT
        } else if str_eq(t, "DELETE") {
            HttpMethod::DELETE
        } else if str_eq(t, "PATCH") {
            HttpMethod::PATCH
        } else if str_eq(t, "HEAD") {
            HttpMethod::HEAD
        } else if str_eq(t, "OPTIONS") {
            HttpMethod::OPTIONS
        } else if str_eq(t, "CONNECT") {
            HttpMethod::CONNECT
        } else if str_eq(t, "TRACE") {
            HttpMethod::TRACE
        } else {
            HttpMethod::OTHER(token)
        }
    }

    /// The token of the method.
    pub fn as_str(&self) -> (out: &str)
        ensures
            out@ == token_of(self@),
    {
        match self {
            HttpMethod::GET => "GET",
            HttpMethod::POST => "POST",
            HttpMethod::PUT => "PUT",
            HttpMethod::DELETE => "DELETE",
            HttpMethod::PATCH => "PATCH",
            HttpMethod::HEAD => "HEAD",
            HttpMethod::OPTIONS => "OPTIONS",
            HttpMethod::CONNECT => "CONNECT",
            HttpMethod::TRACE => "TRACE",
            HttpMethod::OTHER(s) => s.as_str(),
        }
    }

    /// Formats the method as its token.
    pub fn to_string(&self) -> (out: String)
        ensures
            out@ == token_of(self@),
    {
        self.as_str().to_owned()
    }
}

impl Clone for HttpMethod {
    fn clone(&self) -> (out: HttpMethod)
        ensures
            out@ == self@,
    {
        match self {
            HttpMethod::GET => HttpMethod::GET,
            HttpMethod::POST => HttpMethod::POST,
            HttpMethod::PUT => HttpMethod::PUT,
            HttpMethod::DELETE => HttpMethod::DELETE,
            HttpMethod::PATCH => HttpMethod::PATCH,
            HttpMethod::HEAD => HttpMethod::HEAD,
            HttpMethod::OPTIONS => HttpMethod::OPTIONS,
            HttpMethod::CONNECT => HttpMethod::CONNECT,
            HttpMethod::TRACE => HttpMethod::TRACE,
            HttpMethod::OTHER(s) => HttpMethod::OTHER(s.clone()),
        }
    }
}

impl PartialEq for HttpMethod {
    fn eq(&self, other: &HttpMethod) -> (same: bool) {
        match (self, other) {
            (HttpMethod::GET, HttpMethod::GET) => true,
            (HttpMethod::POST, HttpMethod::POST) => true,
            (HttpMethod::PUT, HttpMethod::PUT) => true,
            (HttpMethod::DELETE, HttpMethod::DELETE) => true,
            (HttpMethod::PATCH, HttpMethod::PATCH) => true,
            (HttpMethod::HEAD, HttpMethod::HEAD) => true,
            (HttpMethod::OPTIONS, HttpMethod::OPTIONS) => true,
            (HttpMethod::CONNECT, HttpMethod::CONNECT) => true,
            (HttpMethod::TRACE, HttpMethod::TRACE) => true,
            (HttpMethod::OTHER(a), HttpMethod::OTHER(b)) => str_eq(a.as_str(), b.as_str()),
            _ => false,
        }
    }
}

impl vstd::std_specs::cmp::PartialEqSpecImpl for HttpMethod {
    open spec fn obeys_eq_spec() -> bool {
        true
    }

    open spec fn eq_spec(&self, other: &HttpMethod) -> bool {
        self@ == other@
    }
}

/// Formatting a parsed method gives back the upper-case form of the text that
/// was parsed: for a standard verb its canonical token, for any other text the
/// text in upper case.
pub proof fn lemma_format_of_parse(s: Seq<char>)
    ensures
        token_of(parsed_method(s)) == uppercase_of(s),
        parsed_method(s) is OTHER ==> parsed_method(s) == HttpMethodView::OTHER(uppercase_of(s)),
{
}

} // verus!
