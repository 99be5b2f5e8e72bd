use vstd::prelude::*;

use crate::error::MessageError;
use crate::headers::{
    check_header_value, header_name, lemma_normalized_name, normalize_header_name,
    valid_header_name, valid_header_value,
};

verus! {

/// A header of a response as plain values: its name and its text.
pub type HeaderText = (Seq<char>, Seq<char>);

pub open spec fn text_headers_view(hs: Seq<(String, String)>) -> Seq<HeaderText> {
    hs.map_values(|h: (String, String)| (h.0@, h.1@))
}

/// A response builder as plain values: the status, the headers in order, and
/// the error that the builder holds, if any.
pub type BuilderView = (u16, Seq<HeaderText>, Option<MessageError>);

/// How many headers an http header map surely holds: it can reach its size
/// limit only when it grows past 32768 slots, which needs at least a fifth of
/// them filled.
pub open spec fn surely_held_headers() -> nat {
    6554
}

/// A status code that http accepts: 100 to 999.
pub open spec fn valid_status(status: u16) -> bool {
    100 <= status < 1000
}

/// Headers whose names are valid and normalized and whose values are valid.
pub open spec fn valid_headers(hs: Seq<HeaderText>) -> bool {
    forall|i: int|
        0 <= i < hs.len() ==> valid_header_name(#[trigger] hs[i].0) && normalize_header_name(
            hs[i].0,
        ) == hs[i].0 && valid_header_value(hs[i].1)
}

/// What adding a header does to a builder, as http's `Builder::header` does
/// it: nothing once the builder holds an error; else an invalid name, then an
/// invalid value, is held as the error; else the header is appended under its
/// normalized name, unless the header map reaches its size limit, which can
/// only happen once it holds `surely_held_headers()` headers.
pub open spec fn header_added(
    b: BuilderView,
    name: Seq<char>,
    value: Seq<char>,
    next: BuilderView,
) -> bool {
    if b.2 is Some {
        next == b
    } else if !valid_header_name(name) {
        next == (b.0, b.1, Some(MessageError::InvalidHeaderName))
    } else if !valid_header_value(value) {
        next == (b.0, b.1, Some(MessageError::InvalidHeaderValue))
    } else if b.1.len() < surely_held_headers() {
        next == (b.0, b.1.push((normalize_header_name(name), value)), None::<MessageError>)
    } else {
        next == (b.0, b.1.push((normalize_header_name(name), value)), None::<MessageError>) || next
            == (b.0, b.1, Some(MessageError::TooManyHeaders))
    }
}

/// The start of an HTTP response: a status and the headers set so far, in
/// order, or the error that setting them raised, as http's response builder
/// holds them.
#[derive(Debug, PartialEq, Eq)]
pub struct ResponseBuilder {
    status: u16,
    headers: Vec<(String, String)>,
    error: Option<MessageError>,
}

impl View for ResponseBuilder {
    type V = BuilderView;

    /// The status, the headers in order, and the error held, if any.
    closed spec fn view(&self) -> BuilderView {
        (self.status, text_headers_view(self.headers@), self.error)
    }
}

impl ResponseBuilder {
    /// Without an error, the status and the headers are valid.
    #[verifier::type_invariant]
    spec fn well_formed(self) -> bool {
        self.error is None ==> valid_status(self.status) && valid_headers(
            text_headers_view(self.headers@),
        )
    }

    /// A builder with status 200, no headers and no error, as http starts one.
    pub fn new() -> (b: ResponseBuilder)
        ensures
            b.view() == (200u16, Seq::<HeaderText>::empty(), None::<MessageError>),
    {
        let b = ResponseBuilder { status: 200, headers: Vec::new(), error: None };
        proof {
            assert(text_headers_view(b.headers@) =~= Seq::<HeaderText>::empty());
        }
        b
    }

    /// Sets the status, as http's `Builder::status` does: nothing once the
    /// builder holds an error; a status outside 100 to 999 is held as the error.
    pub fn status(self, status: u16) -> (b: ResponseBuilder)
        ensures
            self.view().2 is Some ==> b.view() == self.view(),
            self.view().2 is None && valid_status(status) ==> b.view() == (
                status,
                self.view().1,
                None::<MessageError>,
            ),
            self.view().2 is None && !valid_status(status) ==> b.view() == (
                self.view().0,
                self.view().1,
                Some(MessageError::InvalidStatusCode),
            ),
    {
        proof {
            use_type_invariant(&self);
        }
        if self.error.is_some() {
            return self;
        }
        if 100 <= status && status < 1000 {
            ResponseBuilder { status, headers: self.headers, error: None }
        } else {
            ResponseBuilder {
                status: self.status,
                headers: self.headers,
                error: Some(MessageError::InvalidStatusCode),
            }
        }
    }

    /// Adds a header, as http's `Builder::header` does.
    pub fn header(self, name: &str, value: &str) -> (b: ResponseBuilder)
        ensures
            header_added(self.view(), name@, value@, b.view()),
    {
        proof {
            use_type_invariant(&self);
        }
        if self.error.is_some() {
            return self;
        }
        let normalized = match header_name(name) {
            Ok(n) => n,
            Err(e) => {
                return ResponseBuilder { status: self.status, headers: self.headers, error: Some(e) };
            },
        };
        match check_header_value(value) {
            Ok(()) => {},
            Err(e) => {
                return ResponseBuilder { status: self.status, headers: self.headers, error: Some(e) };
            },
        }
        proof {
            lemma_normalized_name(name@);
        }
        let mut headers = self.headers;
        let ghost before = text_headers_view(headers@);
        headers.push((normalized, value.to_owned()));
        proof {
            assert(text_headers_view(headers@) =~= before.push((normalize_header_name(name@), value@)));
        }
        ResponseBuilder { status: self.status, headers, error: None }
    }

    /// Ends the response with the given body, as http's `Builder::body` does:
    /// the error that the builder holds, if any; else the response.
    pub fn body(self, body: Vec<u8>) -> (r: Result<HttpResponse, MessageError>)
        ensures
            self.view().2 matches Some(e) ==> r == Err::<HttpResponse, MessageError>(e),
            self.view().2 is None ==> (r matches Ok(resp) && resp.view() == (
                self.view().0,
                self.view().1,
                body@,
            ) && valid_status(resp.status) && valid_headers(resp.view().1)),
    {
        proof {
            use_type_invariant(&self);
        }
        match self.error {
            Some(e) => Err(e),
            None => Ok(HttpResponse { status: self.status, headers: self.headers, body }),
        }
    }
}

/// An HTTP response: status, headers in order, body.
#[derive(Debug, PartialEq, Eq)]
pub struct HttpResponse {
    pub status: u16,
    pub headers: Vec<(String, String)>,
    pub body: Vec<u8>,
}

/// A response as plain values: status, headers in order, body.
pub type ResponseView = (u16, Seq<HeaderText>, Seq<u8>);

impl View for HttpResponse {
    type V = ResponseView;

    open spec fn view(&self) -> ResponseView {
        (self.status, text_headers_view(self.headers@), self.body@)
    }
}

} // verus!
