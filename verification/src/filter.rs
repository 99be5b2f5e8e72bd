use vstd::prelude::*;

use crate::error::{message_error_text, MessageError};
use crate::server_request::{headers_view, request_outcome, request_to_event, Message};

verus! {

/// The rejection of a request that does not hold a CloudEvent: the text of
/// what went wrong.
#[derive(Debug, PartialEq, Eq)]
pub struct CEFilterError {
    message: String,
}

impl CEFilterError {
    /// The text of the rejection.
    pub closed spec fn message_view(&self) -> Seq<char> {
        self.message@
    }

    /// A rejection with the given text.
    pub fn new(message: String) -> (r: CEFilterError)
        ensures
            r.message_view() == message@,
    {
        CEFilterError { message }
    }

    /// The rejection of a request that the binding refused: the error's text.
    pub fn from_error(e: &MessageError) -> (r: CEFilterError)
        ensures
            r.message_view() == message_error_text(*e),
    {
        CEFilterError { message: e.to_text() }
    }

    /// The text of the rejection.
    pub fn message(&self) -> (m: &str)
        ensures
            m@ == self.message_view(),
    {
        self.message.as_str()
    }
}

/// Reads the headers and body of a request as a CloudEvent message; a refused
/// request is rejected with the text of the error.
pub fn create_event(req: Vec<(String, Vec<u8>)>, body: Vec<u8>) -> (r: Result<
    Message,
    CEFilterError,
>)
    ensures
        match r {
            Ok(m) => request_outcome(headers_view(req@), body@, Ok(m)),
            Err(f) => exists|e: MessageError|
                #[trigger] request_outcome(headers_view(req@), body@, Err(e))
                    && f.message_view() == message_error_text(e),
        },
{
    let ghost hs = headers_view(req@);
    let ghost bs = body@;
    match request_to_event(req, body) {
        Ok(m) => Ok(m),
        Err(e) => {
            let f = CEFilterError::from_error(&e);
            assert(request_outcome(hs, bs, Err(e)));
            Err(f)
        },
    }
}

} // verus!
