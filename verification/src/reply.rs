use vstd::prelude::*;
use vstd::string::*;
use vstd::utf8::encode_utf8;

use crate::error::{message_error_text, MessageError};
use crate::response_builder::{surely_held_headers, HttpResponse};
use crate::server_response::{
    attribute_names_known, event_to_response, spec_event_to_response, EventMessage,
};

verus! {

/// Serializes an event as an HTTP response. When the event cannot be
/// serialized, the response is a 500 whose body is the error's text; so is
/// it when the response reaches http's header limit.
pub fn ce_event(event: EventMessage) -> (resp: HttpResponse)
    requires
        attribute_names_known(event@),
    ensures
        match spec_event_to_response(event@) {
            Ok(v) => resp@ == v || (v.1.len() > surely_held_headers() && resp@ == (
                500u16,
                Seq::<(Seq<char>, Seq<char>)>::empty(),
                encode_utf8(message_error_text(MessageError::TooManyHeaders)),
            )),
            Err(e) => resp@ == (
                500u16,
                Seq::<(Seq<char>, Seq<char>)>::empty(),
                encode_utf8(message_error_text(e)),
            ),
        },
{
    match event_to_response(event) {
        Ok(response) => response,
        Err(e) => {
            let text = e.to_text();
            let body = text.as_str().as_bytes_vec();
            let resp = HttpResponse { status: 500, headers: Vec::new(), body };
            proof {
                assert(resp@.1 =~= Seq::<(Seq<char>, Seq<char>)>::empty());
            }
            resp
        },
    }
}

} // verus!
