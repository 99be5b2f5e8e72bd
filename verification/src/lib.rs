pub mod error;
pub mod filter;
pub mod headers;
pub mod laws;
pub mod reply;
pub mod response_builder;
pub mod roundtrip;
pub mod server_request;
pub mod server_response;
pub mod spec_version;

pub use error::MessageError;
pub use server_request::{
    request_to_event, BinaryMessage, CERequestDeserializer, Encoding, FieldKind, Message,
    MessageField,
};
pub use response_builder::{HttpResponse, ResponseBuilder};
pub use server_response::{event_to_response, CEResponseSerializer, EventMessage};
pub use spec_version::SpecVersion;

