use vstd::prelude::*;

verus! {

/// Errors raised while mapping a CloudEvent to or from an HTTP message.
///
/// The variants mirror the errors of the CloudEvents message binding that this
/// library can raise itself; `to_text` gives the text under which that binding
/// reports each of them.
#[derive(Debug, PartialEq, Eq)]
pub enum MessageError {
    /// The message is not in the encoding that the operation needs.
    WrongEncoding,
    /// The `ce-specversion` header names no known specification version.
    UnknownSpecVersion { spec_version_value: String },
    /// A header value holds bytes other than visible ASCII.
    HeaderValueNotText,
    /// A header name that the event asks for is not a valid HTTP header name.
    InvalidHeaderName,
    /// A header value that the event asks for is not a valid HTTP header value.
    InvalidHeaderValue,
    /// The response was given a status code outside 100 to 999.
    InvalidStatusCode,
    /// The response's header map reached its size limit.
    TooManyHeaders,
}

/// The text under which an error is reported.
pub open spec fn message_error_text(e: MessageError) -> Seq<char> {
    match e {
        MessageError::WrongEncoding => "Wrong encoding"@,
        MessageError::UnknownSpecVersion { spec_version_value } => "Invalid specversion "@
            + spec_version_value@,
        MessageError::HeaderValueNotText => "Other error: failed to convert header to a str"@,
        MessageError::InvalidHeaderName => "Other error: invalid HTTP header name"@,
        MessageError::InvalidHeaderValue => "Other error: failed to parse header value"@,
        MessageError::InvalidStatusCode => "Other error: invalid status code"@,
        MessageError::TooManyHeaders => "Other error: max size reached"@,
    }
}

impl MessageError {
    /// The text under which this error is reported.
    pub fn to_text(&self) -> (text: String)
        ensures
            text@ == message_error_text(*self),
    {
        match self {
            MessageError::WrongEncoding => "Wrong encoding".to_owned(),
            MessageError::UnknownSpecVersion { spec_version_value } => {
                let prefix = "Invalid specversion ".to_owned();
                prefix.concat(spec_version_value.as_str())
            },
            MessageError::HeaderValueNotText => "Other error: failed to convert header to a str".to_owned(),
            MessageError::InvalidHeaderName => "Other error: invalid HTTP header name".to_owned(),
            MessageError::InvalidHeaderValue => "Other error: failed to parse header value".to_owned(),
            MessageError::InvalidStatusCode => "Other error: invalid status code".to_owned(),
            MessageError::TooManyHeaders => "Other error: max size reached".to_owned(),
        }
    }
}

} // verus!
