use vstd::prelude::*;

use crate::error::MessageError;
use crate::headers::{
    ce_prefix, cloudevents_json, contains_text, content_type_header, has_ce_prefix,
    header_value_text, header_value_to_str, skip_prefix, spec_version_header, text_eq,
};
use crate::spec_version::{spec_attribute_names, spec_version_of, SpecVersion};

verus! {

/// The encoding of an incoming message.
#[derive(Debug, Clone, Copy, PartialEq, Eq, Structural)]
pub enum Encoding {
    /// A structured-mode CloudEvent: the whole event is in the body.
    STRUCTURED,
    /// A binary-mode CloudEvent: the attributes are in `ce-` headers.
    BINARY,
    /// Not a CloudEvent that this binding recognizes.
    UNKNOWN,
}

/// Whether a field of a binary message is a context attribute or an extension.
#[derive(Debug, Clone, Copy, PartialEq, Eq, Structural)]
pub enum FieldKind {
    Attribute,
    Extension,
}

/// One attribute or extension that a binary message carries.
#[derive(Debug, PartialEq, Eq)]
pub struct MessageField {
    pub kind: FieldKind,
    pub name: String,
    pub value: String,
}

/// A field as plain values: its kind, name and value.
pub type FieldView = (FieldKind, Seq<char>, Seq<char>);

impl View for MessageField {
    type V = FieldView;

    open spec fn view(&self) -> FieldView {
        (self.kind, self.name@, self.value@)
    }
}

/// A binary-mode message as the event builder is to receive it: the
/// specification version, then each field in order; then, unless reading the
/// headers failed after those fields, the body if it is not empty.
#[derive(Debug, PartialEq, Eq)]
pub struct BinaryMessage {
    pub spec_version: SpecVersion,
    pub fields: Vec<MessageField>,
    pub failure: Option<MessageError>,
    pub data: Option<Vec<u8>>,
}

impl BinaryMessage {
    pub open spec fn field_views(self) -> Seq<FieldView> {
        self.fields@.map_values(|f: MessageField| f.view())
    }
}

/// An incoming message, as the event builder is to receive it.
#[derive(Debug, PartialEq, Eq)]
pub enum Message {
    /// A binary-mode message.
    Binary(BinaryMessage),
    /// The body of a structured-mode message, which holds the event as JSON.
    Structured(Vec<u8>),
}

/// A header as plain values: its name and the bytes of its value.
pub type HeaderView = (Seq<char>, Seq<u8>);

pub open spec fn headers_view(req: Seq<(String, Vec<u8>)>) -> Seq<HeaderView> {
    req.map_values(|h: (String, Vec<u8>)| (h.0@, h.1@))
}

/// The value of the first header with the given name.
pub open spec fn header_lookup(hs: Seq<HeaderView>, name: Seq<char>) -> Option<Seq<u8>>
    decreases hs.len(),
{
    if hs.len() == 0 {
        None
    } else if hs[0].0 == name {
        Some(hs[0].1)
    } else {
        header_lookup(hs.drop_first(), name)
    }
}

/// The content type of a request as text; empty when absent or not text.
pub open spec fn content_type_text(hs: Seq<HeaderView>) -> Seq<char> {
    match header_lookup(hs, content_type_header()) {
        Some(v) => match header_value_text(v) {
            Some(t) => t,
            None => Seq::empty(),
        },
        None => Seq::empty(),
    }
}

/// The encoding of a request: structured when its content type is the
/// CloudEvents JSON type, else binary when it has a `ce-specversion` header.
pub open spec fn spec_encoding(hs: Seq<HeaderView>) -> Encoding {
    if content_type_text(hs) == cloudevents_json() {
        Encoding::STRUCTURED
    } else if header_lookup(hs, spec_version_header()) is Some {
        Encoding::BINARY
    } else {
        Encoding::UNKNOWN
    }
}

/// A header that carries a field: a `ce-` header other than `ce-specversion`.
pub open spec fn is_field_header(name: Seq<char>) -> bool {
    &&& name.len() >= 3
    &&& name.take(3) == ce_prefix()
    &&& name != spec_version_header()
}

/// Whether a field name is a context attribute among the given names.
pub open spec fn field_kind(name: Seq<char>, attribute_names: Seq<Seq<char>>) -> FieldKind {
    if attribute_names.contains(name) {
        FieldKind::Attribute
    } else {
        FieldKind::Extension
    }
}

/// The fields that the `ce-` headers carry, in order, up to the first such
/// header whose value is not text; and whether such a header stopped them.
pub open spec fn header_fields(hs: Seq<HeaderView>, attribute_names: Seq<Seq<char>>) -> (
    Seq<FieldView>,
    bool,
)
    decreases hs.len(),
{
    if hs.len() == 0 {
        (Seq::empty(), false)
    } else {
        let (fields, stopped) = header_fields(hs.drop_last(), attribute_names);
        let h = hs.last();
        if stopped || !is_field_header(h.0) {
            (fields, stopped)
        } else {
            match header_value_text(h.1) {
                None => (fields, true),
                Some(t) => (
                    fields.push((field_kind(h.0.skip(3), attribute_names), h.0.skip(3), t)),
                    false,
                ),
            }
        }
    }
}

/// The fields of a binary message: those of the `ce-` headers, then the
/// content type as `datacontenttype`; and whether a header that is not text
/// stopped them.
pub open spec fn message_fields(hs: Seq<HeaderView>, attribute_names: Seq<Seq<char>>) -> (
    Seq<FieldView>,
    bool,
) {
    let (fields, stopped) = header_fields(hs, attribute_names);
    if stopped {
        (fields, true)
    } else {
        match header_lookup(hs, content_type_header()) {
            None => (fields, false),
            Some(v) => match header_value_text(v) {
                None => (fields, true),
                Some(t) => (fields.push((FieldKind::Attribute, "datacontenttype"@, t)), false),
            },
        }
    }
}

/// What reading a binary message from the headers and body gives.
pub open spec fn decoded_binary(
    hs: Seq<HeaderView>,
    body: Seq<u8>,
    r: Result<BinaryMessage, MessageError>,
) -> bool {
    if spec_encoding(hs) != Encoding::BINARY {
        r == Err::<BinaryMessage, MessageError>(MessageError::WrongEncoding)
    } else {
        match header_value_text(header_lookup(hs, spec_version_header())->0) {
            None => r == Err::<BinaryMessage, MessageError>(MessageError::HeaderValueNotText),
            Some(t) => match spec_version_of(t) {
                None => r matches Err(MessageError::UnknownSpecVersion { spec_version_value })
                    && spec_version_value@ == t,
                Some(v) => r matches Ok(m) && {
                    let (fields, stopped) = message_fields(hs, spec_attribute_names(v));
                    &&& m.spec_version == v
                    &&& m.field_views() == fields
                    &&& stopped ==> (m.failure == Some(MessageError::HeaderValueNotText)
                        && m.data is None)
                    &&& !stopped ==> (m.failure is None && if body.len() != 0 {
                        m.data matches Some(d) && d@ == body
                    } else {
                        m.data is None
                    })
                },
            },
        }
    }
}

/// The position of the first header with the given name.
fn find_header(req: &Vec<(String, Vec<u8>)>, name: &str) -> (r: Option<usize>)
    ensures
        match r {
            Some(i) => i < req@.len() && header_lookup(headers_view(req@), name@) == Some(
                req@[i as int].1@,
            ),
            None => header_lookup(headers_view(req@), name@) is None,
        },
{
    let ghost hs = headers_view(req@);
    assert(hs.skip(0) =~= hs);
    let mut i: usize = 0;
    while i < req.len()
        invariant
            0 <= i <= req@.len(),
            hs == headers_view(req@),
            header_lookup(hs, name@) == header_lookup(hs.skip(i as int), name@),
        decreases req@.len() - i,
    {
        assert(hs.skip(i as int)[0] == hs[i as int]);
        if text_eq(req[i].0.as_str(), name) {
            return Some(i);
        }
        assert(hs.skip(i as int).drop_first() =~= hs.skip(i + 1));
        i = i + 1;
    }
    assert(hs.skip(i as int).len() == 0);
    None
}

/// Once a header that is not text stopped the fields, later headers change nothing.
proof fn lemma_header_fields_stay_stopped(
    hs: Seq<HeaderView>,
    attribute_names: Seq<Seq<char>>,
    k: int,
)
    requires
        0 <= k <= hs.len(),
        header_fields(hs.take(k), attribute_names).1,
    ensures
        header_fields(hs, attribute_names) == header_fields(hs.take(k), attribute_names),
    decreases hs.len() - k,
{
    if k == hs.len() {
        assert(hs.take(k) =~= hs);
    } else {
        assert(hs.take(k + 1).drop_last() =~= hs.take(k));
        lemma_header_fields_stay_stopped(hs, attribute_names, k + 1);
    }
}

/// Reads the request headers of a binary message, field by field.
fn read_header_fields(req: &Vec<(String, Vec<u8>)>, names: &Vec<String>) -> (r: (
    Vec<MessageField>,
    bool,
))
    ensures
        ({
            let (fields, stopped) = header_fields(
                headers_view(req@),
                names@.map_values(|n: String| n@),
            );
            r.0@.map_values(|f: MessageField| f.view()) == fields && r.1 == stopped
        }),
{
    let ghost hs = headers_view(req@);
    let ghost ns = names@.map_values(|n: String| n@);
    let mut fields: Vec<MessageField> = Vec::new();
    let mut i: usize = 0;
    while i < req.len()
        invariant
            0 <= i <= req@.len(),
            hs == headers_view(req@),
            ns == names@.map_values(|n: String| n@),
            header_fields(hs.take(i as int), ns) == (
                fields@.map_values(|f: MessageField| f.view()),
                false,
            ),
        decreases req@.len() - i,
    {
        let ghost before = fields@.map_values(|f: MessageField| f.view());
        assert(hs.take(i + 1).drop_last() =~= hs.take(i as int));
        assert(hs.take(i + 1).last() == hs[i as int]);
        let name = req[i].0.as_str();
        let is_field = has_ce_prefix(name) && !text_eq(name, "ce-specversion");
        if is_field {
            match header_value_to_str(req[i].1.as_slice()) {
                Ok(text) => {
                    let short = skip_prefix(name);
                    let kind = if contains_text(names, short.as_str()) {
                        FieldKind::Attribute
                    } else {
                        FieldKind::Extension
                    };
                    fields.push(MessageField { kind, name: short, value: text });
                    assert(fields@.map_values(|f: MessageField| f.view()) =~= before.push(
                        (kind, hs[i as int].0.skip(3), hs[i as int].1.map_values(|b: u8| b as char)),
                    ));
                },
                Err(_) => {
                    proof {
                        lemma_header_fields_stay_stopped(hs, ns, i + 1);
                    }
                    return (fields, true);
                },
            }
        }
        i = i + 1;
    }
    assert(hs.take(i as int) =~= hs);
    (fields, false)
}

impl CERequestDeserializer {
    /// The request headers, as plain values.
    pub closed spec fn header_views(&self) -> Seq<HeaderView> {
        headers_view(self.req@)
    }

    /// The request body.
    pub closed spec fn body_view(&self) -> Seq<u8> {
        self.body@
    }
}

/// A request whose headers and body are read as a CloudEvent.
pub struct CERequestDeserializer {
    req: Vec<(String, Vec<u8>)>,
    body: Vec<u8>,
}

impl CERequestDeserializer {
    /// Wraps the headers and body of a request.
    pub fn new(req: Vec<(String, Vec<u8>)>, body: Vec<u8>) -> (r: CERequestDeserializer)
        ensures
            r.header_views() == headers_view(req@),
            r.body_view() == body@,
    {
        CERequestDeserializer { req, body }
    }

    /// The encoding of the request.
    pub fn encoding(&self) -> (e: Encoding)
        ensures
            e == spec_encoding(self.header_views()),
    {
        proof {
            reveal_strlit("");
            assert(""@ =~= Seq::<char>::empty());
        }
        let content_type = match find_header(&self.req, "content-type") {
            Some(i) => match header_value_to_str(self.req[i].1.as_slice()) {
                Ok(t) => t,
                Err(_) => "".to_owned(),
            },
            None => "".to_owned(),
        };
        assert(content_type@ == content_type_text(self.header_views()));
        if text_eq(content_type.as_str(), "application/cloudevents+json") {
            Encoding::STRUCTURED
        } else if find_header(&self.req, "ce-specversion").is_some() {
            Encoding::BINARY
        } else {
            Encoding::UNKNOWN
        }
    }

    /// Reads a binary-mode message: the specification version from
    /// `ce-specversion`, each other `ce-` header as an attribute of that version
    /// or as an extension, the content type as `datacontenttype`, and a
    /// non-empty body as the data.
    pub fn deserialize_binary(self) -> (r: Result<BinaryMessage, MessageError>)
        ensures
            decoded_binary(self.header_views(), self.body_view(), r),
    {
        if self.encoding() != Encoding::BINARY {
            return Err(MessageError::WrongEncoding);
        }
        let i = match find_header(&self.req, "ce-specversion") {
            Some(i) => i,
            None => {
                return Err(MessageError::WrongEncoding);
            },
        };
        let text = match header_value_to_str(self.req[i].1.as_slice()) {
            Ok(t) => t,
            Err(e) => {
                return Err(e);
            },
        };
        let spec_version = match SpecVersion::try_from_str(text.as_str()) {
            Ok(v) => v,
            Err(e) => {
                return Err(e);
            },
        };
        let names = spec_version.attribute_names();
        let (mut fields, stopped) = read_header_fields(&self.req, &names);
        if stopped {
            return Ok(
                BinaryMessage {
                    spec_version,
                    fields,
                    failure: Some(MessageError::HeaderValueNotText),
                    data: None,
                },
            );
        }
        match find_header(&self.req, "content-type") {
            Some(j) => match header_value_to_str(self.req[j].1.as_slice()) {
                Ok(t) => {
                    let ghost before = fields@.map_values(|f: MessageField| f.view());
                    fields.push(
                        MessageField {
                            kind: FieldKind::Attribute,
                            name: "datacontenttype".to_owned(),
                            value: t,
                        },
                    );
                    assert(fields@.map_values(|f: MessageField| f.view()) =~= before.push(
                        fields@.last().view(),
                    ));
                },
                Err(e) => {
                    return Ok(BinaryMessage { spec_version, fields, failure: Some(e), data: None });
                },
            },
            None => {},
        }
        let data = if self.body.len() != 0 {
            Some(self.body)
        } else {
            None
        };
        Ok(BinaryMessage { spec_version, fields, failure: None, data })
    }

    /// Reads a structured-mode message: its body, which holds the event as JSON.
    pub fn deserialize_structured(self) -> (r: Result<Vec<u8>, MessageError>)
        ensures
            spec_encoding(self.header_views()) == Encoding::STRUCTURED ==> (r matches Ok(b)
                && b@ == self.body_view()),
            spec_encoding(self.header_views()) != Encoding::STRUCTURED ==> r == Err::<
                Vec<u8>,
                MessageError,
            >(MessageError::WrongEncoding),
    {
        if self.encoding() != Encoding::STRUCTURED {
            return Err(MessageError::WrongEncoding);
        }
        Ok(self.body)
    }
}

/// What reading a request as a CloudEvent message gives, by its encoding.
pub open spec fn request_outcome(
    hs: Seq<HeaderView>,
    body: Seq<u8>,
    r: Result<Message, MessageError>,
) -> bool {
    &&& spec_encoding(hs) == Encoding::BINARY ==> match r {
        Ok(msg) => msg matches Message::Binary(m) && decoded_binary(hs, body, Ok(m)),
        Err(e) => decoded_binary(hs, body, Err(e)),
    }
    &&& spec_encoding(hs) == Encoding::STRUCTURED ==> (r matches Ok(Message::Structured(b))
        && b@ == body)
    &&& spec_encoding(hs) == Encoding::UNKNOWN ==> r == Err::<Message, MessageError>(
        MessageError::WrongEncoding,
    )
}

/// Reads a request as a CloudEvent message, by its encoding: binary and
/// structured messages are read as such; any other request is refused.
pub fn request_to_event(req: Vec<(String, Vec<u8>)>, bytes: Vec<u8>) -> (r: Result<
    Message,
    MessageError,
>)
    ensures
        request_outcome(headers_view(req@), bytes@, r),
{
    let deserializer = CERequestDeserializer::new(req, bytes);
    match deserializer.encoding() {
        Encoding::BINARY => match deserializer.deserialize_binary() {
            Ok(m) => Ok(Message::Binary(m)),
            Err(e) => Err(e),
        },
        Encoding::STRUCTURED => match deserializer.deserialize_structured() {
            Ok(b) => Ok(Message::Structured(b)),
            Err(e) => Err(e),
        },
        Encoding::UNKNOWN => Err(MessageError::WrongEncoding),
    }
}

} // verus!
