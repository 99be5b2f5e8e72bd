use vstd::prelude::*;

use crate::error::MessageError;
use crate::headers::{
    ce_prefix, check_header_value, cloudevents_json, content_type_header, header_name,
    lemma_ce_word_header, lemma_content_type_header, normalize_header_name, spec_version_header,
    text_eq, valid_header_name, valid_header_value,
};
use crate::response_builder::{
    header_added, surely_held_headers, text_headers_view, BuilderView, HeaderText, HttpResponse,
    ResponseBuilder, ResponseView,
};
use crate::spec_version::{
    is_known_attribute, lemma_known_attribute_is_lower_word, spec_version_text, SpecVersion,
};

verus! {

/// The header that carries a context attribute: `content-type` for
/// `datacontenttype`, `ce-` and the name for any other.
pub open spec fn attribute_header(name: Seq<char>) -> Seq<char> {
    if name == "datacontenttype"@ {
        content_type_header()
    } else {
        ce_prefix() + name
    }
}

/// The header name asked for an extension: `ce-` and the name.
pub open spec fn extension_header(name: Seq<char>) -> Seq<char> {
    ce_prefix() + name
}

/// Whether every attribute value is a valid header value.
pub open spec fn attributes_valid(attributes: Seq<HeaderText>) -> bool {
    forall|i: int| 0 <= i < attributes.len() ==> valid_header_value(#[trigger] attributes[i].1)
}

/// The error of the first extension that cannot be a header, if any: its
/// name is checked before its value.
pub open spec fn extension_error(extensions: Seq<HeaderText>) -> Option<MessageError>
    decreases extensions.len(),
{
    if extensions.len() == 0 {
        None
    } else if !valid_header_name(extension_header(extensions[0].0)) {
        Some(MessageError::InvalidHeaderName)
    } else if !valid_header_value(extensions[0].1) {
        Some(MessageError::InvalidHeaderValue)
    } else {
        extension_error(extensions.drop_first())
    }
}

/// The headers of a binary-mode response: the specification version, each
/// attribute, then each extension under its normalized header name.
pub open spec fn binary_headers(
    spec_version: SpecVersion,
    attributes: Seq<HeaderText>,
    extensions: Seq<HeaderText>,
) -> Seq<HeaderText> {
    seq![(spec_version_header(), spec_version_text(spec_version))] + attributes.map_values(
        |a: HeaderText| (attribute_header(a.0), a.1),
    ) + extensions.map_values(|e: HeaderText| (normalize_header_name(extension_header(e.0)), e.1))
}

/// An event as the binary serializer receives it: the specification version,
/// each present context attribute with its text, each extension with its text,
/// and the data, if any.
#[derive(Debug, PartialEq, Eq)]
pub struct EventMessage {
    pub spec_version: SpecVersion,
    pub attributes: Vec<(String, String)>,
    pub extensions: Vec<(String, String)>,
    pub data: Option<Vec<u8>>,
}

/// An event as plain values.
pub type EventView = (SpecVersion, Seq<HeaderText>, Seq<HeaderText>, Option<Seq<u8>>);

impl View for EventMessage {
    type V = EventView;

    open spec fn view(&self) -> EventView {
        (
            self.spec_version,
            text_headers_view(self.attributes@),
            text_headers_view(self.extensions@),
            match self.data {
                Some(d) => Some(d@),
                None => None,
            },
        )
    }
}

/// Whether every attribute of an event is a context attribute name.
pub open spec fn attribute_names_known(event: EventView) -> bool {
    forall|i: int| 0 <= i < event.1.len() ==> is_known_attribute(#[trigger] event.1[i].0)
}

/// The response that an event becomes, or the error that stops it.
pub open spec fn spec_event_to_response(event: EventView) -> Result<ResponseView, MessageError> {
    if !attributes_valid(event.1) {
        Err(MessageError::InvalidHeaderValue)
    } else {
        match extension_error(event.2) {
            Some(e) => Err(e),
            None => Ok(
                (
                    200,
                    binary_headers(event.0, event.1, event.2),
                    match event.3 {
                        Some(d) => d,
                        None => Seq::empty(),
                    },
                ),
            ),
        }
    }
}

/// The header of a context attribute is a valid header name that
/// normalizing leaves as it is.
pub proof fn lemma_attribute_header(name: Seq<char>)
    requires
        is_known_attribute(name),
    ensures
        valid_header_name(attribute_header(name)),
        normalize_header_name(attribute_header(name)) == attribute_header(name),
{
    lemma_known_attribute_is_lower_word(name);
    lemma_content_type_header();
    lemma_ce_word_header(name);
}

/// The specification version header is a valid header name that normalizing
/// leaves as it is.
pub proof fn lemma_spec_version_header()
    ensures
        valid_header_name(spec_version_header()),
        normalize_header_name(spec_version_header()) == spec_version_header(),
{
    reveal_strlit("ce-specversion");
    reveal_strlit("specversion");
    assert(spec_version_header() =~= ce_prefix() + "specversion"@);
    assert("specversion"@ =~= seq!['s', 'p', 'e', 'c', 'v', 'e', 'r', 's', 'i', 'o', 'n']);
    lemma_ce_word_header("specversion"@);
}

/// Builds an HTTP response from what a CloudEvent hands a serializer.
pub struct CEResponseSerializer {
    builder: ResponseBuilder,
}

impl CEResponseSerializer {
    /// The builder of the response, as plain values.
    pub closed spec fn builder_view(&self) -> BuilderView {
        self.builder@
    }

    /// Continues a response that a builder started.
    pub fn from(builder: ResponseBuilder) -> (r: CEResponseSerializer)
        ensures
            r.builder_view() == builder@,
    {
        CEResponseSerializer { builder }
    }

    fn new() -> (r: Self)
        ensures
            r.builder_view() == (200u16, Seq::<HeaderText>::empty(), None::<MessageError>),
    {
        CEResponseSerializer { builder: ResponseBuilder::new() }
    }

    /// Sets the `ce-specversion` header.
    pub fn set_spec_version(self, spec_version: SpecVersion) -> (r: Result<Self, MessageError>)
        ensures
            r matches Ok(s) && header_added(
                self.builder_view(),
                spec_version_header(),
                spec_version_text(spec_version),
                s.builder_view(),
            ),
    {
        let value = spec_version.as_str();
        proof {
            reveal_strlit("0.3");
            reveal_strlit("1.0");
            assert(valid_header_value(value@));
        }
        match check_header_value(value.as_str()) {
            Ok(()) => {},
            Err(e) => {
                return Err(e);
            },
        }
        Ok(CEResponseSerializer { builder: self.builder.header("ce-specversion", value.as_str()) })
    }

    /// Sets the header of a context attribute.
    pub fn set_attribute(self, name: &str, value: &str) -> (r: Result<Self, MessageError>)
        requires
            is_known_attribute(name@),
        ensures
            valid_header_value(value@) ==> (r matches Ok(s) && header_added(
                self.builder_view(),
                attribute_header(name@),
                value@,
                s.builder_view(),
            )),
            !valid_header_value(value@) ==> r == Err::<Self, MessageError>(
                MessageError::InvalidHeaderValue,
            ),
    {
        let header = if text_eq(name, "datacontenttype") {
            "content-type".to_owned()
        } else {
            proof {
                reveal_strlit("ce-");
                assert("ce-"@ =~= ce_prefix());
            }
            "ce-".to_owned().concat(name)
        };
        match check_header_value(value) {
            Ok(()) => Ok(CEResponseSerializer { builder: self.builder.header(header.as_str(), value) }),
            Err(e) => Err(e),
        }
    }

    /// Sets the header of an extension: `ce-` and its name, as a header name.
    pub fn set_extension(self, name: &str, value: &str) -> (r: Result<Self, MessageError>)
        ensures
            !valid_header_name(extension_header(name@)) ==> r == Err::<Self, MessageError>(
                MessageError::InvalidHeaderName,
            ),
            valid_header_name(extension_header(name@)) && !valid_header_value(value@) ==> r
                == Err::<Self, MessageError>(MessageError::InvalidHeaderValue),
            valid_header_name(extension_header(name@)) && valid_header_value(value@) ==> (
            r matches Ok(s) && header_added(
                self.builder_view(),
                extension_header(name@),
                value@,
                s.builder_view(),
            )),
    {
        proof {
            reveal_strlit("ce-");
            assert("ce-"@ =~= ce_prefix());
        }
        let asked = "ce-".to_owned().concat(name);
        match header_name(asked.as_str()) {
            Ok(_) => {},
            Err(e) => {
                return Err(e);
            },
        }
        match check_header_value(value) {
            Ok(()) => Ok(CEResponseSerializer { builder: self.builder.header(asked.as_str(), value) }),
            Err(e) => Err(e),
        }
    }

    /// Ends the response with the data as its body: the error that the
    /// builder holds, if any.
    pub fn end_with_data(self, bytes: Vec<u8>) -> (r: Result<HttpResponse, MessageError>)
        ensures
            self.builder_view().2 matches Some(e) ==> r == Err::<HttpResponse, MessageError>(e),
            self.builder_view().2 is None ==> (r matches Ok(resp) && resp@ == (
                self.builder_view().0,
                self.builder_view().1,
                bytes@,
            )),
    {
        self.builder.body(bytes)
    }

    /// Ends the response with an empty body: the error that the builder
    /// holds, if any.
    pub fn end(self) -> (r: Result<HttpResponse, MessageError>)
        ensures
            self.builder_view().2 matches Some(e) ==> r == Err::<HttpResponse, MessageError>(e),
            self.builder_view().2 is None ==> (r matches Ok(resp) && resp@ == (
                self.builder_view().0,
                self.builder_view().1,
                Seq::<u8>::empty(),
            )),
    {
        let body: Vec<u8> = Vec::new();
        self.builder.body(body)
    }

    /// Ends a structured-mode response: the CloudEvents JSON content type, and
    /// the event as the body; or the error that the builder holds.
    pub fn set_structured_event(self, bytes: Vec<u8>) -> (r: Result<HttpResponse, MessageError>)
        ensures
            exists|b: BuilderView|
                #[trigger] header_added(
                    self.builder_view(),
                    content_type_header(),
                    cloudevents_json(),
                    b,
                ) && match b.2 {
                    Some(e) => r == Err::<HttpResponse, MessageError>(e),
                    None => r matches Ok(resp) && resp@ == (b.0, b.1, bytes@),
                },
    {
        let builder = self.builder.header("content-type", "application/cloudevents+json");
        let ghost b = builder@;
        let r = builder.body(bytes);
        assert(header_added(self.builder_view(), content_type_header(), cloudevents_json(), b));
        r
    }
}

/// Turns an event into a binary-mode HTTP response: the specification
/// version, the attributes and the extensions become headers, the data the
/// body. An event of more headers than http's header map surely holds may
/// instead end in `TooManyHeaders`.
pub fn event_to_response(event: EventMessage) -> (r: Result<HttpResponse, MessageError>)
    requires
        attribute_names_known(event@),
    ensures
        match spec_event_to_response(event@) {
            Ok(v) => (r matches Ok(resp) && resp@ == v) || (r == Err::<HttpResponse, MessageError>(
                MessageError::TooManyHeaders,
            ) && v.1.len() > surely_held_headers()),
            Err(e) => r == Err::<HttpResponse, MessageError>(e),
        },
{
    let ghost ev = event@;
    proof {
        lemma_spec_version_header();
        reveal_strlit("0.3");
        reveal_strlit("1.0");
        assert(valid_header_value(spec_version_text(ev.0)));
    }
    let mut serializer = match CEResponseSerializer::new().set_spec_version(event.spec_version) {
        Ok(s) => s,
        Err(e) => {
            return Err(e);
        },
    };
    let ghost start = seq![(spec_version_header(), spec_version_text(ev.0))];
    assert(Seq::<HeaderText>::empty().push(
        (normalize_header_name(spec_version_header()), spec_version_text(ev.0)),
    ) =~= start);
    assert(serializer.builder_view() == (200u16, start, None::<MessageError>));
    let ghost attrs = ev.1;
    let ghost exts = ev.2;
    let mut i: usize = 0;
    while i < event.attributes.len()
        invariant
            0 <= i <= event.attributes@.len(),
            ev == event@,
            attrs == ev.1,
            attribute_names_known(ev),
            start == seq![(spec_version_header(), spec_version_text(ev.0))],
            forall|j: int| 0 <= j < i ==> valid_header_value(#[trigger] attrs[j].1),
            serializer.builder_view().0 == 200,
            serializer.builder_view().2 is None ==> serializer.builder_view().1 == start
                + attrs.take(i as int).map_values(|a: HeaderText| (attribute_header(a.0), a.1)),
            serializer.builder_view().2 is Some ==> serializer.builder_view().2 == Some(
                MessageError::TooManyHeaders,
            ) && 1 + i > surely_held_headers(),
        decreases event.attributes@.len() - i,
    {
        let name = event.attributes[i].0.as_str();
        let value = event.attributes[i].1.as_str();
        assert(attrs[i as int] == (name@, value@));
        assert(is_known_attribute(attrs[i as int].0));
        proof {
            lemma_attribute_header(name@);
        }
        let ghost before = serializer.builder_view();
        serializer = match serializer.set_attribute(name, value) {
            Ok(s) => s,
            Err(e) => {
                assert(!valid_header_value(value@));
                assert(!valid_header_value(attrs[i as int].1));
                assert(!attributes_valid(attrs));
                return Err(e);
            },
        };
        assert(attrs.take(i + 1).map_values(|a: HeaderText| (attribute_header(a.0), a.1))
            =~= attrs.take(i as int).map_values(|a: HeaderText| (attribute_header(a.0), a.1)).push(
            (attribute_header(name@), value@),
        ));
        i = i + 1;
    }
    assert(attrs.take(i as int) =~= attrs);
    let ghost after_attributes = start + attrs.map_values(
        |a: HeaderText| (attribute_header(a.0), a.1),
    );
    assert(extension_error(exts) == extension_error(exts.skip(0))) by {
        assert(exts.skip(0) =~= exts);
    }
    let mut k: usize = 0;
    while k < event.extensions.len()
        invariant
            0 <= k <= event.extensions@.len(),
            ev == event@,
            exts == ev.2,
            attributes_valid(ev.1),
            after_attributes.len() == 1 + ev.1.len(),
            extension_error(exts) == extension_error(exts.skip(k as int)),
            serializer.builder_view().0 == 200,
            serializer.builder_view().2 is None ==> serializer.builder_view().1 == after_attributes
                + exts.take(k as int).map_values(
                |e: HeaderText| (normalize_header_name(extension_header(e.0)), e.1),
            ),
            serializer.builder_view().2 is Some ==> serializer.builder_view().2 == Some(
                MessageError::TooManyHeaders,
            ) && after_attributes.len() + k > surely_held_headers(),
        decreases event.extensions@.len() - k,
    {
        let name = event.extensions[k].0.as_str();
        let value = event.extensions[k].1.as_str();
        assert(exts[k as int] == (name@, value@));
        assert(exts.skip(k as int)[0] == exts[k as int]);
        assert(exts.skip(k as int).drop_first() =~= exts.skip(k + 1));
        serializer = match serializer.set_extension(name, value) {
            Ok(s) => s,
            Err(e) => {
                return Err(e);
            },
        };
        assert(exts.take(k + 1).map_values(
            |e: HeaderText| (normalize_header_name(extension_header(e.0)), e.1),
        ) =~= exts.take(k as int).map_values(
            |e: HeaderText| (normalize_header_name(extension_header(e.0)), e.1),
        ).push((normalize_header_name(extension_header(name@)), value@)));
        k = k + 1;
    }
    assert(exts.take(k as int) =~= exts);
    assert(exts.skip(k as int).len() == 0);
    assert(serializer.builder_view().2 is None ==> serializer.builder_view().1 =~= binary_headers(
        ev.0,
        ev.1,
        ev.2,
    ));
    assert(binary_headers(ev.0, ev.1, ev.2).len() == after_attributes.len() + exts.len());
    match event.data {
        Some(bytes) => serializer.end_with_data(bytes),
        None => serializer.end(),
    }
}

} // verus!
