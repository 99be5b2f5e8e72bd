use vstd::prelude::*;
use vstd::utf8::*;

use crate::headers::{
    ce_prefix, cloudevents_json, content_type_header, header_name_char, header_value_text,
    is_visible_ascii, normalize_header_name, spec_version_header, valid_header_name,
    valid_header_value,
};
use crate::server_request::{
    decoded_binary, field_kind, header_fields, header_lookup, is_field_header, message_fields,
    request_outcome, spec_encoding, Encoding, FieldKind, FieldView, HeaderView, Message,
};
use crate::error::MessageError;
use crate::response_builder::{HeaderText, ResponseView};
use crate::server_response::{
    attribute_header, attributes_valid, binary_headers, extension_error, extension_header,
    spec_event_to_response, EventView,
};
use crate::spec_version::{spec_attribute_names, spec_version_of, spec_version_text};

verus! {

broadcast use vstd::utf8::group_utf8_lib;

/// A visible ASCII character or a tab.
pub open spec fn is_visible_char(c: char) -> bool {
    c == '\t' || (' ' <= c && c <= '~')
}

/// A text of visible ASCII characters and tabs: what http turns back into text.
pub open spec fn is_visible_text(t: Seq<char>) -> bool {
    forall|i: int| 0 <= i < t.len() ==> is_visible_char(#[trigger] t[i])
}

/// The request headers that a response's headers become on the wire.
pub open spec fn request_headers(hs: Seq<HeaderText>) -> Seq<HeaderView> {
    hs.map_values(|h: HeaderText| (h.0, encode_utf8(h.1)))
}

/// The value of the first `datacontenttype` attribute, if any.
pub open spec fn content_type_attribute(attributes: Seq<HeaderText>) -> Option<Seq<char>>
    decreases attributes.len(),
{
    if attributes.len() == 0 {
        None
    } else if attributes[0].0 == "datacontenttype"@ {
        Some(attributes[0].1)
    } else {
        content_type_attribute(attributes.drop_first())
    }
}

/// The attributes other than `datacontenttype`, as fields.
pub open spec fn attribute_fields(attributes: Seq<HeaderText>) -> Seq<FieldView>
    decreases attributes.len(),
{
    if attributes.len() == 0 {
        Seq::empty()
    } else if attributes.last().0 == "datacontenttype"@ {
        attribute_fields(attributes.drop_last())
    } else {
        attribute_fields(attributes.drop_last()).push(
            (FieldKind::Attribute, attributes.last().0, attributes.last().1),
        )
    }
}

/// The extensions as fields, under their normalized names.
pub open spec fn extension_fields(extensions: Seq<HeaderText>) -> Seq<FieldView> {
    extensions.map_values(
        |e: HeaderText| (FieldKind::Extension, normalize_header_name(e.0), e.1),
    )
}

/// The fields that a binary response of an event reads back as: the
/// attributes, the extensions, then the content type.
pub open spec fn read_back_fields(event: EventView) -> Seq<FieldView> {
    attribute_fields(event.1) + extension_fields(event.2) + match content_type_attribute(
        event.1,
    ) {
        Some(t) => seq![(FieldKind::Attribute, "datacontenttype"@, t)],
        None => Seq::empty(),
    }
}

/// An attribute that reads back as itself: a name of the version other than
/// `specversion`, and a text of visible ASCII.
pub open spec fn attribute_reads_back(names: Seq<Seq<char>>, a: HeaderText) -> bool {
    names.contains(a.0) && a.0 != "specversion"@ && is_visible_text(a.1)
}

/// An extension that reads back as itself: a name that makes a valid header
/// and, normalized, names no attribute of the version, and a text of visible ASCII.
pub open spec fn extension_reads_back(names: Seq<Seq<char>>, e: HeaderText) -> bool {
    valid_header_name(extension_header(e.0)) && is_visible_text(e.1) && !names.contains(
        normalize_header_name(e.0),
    )
}

/// An event whose binary response reads back as the same event: attributes
/// and extensions that read back as themselves, and a content type other than
/// the structured-mode one.
pub open spec fn reads_back(event: EventView) -> bool {
    let names = spec_attribute_names(event.0);
    &&& forall|i: int|
        0 <= i < event.1.len() ==> #[trigger] attribute_reads_back(names, event.1[i])
    &&& content_type_attribute(event.1) matches Some(t) ==> t != cloudevents_json()
    &&& forall|k: int|
        0 <= k < event.2.len() ==> #[trigger] extension_reads_back(names, event.2[k])
}

/// The fields that the headers carry when none of them stops the reading.
pub open spec fn text_fields(hs: Seq<HeaderView>, attribute_names: Seq<Seq<char>>) -> Seq<
    FieldView,
>
    decreases hs.len(),
{
    if hs.len() == 0 {
        Seq::empty()
    } else if !is_field_header(hs.last().0) {
        text_fields(hs.drop_last(), attribute_names)
    } else {
        let t = header_value_text(hs.last().1)->0;
        text_fields(hs.drop_last(), attribute_names).push(
            (field_kind(hs.last().0.skip(3), attribute_names), hs.last().0.skip(3), t),
        )
    }
}

proof fn lemma_visible_text_bytes(t: Seq<char>)
    requires
        is_visible_text(t),
    ensures
        header_value_text(encode_utf8(t)) == Some(t),
        valid_header_value(t),
{
    assert(is_ascii_chars(t)) by {
        assert forall|i: int| 0 <= i < t.len() implies '\0' <= #[trigger] t[i] <= '\u{7f}' by {
            assert(is_visible_char(t[i]));
        }
    }
    is_ascii_chars_encode_utf8(t);
    let b = encode_utf8(t);
    assert forall|i: int| 0 <= i < b.len() implies is_visible_ascii(#[trigger] b[i]) by {
        assert(t[i] as u8 == b[i]);
        assert(is_visible_char(t[i]));
    }
    let back = b.map_values(|x: u8| x as char);
    assert(back =~= t) by {
        assert forall|i: int| 0 <= i < t.len() implies #[trigger] back[i] == t[i] by {
            assert(t[i] as u8 == b[i]);
            let c = t[i];
            assert(is_visible_char(c));
            assert((c as u8) as char == c);
        }
    }
}

/// Reading headers none of which stops the reading gives their text fields.
proof fn lemma_fields_all_text(hs: Seq<HeaderView>, attribute_names: Seq<Seq<char>>)
    requires
        forall|i: int|
            0 <= i < hs.len() ==> (#[trigger] header_value_text(hs[i].1)) is Some,
    ensures
        header_fields(hs, attribute_names) == (text_fields(hs, attribute_names), false),
    decreases hs.len(),
{
    if hs.len() > 0 {
        let p = hs.drop_last();
        assert forall|i: int| 0 <= i < p.len() implies (#[trigger] header_value_text(
            p[i].1,
        )) is Some by {
            assert(p[i] == hs[i]);
        }
        lemma_fields_all_text(p, attribute_names);
        assert(header_value_text(hs[hs.len() - 1].1) is Some);
    }
}

/// The text fields of two runs of headers are those of each, in order.
proof fn lemma_text_fields_concat(
    a: Seq<HeaderView>,
    b: Seq<HeaderView>,
    attribute_names: Seq<Seq<char>>,
)
    ensures
        text_fields(a + b, attribute_names) == text_fields(a, attribute_names) + text_fields(
            b,
            attribute_names,
        ),
    decreases b.len(),
{
    if b.len() == 0 {
        assert(a + b =~= a);
        assert(text_fields(a, attribute_names) + text_fields(b, attribute_names) =~= text_fields(
            a,
            attribute_names,
        ));
    } else {
        assert((a + b).drop_last() =~= a + b.drop_last());
        assert((a + b).last() == b.last());
        lemma_text_fields_concat(a, b.drop_last(), attribute_names);
        let ta = text_fields(a, attribute_names);
        let tb = text_fields(b.drop_last(), attribute_names);
        if is_field_header(b.last().0) {
            let f = (
                field_kind(b.last().0.skip(3), attribute_names),
                b.last().0.skip(3),
                header_value_text(b.last().1)->0,
            );
            assert((ta + tb).push(f) =~= ta + tb.push(f));
        }
    }
}

/// The first header of a name in two runs of headers is that of the first
/// run, if it has one, else that of the second.
proof fn lemma_lookup_concat(a: Seq<HeaderView>, b: Seq<HeaderView>, name: Seq<char>)
    ensures
        header_lookup(a + b, name) == match header_lookup(a, name) {
            Some(v) => Some(v),
            None => header_lookup(b, name),
        },
    decreases a.len(),
{
    if a.len() == 0 {
        assert(a + b =~= b);
    } else {
        assert((a + b)[0] == a[0]);
        assert((a + b).drop_first() =~= a.drop_first() + b);
        lemma_lookup_concat(a.drop_first(), b, name);
    }
}

/// Facts about the header names that the binding uses.
proof fn lemma_header_names()
    ensures
        spec_version_header() == ce_prefix() + "specversion"@,
        content_type_header().len() >= 3,
        content_type_header().take(3) != ce_prefix(),
        content_type_header()[1] != ce_prefix()[1],
        !is_field_header(content_type_header()),
        !is_field_header(spec_version_header()),
        spec_version_header() != content_type_header(),
        cloudevents_json().len() > 0,
{
    reveal_strlit("ce-specversion");
    reveal_strlit("specversion");
    reveal_strlit("content-type");
    reveal_strlit("application/cloudevents+json");
    assert(spec_version_header() =~= ce_prefix() + "specversion"@);
    assert(content_type_header().take(3)[1] == 'o');
    assert(spec_version_header()[1] == 'e');
}

/// `ce-` and a name: a field header unless the name is `specversion`; the
/// name is what follows the prefix; no such name is `content-type`.
proof fn lemma_ce_name(y: Seq<char>)
    ensures
        (ce_prefix() + y).len() >= 3,
        (ce_prefix() + y).take(3) == ce_prefix(),
        (ce_prefix() + y).skip(3) == y,
        is_field_header(ce_prefix() + y) <==> y != "specversion"@,
        ce_prefix() + y != content_type_header(),
{
    lemma_header_names();
    let x = ce_prefix() + y;
    assert(x.take(3) =~= ce_prefix());
    assert(x.skip(3) =~= y);
    if x == spec_version_header() {
        assert(x.skip(3) == (ce_prefix() + "specversion"@).skip(3));
        assert((ce_prefix() + "specversion"@).skip(3) =~= "specversion"@);
    }
    if y == "specversion"@ {
        assert(x == spec_version_header());
    }
    assert(x[1] == ce_prefix()[1]);
}

/// Normalizing `ce-` and a name normalizes the name after the prefix.
proof fn lemma_normalize_ce(y: Seq<char>)
    ensures
        normalize_header_name(ce_prefix() + y) == ce_prefix() + normalize_header_name(y),
{
    let l = normalize_header_name(ce_prefix() + y);
    let r = ce_prefix() + normalize_header_name(y);
    assert(header_name_char('c') == Some('c'));
    assert(header_name_char('e') == Some('e'));
    assert(header_name_char('-') == Some('-'));
    assert forall|i: int| 0 <= i < l.len() implies #[trigger] l[i] == r[i] by {
        if i >= 3 {
            assert((ce_prefix() + y)[i] == y[i - 3]);
        }
    }
    assert(l =~= r);
}

/// The attribute headers of an event, as request headers.
pub open spec fn attribute_request_headers(attributes: Seq<HeaderText>) -> Seq<HeaderView> {
    request_headers(attributes.map_values(|a: HeaderText| (attribute_header(a.0), a.1)))
}

/// The extension headers of an event, as request headers.
pub open spec fn extension_request_headers(extensions: Seq<HeaderText>) -> Seq<HeaderView> {
    request_headers(
        extensions.map_values(|e: HeaderText| (normalize_header_name(extension_header(e.0)), e.1)),
    )
}

proof fn lemma_attribute_headers_read(attributes: Seq<HeaderText>, names: Seq<Seq<char>>)
    requires
        forall|i: int|
            0 <= i < attributes.len() ==> names.contains(#[trigger] attributes[i].0)
                && attributes[i].0 != "specversion"@ && is_visible_text(attributes[i].1),
    ensures
        text_fields(attribute_request_headers(attributes), names) == attribute_fields(attributes),
        header_lookup(attribute_request_headers(attributes), content_type_header()) == match
            content_type_attribute(attributes) {
            Some(t) => Some(encode_utf8(t)),
            None => None,
        },
        forall|i: int|
            0 <= i < attribute_request_headers(attributes).len() ==> (
            #[trigger] header_value_text(attribute_request_headers(attributes)[i].1)) is Some,
    decreases attributes.len(),
{
    let hs = attribute_request_headers(attributes);
    reveal_strlit("datacontenttype");
    lemma_header_names();
    assert forall|i: int| 0 <= i < hs.len() implies (#[trigger] header_value_text(
        hs[i].1,
    )) is Some by {
        lemma_visible_text_bytes(attributes[i].1);
    }
    if attributes.len() > 0 {
        let p = attributes.drop_last();
        assert forall|i: int| 0 <= i < p.len() implies names.contains(#[trigger] p[i].0)
            && p[i].0 != "specversion"@ && is_visible_text(p[i].1) by {
            assert(p[i] == attributes[i]);
        }
        lemma_attribute_headers_read(p, names);
        assert(hs.drop_last() =~= attribute_request_headers(p));
        let a = attributes.last();
        assert(names.contains(attributes[attributes.len() - 1].0));
        assert(is_visible_text(attributes[attributes.len() - 1].1));
        lemma_visible_text_bytes(a.1);
        if a.0 == "datacontenttype"@ {
            assert(!is_field_header(hs.last().0));
        } else {
            lemma_ce_name(a.0);
            assert(hs.last().0 == ce_prefix() + a.0);
            assert(field_kind(a.0, names) == FieldKind::Attribute);
        }
        let q = attributes.drop_first();
        assert forall|i: int| 0 <= i < q.len() implies names.contains(#[trigger] q[i].0)
            && q[i].0 != "specversion"@ && is_visible_text(q[i].1) by {
            assert(q[i] == attributes[i + 1]);
        }
        lemma_attribute_headers_read(q, names);
        assert(hs.drop_first() =~= attribute_request_headers(q));
        let f = attributes[0];
        if f.0 != "datacontenttype"@ {
            lemma_ce_name(f.0);
            assert(hs[0].0 == ce_prefix() + f.0);
        }
    }
}

proof fn lemma_extension_headers_read(extensions: Seq<HeaderText>, names: Seq<Seq<char>>)
    requires
        names.contains("specversion"@),
        forall|k: int|
            0 <= k < extensions.len() ==> valid_header_name(
                extension_header(#[trigger] extensions[k].0),
            ) && is_visible_text(extensions[k].1) && !names.contains(
                normalize_header_name(extensions[k].0),
            ),
    ensures
        text_fields(extension_request_headers(extensions), names) == extension_fields(extensions),
        header_lookup(extension_request_headers(extensions), content_type_header()) is None,
        forall|i: int|
            0 <= i < extension_request_headers(extensions).len() ==> (
            #[trigger] header_value_text(extension_request_headers(extensions)[i].1)) is Some,
        extension_error(extensions) is None,
    decreases extensions.len(),
{
    let hs = extension_request_headers(extensions);
    assert forall|i: int| 0 <= i < hs.len() implies (#[trigger] header_value_text(
        hs[i].1,
    )) is Some by {
        lemma_visible_text_bytes(extensions[i].1);
    }
    if extensions.len() > 0 {
        let p = extensions.drop_last();
        assert forall|k: int| 0 <= k < p.len() implies valid_header_name(
            extension_header(#[trigger] p[k].0),
        ) && is_visible_text(p[k].1) && !names.contains(normalize_header_name(p[k].0)) by {
            assert(p[k] == extensions[k]);
        }
        lemma_extension_headers_read(p, names);
        assert(hs.drop_last() =~= extension_request_headers(p));
        assert(extension_fields(extensions).drop_last() =~= extension_fields(p));
        let e = extensions.last();
        assert(valid_header_name(extension_header(extensions[extensions.len() - 1].0)));
        assert(is_visible_text(extensions[extensions.len() - 1].1));
        lemma_visible_text_bytes(e.1);
        lemma_normalize_ce(e.0);
        let n = normalize_header_name(e.0);
        lemma_ce_name(n);
        assert(hs.last().0 == ce_prefix() + n);
        assert(n != "specversion"@);
        assert(field_kind(n, names) == FieldKind::Extension);
        let q = extensions.drop_first();
        assert forall|k: int| 0 <= k < q.len() implies valid_header_name(
            extension_header(#[trigger] q[k].0),
        ) && is_visible_text(q[k].1) && !names.contains(normalize_header_name(q[k].0)) by {
            assert(q[k] == extensions[k + 1]);
        }
        lemma_extension_headers_read(q, names);
        assert(hs.drop_first() =~= extension_request_headers(q));
        let f = extensions[0];
        assert(valid_header_name(extension_header(extensions[0].0)));
        assert(is_visible_text(extensions[0].1));
        lemma_visible_text_bytes(f.1);
        lemma_normalize_ce(f.0);
        lemma_ce_name(normalize_header_name(f.0));
    }
}

/// A binary response reads back as the event it was made of.
///
/// When an event's attributes belong to its version, its texts are visible
/// ASCII, its content type is not the structured-mode one and its extension
/// names make valid headers that name no attribute, then the event becomes a
/// response, and reading that response's headers and body as a request gives
/// a binary message of the same version, with the attributes, then the
/// extensions under their header names, then the content type, with no
/// failure, and with the data when it is not empty.
pub proof fn lemma_binary_response_reads_back(event: EventView)
    requires
        reads_back(event),
    ensures
        spec_event_to_response(event) matches Ok(resp) && forall|
            r: Result<Message, MessageError>,
        |
            #[trigger] request_outcome(request_headers(resp.1), resp.2, r) ==> (r matches Ok(
                Message::Binary(m),
            ) && m.spec_version == event.0 && m.field_views() == read_back_fields(event)
                && m.failure is None && match event.3 {
                Some(d) => if d.len() > 0 {
                    m.data matches Some(x) && x@ == d
                } else {
                    m.data is None
                },
                None => m.data is None,
            }),
{
    let v = event.0;
    let names = spec_attribute_names(v);
    let attrs = event.1;
    let exts = event.2;
    reveal_strlit("specversion");
    reveal_strlit("0.3");
    reveal_strlit("1.0");
    lemma_header_names();
    assert(names[0] == "specversion"@);
    assert(names.contains("specversion"@));
    assert forall|i: int| 0 <= i < attrs.len() implies names.contains(#[trigger] attrs[i].0)
        && attrs[i].0 != "specversion"@ && is_visible_text(attrs[i].1) by {
        assert(attribute_reads_back(names, event.1[i]));
    }
    assert forall|k: int| 0 <= k < exts.len() implies valid_header_name(
        extension_header(#[trigger] exts[k].0),
    ) && is_visible_text(exts[k].1) && !names.contains(normalize_header_name(exts[k].0)) by {
        assert(extension_reads_back(names, event.2[k]));
    }
    assert forall|i: int| 0 <= i < attrs.len() implies valid_header_value(
        #[trigger] attrs[i].1,
    ) by {
        assert(attribute_reads_back(names, event.1[i]));
        lemma_visible_text_bytes(attrs[i].1);
    }
    assert(attributes_valid(attrs));
    lemma_attribute_headers_read(attrs, names);
    lemma_extension_headers_read(exts, names);
    let headers = binary_headers(v, attrs, exts);
    let sv = seq![(spec_version_header(), spec_version_text(v))];
    let rs = request_headers(sv);
    let ra = attribute_request_headers(attrs);
    let re = extension_request_headers(exts);
    let hs = request_headers(headers);
    assert(hs =~= rs + ra + re);
    let body = match event.3 {
        Some(d) => d,
        None => Seq::<u8>::empty(),
    };
    assert(spec_event_to_response(event) == Ok::<ResponseView, MessageError>((200, headers, body)));
    // the specification version header
    assert(is_visible_text(spec_version_text(v)));
    lemma_visible_text_bytes(spec_version_text(v));
    assert(rs[0] == (spec_version_header(), encode_utf8(spec_version_text(v))));
    assert(header_lookup(rs, spec_version_header()) == Some(encode_utf8(spec_version_text(v))));
    assert(rs.drop_first().len() == 0);
    assert(header_lookup(rs.drop_first(), content_type_header()) is None);
    assert(rs[0].0 != content_type_header());
    assert(header_lookup(rs, content_type_header()) is None);
    lemma_lookup_concat(rs + ra, re, spec_version_header());
    lemma_lookup_concat(rs, ra, spec_version_header());
    lemma_lookup_concat(rs + ra, re, content_type_header());
    lemma_lookup_concat(rs, ra, content_type_header());
    assert(header_lookup(hs, spec_version_header()) == Some(
        encode_utf8(spec_version_text(v)),
    ));
    // the content type and the encoding
    match content_type_attribute(attrs) {
        Some(t) => {
            assert(header_lookup(hs, content_type_header()) == Some(encode_utf8(t)));
            assert(is_visible_text(t)) by {
                assert forall|i: int| 0 <= i < attrs.len() implies is_visible_text(
                    #[trigger] attrs[i].1,
                ) by {
                    assert(attribute_reads_back(names, event.1[i]));
                }
                lemma_content_type_visible(attrs);
            }
            lemma_visible_text_bytes(t);
        },
        None => {
            assert(header_lookup(hs, content_type_header()) is None);
        },
    }
    assert(spec_encoding(hs) == Encoding::BINARY);
    // the fields
    assert forall|i: int| 0 <= i < hs.len() implies (#[trigger] header_value_text(
        hs[i].1,
    )) is Some by {
        if i == 0 {
        } else if i < 1 + ra.len() {
            assert(hs[i] == ra[i - 1]);
        } else {
            assert(hs[i] == re[i - 1 - ra.len()]);
        }
    }
    lemma_fields_all_text(hs, names);
    lemma_text_fields_concat(rs + ra, re, names);
    lemma_text_fields_concat(rs, ra, names);
    assert(rs.drop_last().len() == 0);
    assert(text_fields(rs.drop_last(), names) == Seq::<FieldView>::empty());
    assert(!is_field_header(rs.last().0));
    assert(text_fields(rs, names) =~= Seq::<FieldView>::empty());
    assert(text_fields(hs, names) =~= attribute_fields(attrs) + extension_fields(exts));
    assert(spec_version_of(spec_version_text(v)) == Some(v));
    let (fields, stopped) = message_fields(hs, names);
    assert(!stopped);
    assert(fields =~= read_back_fields(event));
    assert forall|r: Result<Message, MessageError>|
        #[trigger] request_outcome(hs, body, r) implies (r matches Ok(Message::Binary(m))
            && m.spec_version == event.0 && m.field_views() == read_back_fields(event)
            && m.failure is None && match event.3 {
            Some(d) => if d.len() > 0 {
                m.data matches Some(x) && x@ == d
            } else {
                m.data is None
            },
            None => m.data is None,
        }) by {
        assert(decoded_binary(hs, body, match r {
            Ok(Message::Binary(m)) => Ok(m),
            Ok(_) => Err(MessageError::WrongEncoding),
            Err(e) => Err(e),
        }));
    }
}

/// The content type attribute of attributes whose texts are visible is visible.
proof fn lemma_content_type_visible(attributes: Seq<HeaderText>)
    requires
        forall|i: int| 0 <= i < attributes.len() ==> is_visible_text(#[trigger] attributes[i].1),
    ensures
        content_type_attribute(attributes) matches Some(t) ==> is_visible_text(t),
    decreases attributes.len(),
{
    if attributes.len() > 0 {
        let q = attributes.drop_first();
        assert forall|i: int| 0 <= i < q.len() implies is_visible_text(#[trigger] q[i].1) by {
            assert(q[i] == attributes[i + 1]);
        }
        lemma_content_type_visible(q);
        assert(is_visible_text(attributes[0].1));
    }
}

/// A structured response reads back as a structured message of the same body.
///
/// When the headers set before the structured event have no content type,
/// reading the response's headers and body as a request gives the body as a
/// structured-mode message.
pub proof fn lemma_structured_response_reads_back(prior: Seq<HeaderText>, body: Seq<u8>)
    requires
        header_lookup(request_headers(prior), content_type_header()) is None,
    ensures
        forall|r: Result<Message, MessageError>|
            #[trigger] request_outcome(
                request_headers(prior.push((content_type_header(), cloudevents_json()))),
                body,
                r,
            ) ==> (r matches Ok(Message::Structured(b)) && b@ == body),
{
    reveal_strlit("application/cloudevents+json");
    let t = cloudevents_json();
    assert(is_visible_text(t));
    lemma_visible_text_bytes(t);
    let last = seq![(content_type_header(), encode_utf8(t))];
    let hs = request_headers(prior.push((content_type_header(), t)));
    assert(hs =~= request_headers(prior) + last);
    lemma_lookup_concat(request_headers(prior), last, content_type_header());
    assert(header_lookup(last, content_type_header()) == Some(encode_utf8(t)));
    assert(header_lookup(hs, content_type_header()) == Some(encode_utf8(t)));
    assert(spec_encoding(hs) == Encoding::STRUCTURED);
}

} // verus!
