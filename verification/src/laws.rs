use vstd::prelude::*;

use crate::error::MessageError;
use crate::headers::{header_value_text, valid_header_name, valid_header_value};
use crate::server_request::{
    content_type_text, header_lookup, spec_encoding, Encoding, HeaderView,
};
use crate::server_response::{extension_error, spec_event_to_response, EventView};
use crate::spec_version::{spec_attribute_names, SpecVersion};

verus! {

/// Position `i` holds the first header of the given name.
pub open spec fn is_first_named(hs: Seq<HeaderView>, name: Seq<char>, i: int) -> bool {
    &&& 0 <= i < hs.len()
    &&& hs[i].0 == name
    &&& forall|j: int| 0 <= j < i ==> (#[trigger] hs[j]).0 != name
}

/// Some header has the given name.
pub open spec fn has_header(hs: Seq<HeaderView>, name: Seq<char>) -> bool {
    exists|i: int| 0 <= i < hs.len() && (#[trigger] hs[i]).0 == name
}

/// The first `content-type` header holds, as text, the structured-mode type.
pub open spec fn first_content_type_is_cloudevents_json(hs: Seq<HeaderView>) -> bool {
    exists|i: int|
        #[trigger] is_first_named(hs, "content-type"@, i) && header_value_text(hs[i].1) == Some(
            "application/cloudevents+json"@,
        )
}

/// The first header of a name is the one at the first position that has it,
/// and there is none when no position has it.
proof fn lemma_lookup_finds_first(hs: Seq<HeaderView>, name: Seq<char>)
    ensures
        header_lookup(hs, name) is None <==> !has_header(hs, name),
        header_lookup(hs, name) matches Some(v) ==> exists|i: int|
            #[trigger] is_first_named(hs, name, i) && hs[i].1 == v,
        forall|i: int| #[trigger] is_first_named(hs, name, i) ==> header_lookup(hs, name) == Some(
            hs[i].1,
        ),
    decreases hs.len(),
{
    if hs.len() > 0 {
        let t = hs.drop_first();
        lemma_lookup_finds_first(t, name);
        if hs[0].0 == name {
            assert(is_first_named(hs, name, 0));
            assert(has_header(hs, name));
            assert forall|i: int| #[trigger] is_first_named(hs, name, i) implies header_lookup(
                hs,
                name,
            ) == Some(hs[i].1) by {
                if i > 0 {
                    assert(hs[0].0 != name);
                }
            }
        } else {
            if has_header(hs, name) {
                let i = choose|i: int| 0 <= i < hs.len() && (#[trigger] hs[i]).0 == name;
                assert(t[i - 1] == hs[i]);
                assert(has_header(t, name));
            }
            if has_header(t, name) {
                let i = choose|i: int| 0 <= i < t.len() && (#[trigger] t[i]).0 == name;
                assert(hs[i + 1] == t[i]);
                assert(has_header(hs, name));
            }
            if let Some(v) = header_lookup(hs, name) {
                let i = choose|i: int| #[trigger] is_first_named(t, name, i) && t[i].1 == v;
                assert forall|j: int| 0 <= j < i + 1 implies (#[trigger] hs[j]).0 != name by {
                    if j > 0 {
                        assert(hs[j] == t[j - 1]);
                    }
                }
                assert(is_first_named(hs, name, i + 1));
            }
            assert forall|i: int| #[trigger] is_first_named(hs, name, i) implies header_lookup(
                hs,
                name,
            ) == Some(hs[i].1) by {
                assert(i > 0);
                assert forall|j: int| 0 <= j < i - 1 implies (#[trigger] t[j]).0 != name by {
                    assert(t[j] == hs[j + 1]);
                }
                assert(is_first_named(t, name, i - 1));
            }
        }
    }
}

/// The encoding of a request depends only on its first `content-type` header
/// and on whether it has a `ce-specversion` header, wherever they stand among
/// the other headers: a request whose first content type is the structured
/// CloudEvents JSON type is structured; any other request with a
/// `ce-specversion` header is binary; every other request is unknown.
pub proof fn lemma_encoding_by_headers(hs: Seq<HeaderView>)
    ensures
        first_content_type_is_cloudevents_json(hs) ==> spec_encoding(hs) == Encoding::STRUCTURED,
        !first_content_type_is_cloudevents_json(hs) && has_header(hs, "ce-specversion"@)
            ==> spec_encoding(hs) == Encoding::BINARY,
        !first_content_type_is_cloudevents_json(hs) && !has_header(hs, "ce-specversion"@)
            ==> spec_encoding(hs) == Encoding::UNKNOWN,
{
    reveal_strlit("application/cloudevents+json");
    lemma_lookup_finds_first(hs, "content-type"@);
    lemma_lookup_finds_first(hs, "ce-specversion"@);
    if first_content_type_is_cloudevents_json(hs) {
        let i = choose|i: int|
            #[trigger] is_first_named(hs, "content-type"@, i) && header_value_text(hs[i].1)
                == Some("application/cloudevents+json"@);
        assert(header_lookup(hs, "content-type"@) == Some(hs[i].1));
    } else {
        match header_lookup(hs, "content-type"@) {
            Some(v) => {
                let i = choose|i: int|
                    #[trigger] is_first_named(hs, "content-type"@, i) && hs[i].1 == v;
                assert(header_value_text(hs[i].1) != Some("application/cloudevents+json"@));
                match header_value_text(v) {
                    Some(t) => {
                        assert(content_type_text(hs) == t);
                    },
                    None => {
                        assert(content_type_text(hs) == Seq::<char>::empty());
                        assert("application/cloudevents+json"@.len() > 0);
                    },
                }
            },
            None => {
                assert(content_type_text(hs) == Seq::<char>::empty());
                assert("application/cloudevents+json"@.len() > 0);
            },
        }
        assert(content_type_text(hs) != "application/cloudevents+json"@);
    }
}

/// The first extension that cannot be a header, checked in order, exists
/// exactly when some extension's header name or value is invalid.
proof fn lemma_extension_error_iff_invalid(extensions: Seq<(Seq<char>, Seq<char>)>)
    ensures
        extension_error(extensions) is None <==> forall|k: int|
            0 <= k < extensions.len() ==> valid_header_name(
                seq!['c', 'e', '-'] + (#[trigger] extensions[k]).0,
            ) && valid_header_value(extensions[k].1),
        extension_error(extensions) matches Some(e) ==> e == MessageError::InvalidHeaderName || e
            == MessageError::InvalidHeaderValue,
    decreases extensions.len(),
{
    if extensions.len() > 0 {
        let t = extensions.drop_first();
        lemma_extension_error_iff_invalid(t);
        if forall|k: int|
            0 <= k < extensions.len() ==> valid_header_name(
                seq!['c', 'e', '-'] + (#[trigger] extensions[k]).0,
            ) && valid_header_value(extensions[k].1) {
            assert(valid_header_name(seq!['c', 'e', '-'] + extensions[0].0));
            assert(valid_header_value(extensions[0].1));
            assert forall|k: int| 0 <= k < t.len() implies valid_header_name(
                seq!['c', 'e', '-'] + (#[trigger] t[k]).0,
            ) && valid_header_value(t[k].1) by {
                assert(t[k] == extensions[k + 1]);
            }
        }
        if extension_error(extensions) is None {
            assert forall|k: int| 0 <= k < extensions.len() implies valid_header_name(
                seq!['c', 'e', '-'] + (#[trigger] extensions[k]).0,
            ) && valid_header_value(extensions[k].1) by {
                if k > 0 {
                    assert(extensions[k] == t[k - 1]);
                }
            }
        }
    }
}

/// An event becomes a response exactly when every attribute value and every
/// extension value is a valid header value and every extension's `ce-` name
/// is a valid header name; otherwise it is refused for an invalid header name
/// or value.
pub proof fn lemma_event_response_iff_valid_headers(event: EventView)
    ensures
        spec_event_to_response(event) is Ok <==> (forall|i: int|
            0 <= i < event.1.len() ==> valid_header_value((#[trigger] event.1[i]).1)) && (forall|
            k: int,
        |
            0 <= k < event.2.len() ==> valid_header_name(
                seq!['c', 'e', '-'] + (#[trigger] event.2[k]).0,
            ) && valid_header_value(event.2[k].1)),
        spec_event_to_response(event) matches Err(e) ==> e == MessageError::InvalidHeaderName || e
            == MessageError::InvalidHeaderValue,
        spec_event_to_response(event) matches Ok(r) ==> r.0 == 200,
{
    lemma_extension_error_iff_invalid(event.2);
    if !(forall|i: int| 0 <= i < event.1.len() ==> valid_header_value((#[trigger] event.1[i]).1)) {
        let i = choose|i: int|
            0 <= i < event.1.len() && !valid_header_value((#[trigger] event.1[i]).1);
        assert(!valid_header_value(event.1[i].1));
    }
}

/// The two specification versions have the same eight context attributes in
/// the same order, but for the schema: `schemaurl` in 0.3 and `dataschema` in
/// 1.0; each has `specversion`, `id`, `type`, `source`, `datacontenttype`,
/// `subject` and `time`.
pub proof fn lemma_attribute_names_of_versions(v: SpecVersion)
    ensures
        spec_attribute_names(v).len() == 8,
        spec_attribute_names(v).contains("specversion"@),
        spec_attribute_names(v).contains("id"@),
        spec_attribute_names(v).contains("type"@),
        spec_attribute_names(v).contains("source"@),
        spec_attribute_names(v).contains("datacontenttype"@),
        spec_attribute_names(v).contains("subject"@),
        spec_attribute_names(v).contains("time"@),
        spec_attribute_names(v).contains("schemaurl"@) <==> v == SpecVersion::V03,
        spec_attribute_names(v).contains("dataschema"@) <==> v == SpecVersion::V10,
        forall|k: int|
            0 <= k < 8 && k != 5 ==> spec_attribute_names(SpecVersion::V03)[k]
                == #[trigger] spec_attribute_names(SpecVersion::V10)[k],
        spec_attribute_names(SpecVersion::V03)[5] == "schemaurl"@,
        spec_attribute_names(SpecVersion::V10)[5] == "dataschema"@,
{
    let n = spec_attribute_names(v);
    assert(n[0] == "specversion"@);
    assert(n[1] == "id"@);
    assert(n[2] == "type"@);
    assert(n[3] == "source"@);
    assert(n[4] == "datacontenttype"@);
    assert(n[6] == "subject"@);
    assert(n[7] == "time"@);
    reveal_strlit("specversion");
    reveal_strlit("id");
    reveal_strlit("type");
    reveal_strlit("source");
    reveal_strlit("datacontenttype");
    reveal_strlit("schemaurl");
    reveal_strlit("dataschema");
    reveal_strlit("subject");
    reveal_strlit("time");
    if v == SpecVersion::V03 {
        assert(n[5] == "schemaurl"@);
        assert forall|k: int| 0 <= k < n.len() implies n[k] != "dataschema"@ by {
            assert(k == 0 || k == 1 || k == 2 || k == 3 || k == 4 || k == 5 || k == 6 || k == 7);
            assert("dataschema"@[1] == 'a');
            assert("dataschema"@.len() == 10);
        }
    } else {
        assert(n[5] == "dataschema"@);
        assert forall|k: int| 0 <= k < n.len() implies n[k] != "schemaurl"@ by {
            assert(k == 0 || k == 1 || k == 2 || k == 3 || k == 4 || k == 5 || k == 6 || k == 7);
            assert("schemaurl"@[1] == 'c');
            assert("schemaurl"@.len() == 9);
        }
    }
}

} // verus!
