use vstd::prelude::*;

use crate::error::MessageError;

verus! {

/// A CloudEvents specification version.
#[derive(Debug, Clone, Copy, PartialEq, Eq, Structural)]
pub enum SpecVersion {
    /// CloudEvents 0.3
    V03,
    /// CloudEvents 1.0
    V10,
}

/// The text that names a specification version.
pub open spec fn spec_version_text(v: SpecVersion) -> Seq<char> {
    match v {
        SpecVersion::V03 => "0.3"@,
        SpecVersion::V10 => "1.0"@,
    }
}

/// The version that a text names, if any.
pub open spec fn spec_version_of(s: Seq<char>) -> Option<SpecVersion> {
    if s == "0.3"@ {
        Some(SpecVersion::V03)
    } else if s == "1.0"@ {
        Some(SpecVersion::V10)
    } else {
        None
    }
}

/// The context attribute names of a specification version, in the order
/// that the CloudEvents SDK lists them.
pub open spec fn spec_attribute_names(v: SpecVersion) -> Seq<Seq<char>> {
    match v {
        SpecVersion::V03 => seq![
            "specversion"@,
            "id"@,
            "type"@,
            "source"@,
            "datacontenttype"@,
            "schemaurl"@,
            "subject"@,
            "time"@,
        ],
        SpecVersion::V10 => seq![
            "specversion"@,
            "id"@,
            "type"@,
            "source"@,
            "datacontenttype"@,
            "dataschema"@,
            "subject"@,
            "time"@,
        ],
    }
}

/// A context attribute name of some specification version.
pub open spec fn is_known_attribute(name: Seq<char>) -> bool {
    spec_attribute_names(SpecVersion::V03).contains(name) || spec_attribute_names(
        SpecVersion::V10,
    ).contains(name)
}

/// A non-empty word of lower-case ASCII letters.
pub open spec fn is_lower_word(s: Seq<char>) -> bool {
    &&& 0 < s.len() <= 15
    &&& forall|i: int| 0 <= i < s.len() ==> 'a' <= #[trigger] s[i] <= 'z'
}

/// Every context attribute name is a short word of lower-case letters.
pub proof fn lemma_known_attribute_is_lower_word(name: Seq<char>)
    requires
        is_known_attribute(name),
    ensures
        is_lower_word(name),
{
    reveal_strlit("specversion");
    reveal_strlit("id");
    reveal_strlit("type");
    reveal_strlit("source");
    reveal_strlit("datacontenttype");
    reveal_strlit("schemaurl");
    reveal_strlit("dataschema");
    reveal_strlit("subject");
    reveal_strlit("time");
    assert("specversion"@ =~= seq!['s', 'p', 'e', 'c', 'v', 'e', 'r', 's', 'i', 'o', 'n']);
    assert("id"@ =~= seq!['i', 'd']);
    assert("type"@ =~= seq!['t', 'y', 'p', 'e']);
    assert("source"@ =~= seq!['s', 'o', 'u', 'r', 'c', 'e']);
    assert("datacontenttype"@ =~= seq![
        'd', 'a', 't', 'a', 'c', 'o', 'n', 't', 'e', 'n', 't', 't', 'y', 'p', 'e',
    ]);
    assert("schemaurl"@ =~= seq!['s', 'c', 'h', 'e', 'm', 'a', 'u', 'r', 'l']);
    assert("dataschema"@ =~= seq!['d', 'a', 't', 'a', 's', 'c', 'h', 'e', 'm', 'a']);
    assert("subject"@ =~= seq!['s', 'u', 'b', 'j', 'e', 'c', 't']);
    assert("time"@ =~= seq!['t', 'i', 'm', 'e']);
    let v03 = spec_attribute_names(SpecVersion::V03);
    let v10 = spec_attribute_names(SpecVersion::V10);
    assert forall|k: int| 0 <= k < v03.len() implies is_lower_word(#[trigger] v03[k]) by {
        assert(k == 0 || k == 1 || k == 2 || k == 3 || k == 4 || k == 5 || k == 6 || k == 7);
    }
    assert forall|k: int| 0 <= k < v10.len() implies is_lower_word(#[trigger] v10[k]) by {
        assert(k == 0 || k == 1 || k == 2 || k == 3 || k == 4 || k == 5 || k == 6 || k == 7);
    }
}

#[verifier::external_type_specification]
#[verifier::external_body]
pub struct ExUnknownSpecVersion(cloudevents::event::UnknownSpecVersion);

/// Calls the CloudEvents SDK's `SpecVersion::try_from(&str)`. Its source
/// accepts exactly "0.3" and "1.0"; the version is the one the text names.
#[verifier::external_body]
fn sdk_spec_version_try_from(s: &str) -> (r: Result<SpecVersion, cloudevents::event::UnknownSpecVersion>)
    ensures
        r is Ok <==> spec_version_of(s@) is Some,
        r matches Ok(v) ==> spec_version_of(s@) == Some(v),
{
    <cloudevents::event::SpecVersion as core::convert::TryFrom<&str>>::try_from(s).map(
        |v| match v {
            cloudevents::event::SpecVersion::V03 => SpecVersion::V03,
            cloudevents::event::SpecVersion::V10 => SpecVersion::V10,
        },
    )
}

/// Calls the CloudEvents SDK's `SpecVersion::as_str`. Its source gives
/// "0.3" and "1.0".
#[verifier::external_body]
fn sdk_spec_version_as_str(v: SpecVersion) -> (s: String)
    ensures
        s@ == spec_version_text(v),
{
    let sdk = match v {
        SpecVersion::V03 => cloudevents::event::SpecVersion::V03,
        SpecVersion::V10 => cloudevents::event::SpecVersion::V10,
    };
    sdk.as_str().to_string()
}

/// Calls the CloudEvents SDK's `SpecVersion::attribute_names`. Its source
/// lists the eight context attribute names of each version, in a fixed order.
#[verifier::external_body]
fn sdk_attribute_names(v: SpecVersion) -> (names: Vec<String>)
    ensures
        names@.map_values(|n: String| n@) == spec_attribute_names(v),
{
    let sdk = match v {
        SpecVersion::V03 => cloudevents::event::SpecVersion::V03,
        SpecVersion::V10 => cloudevents::event::SpecVersion::V10,
    };
    sdk.attribute_names().iter().map(|n| n.to_string()).collect()
}

impl SpecVersion {
    /// The version that a text names; an unknown text is reported with its value.
    pub fn try_from_str(s: &str) -> (r: Result<SpecVersion, MessageError>)
        ensures
            match spec_version_of(s@) {
                Some(v) => r == Ok::<SpecVersion, MessageError>(v),
                None => r matches Err(MessageError::UnknownSpecVersion { spec_version_value })
                    && spec_version_value@ == s@,
            },
    {
        match sdk_spec_version_try_from(s) {
            Ok(v) => Ok(v),
            Err(_) => Err(MessageError::UnknownSpecVersion { spec_version_value: s.to_owned() }),
        }
    }

    /// The text that names this version.
    pub fn as_str(&self) -> (s: String)
        ensures
            s@ == spec_version_text(*self),
    {
        sdk_spec_version_as_str(*self)
    }

    /// The context attribute names of this version.
    pub fn attribute_names(&self) -> (names: Vec<String>)
        ensures
            names@.map_values(|n: String| n@) == spec_attribute_names(*self),
    {
        sdk_attribute_names(*self)
    }
}

} // verus!
