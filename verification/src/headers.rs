use vstd::prelude::*;
use vstd::string::*;
use vstd::utf8::*;

use crate::error::MessageError;

verus! {

broadcast use vstd::utf8::group_utf8_lib;

/// The name of the header that carries the specification version.
pub open spec fn spec_version_header() -> Seq<char> {
    "ce-specversion"@
}

/// The name of the HTTP content type header.
pub open spec fn content_type_header() -> Seq<char> {
    "content-type"@
}

/// The content type that marks a structured-mode CloudEvent.
pub open spec fn cloudevents_json() -> Seq<char> {
    "application/cloudevents+json"@
}

/// The prefix of every binary-mode CloudEvent header.
pub open spec fn ce_prefix() -> Seq<char> {
    seq!['c', 'e', '-']
}

/// A byte that http accepts in a header value it turns into text
/// (visible ASCII or a horizontal tab).
pub open spec fn is_visible_ascii(b: u8) -> bool {
    (32 <= b && b < 127) || b == 9
}

/// The text of a header value: its bytes read as characters when all of them
/// are visible ASCII, and nothing otherwise.
pub open spec fn header_value_text(v: Seq<u8>) -> Option<Seq<char>> {
    if forall|i: int| 0 <= i < v.len() ==> is_visible_ascii(#[trigger] v[i]) {
        Some(v.map_values(|b: u8| b as char))
    } else {
        None
    }
}

/// A character that http accepts in a header value.
pub open spec fn is_header_value_char(c: char) -> bool {
    c == '\t' || (c as u32 >= 32 && c as u32 != 127)
}

/// A text that http accepts as a header value.
pub open spec fn valid_header_value(s: Seq<char>) -> bool {
    forall|i: int| 0 <= i < s.len() ==> is_header_value_char(#[trigger] s[i])
}

/// What http's header name table makes of a character: the lower-case form of a
/// letter, the character itself for the other token characters, and nothing for
/// any other character.
pub open spec fn header_name_char(c: char) -> Option<char> {
    if 'A' <= c && c <= 'Z' {
        Some(((c as u32) + 32) as char)
    } else if ('a' <= c && c <= 'z') || ('0' <= c && c <= '9') || c == '!' || c == '"' || c
        == '#' || c == '$' || c == '%' || c == '&' || c == '\'' || c == '*' || c == '+' || c
        == '-' || c == '.' || c == '^' || c == '_' || c == '`' || c == '|' || c == '~' {
        Some(c)
    } else {
        None
    }
}

/// A text that http accepts as a header name.
pub open spec fn valid_header_name(s: Seq<char>) -> bool {
    &&& 0 < s.len() <= 65535
    &&& forall|i: int| 0 <= i < s.len() ==> (#[trigger] header_name_char(s[i])) is Some
}

/// The header name that http makes of a valid text: its characters through the table.
pub open spec fn normalize_header_name(s: Seq<char>) -> Seq<char> {
    s.map_values(|c: char| header_name_char(c)->0)
}

#[verifier::external_type_specification]
#[verifier::external_body]
pub struct ExUtf8Error(core::str::Utf8Error);

#[verifier::external_type_specification]
#[verifier::external_body]
pub struct ExInvalidHeaderName(http::header::InvalidHeaderName);

#[verifier::external_type_specification]
#[verifier::external_body]
pub struct ExInvalidHeaderValue(http::header::InvalidHeaderValue);

/// Calls std's `str::from_utf8` and copies the text out. std documents that
/// it succeeds exactly on valid UTF-8 and that the text is the one those bytes encode.
#[verifier::external_body]
fn utf8_to_string(bytes: &[u8]) -> (r: Result<String, core::str::Utf8Error>)
    ensures
        r is Ok <==> valid_utf8(bytes@),
        r matches Ok(s) ==> encode_utf8(s@) == bytes@,
{
    core::str::from_utf8(bytes).map(|s| s.to_string())
}

/// Calls http's `HeaderName::from_str` and copies the name out. Its source
/// accepts a text of 1 to 65535 bytes whose every byte is a token character
/// of its table, and maps upper-case letters to lower case.
#[verifier::external_body]
fn header_name_from_str(s: &str) -> (r: Result<String, http::header::InvalidHeaderName>)
    ensures
        r is Ok <==> valid_header_name(s@),
        r matches Ok(n) ==> n@ == normalize_header_name(s@),
{
    <http::header::HeaderName as core::str::FromStr>::from_str(s).map(|n| n.as_str().to_string())
}

/// Calls http's `HeaderValue::from_str`. Its source accepts a text whose
/// every byte is a tab or at least 32 and not 127; the value keeps those bytes.
#[verifier::external_body]
fn header_value_from_str(s: &str) -> (r: Result<(), http::header::InvalidHeaderValue>)
    ensures
        r is Ok <==> valid_header_value(s@),
{
    http::header::HeaderValue::from_str(s).map(|_| ())
}

/// The text of a header value, as http's `HeaderValue::to_str` gives it:
/// the value's bytes as characters when all of them are visible ASCII.
pub fn header_value_to_str(value: &[u8]) -> (r: Result<String, MessageError>)
    ensures
        match header_value_text(value@) {
            Some(t) => r matches Ok(s) && s@ == t,
            None => r == Err::<String, MessageError>(MessageError::HeaderValueNotText),
        },
{
    let mut i: usize = 0;
    while i < value.len()
        invariant
            0 <= i <= value@.len(),
            forall|j: int| 0 <= j < i ==> is_visible_ascii(#[trigger] value@[j]),
        decreases value@.len() - i,
    {
        if !((32 <= value[i] && value[i] < 127) || value[i] == 9) {
            return Err(MessageError::HeaderValueNotText);
        }
        i = i + 1;
    }
    let ghost chars = value@.map_values(|b: u8| b as char);
    proof {
        assert(is_ascii_chars(chars));
        is_ascii_chars_encode_utf8(chars);
        assert(encode_utf8(chars) =~= value@);
        encode_utf8_valid_utf8(chars);
    }
    match utf8_to_string(value) {
        Ok(s) => {
            proof {
                encode_utf8_decode_utf8(s@);
                encode_utf8_decode_utf8(chars);
            }
            Ok(s)
        },
        Err(_) => Err(MessageError::HeaderValueNotText),
    }
}

/// Checks a text as a header value, as http's `HeaderValue::from_str` does.
pub fn check_header_value(s: &str) -> (r: Result<(), MessageError>)
    ensures
        r is Ok <==> valid_header_value(s@),
        r is Err ==> r == Err::<(), MessageError>(MessageError::InvalidHeaderValue),
{
    match header_value_from_str(s) {
        Ok(()) => Ok(()),
        Err(_) => Err(MessageError::InvalidHeaderValue),
    }
}

/// Turns a text into a header name, as http's `HeaderName::from_str` does.
pub fn header_name(s: &str) -> (r: Result<String, MessageError>)
    ensures
        r is Ok <==> valid_header_name(s@),
        r matches Ok(n) ==> n@ == normalize_header_name(s@),
        r is Err ==> r == Err::<String, MessageError>(MessageError::InvalidHeaderName),
{
    match header_name_from_str(s) {
        Ok(n) => Ok(n),
        Err(_) => Err(MessageError::InvalidHeaderName),
    }
}

/// A valid header name normalizes to a valid name that normalizing leaves as it is.
pub proof fn lemma_normalized_name(s: Seq<char>)
    requires
        valid_header_name(s),
    ensures
        valid_header_name(normalize_header_name(s)),
        normalize_header_name(normalize_header_name(s)) == normalize_header_name(s),
{
    let n = normalize_header_name(s);
    assert forall|i: int| 0 <= i < n.len() implies (#[trigger] header_name_char(n[i])) is Some
        && header_name_char(n[i])->0 == n[i] by {
        assert(header_name_char(s[i]) is Some);
    }
    assert(normalize_header_name(n) =~= n);
}

/// `ce-` and a short word of lower-case letters is a valid header name that
/// normalizing leaves as it is.
pub proof fn lemma_ce_word_header(word: Seq<char>)
    requires
        0 < word.len() <= 15,
        forall|i: int| 0 <= i < word.len() ==> 'a' <= #[trigger] word[i] <= 'z',
    ensures
        valid_header_name(ce_prefix() + word),
        normalize_header_name(ce_prefix() + word) == ce_prefix() + word,
{
    let n = ce_prefix() + word;
    assert forall|i: int| 0 <= i < n.len() implies (#[trigger] header_name_char(n[i])) is Some
        && header_name_char(n[i])->0 == n[i] by {
        if i >= 3 {
            assert(n[i] == word[i - 3]);
        }
    }
    assert(normalize_header_name(n) =~= n);
}

/// `content-type` is a valid header name that normalizing leaves as it is.
pub proof fn lemma_content_type_header()
    ensures
        valid_header_name(content_type_header()),
        normalize_header_name(content_type_header()) == content_type_header(),
{
    reveal_strlit("content-type");
    let n = content_type_header();
    assert(n =~= seq!['c', 'o', 'n', 't', 'e', 'n', 't', '-', 't', 'y', 'p', 'e']);
    assert forall|i: int| 0 <= i < n.len() implies (#[trigger] header_name_char(n[i])) is Some
        && header_name_char(n[i])->0 == n[i] by {
        assert(i == 0 || i == 1 || i == 2 || i == 3 || i == 4 || i == 5 || i == 6 || i == 7
            || i == 8 || i == 9 || i == 10 || i == 11);
    }
    assert(normalize_header_name(n) =~= n);
}

/// Whether two texts are equal.
pub fn text_eq(a: &str, b: &str) -> (r: bool)
    ensures
        r == (a@ == b@),
{
    let n = a.unicode_len();
    let m = b.unicode_len();
    if n != m {
        return false;
    }
    let mut i: usize = 0;
    while i < n
        invariant
            n == a@.len(),
            m == b@.len(),
            n == m,
            0 <= i <= n,
            forall|j: int| 0 <= j < i ==> a@[j] == b@[j],
        decreases n - i,
    {
        if a.get_char(i) != b.get_char(i) {
            return false;
        }
        i = i + 1;
    }
    proof {
        assert(a@ =~= b@);
    }
    true
}

/// Whether a text starts with `ce-`.
pub fn has_ce_prefix(s: &str) -> (r: bool)
    ensures
        r == (s@.len() >= 3 && s@.take(3) == ce_prefix()),
{
    let n = s.unicode_len();
    if n < 3 {
        return false;
    }
    let r = s.get_char(0) == 'c' && s.get_char(1) == 'e' && s.get_char(2) == '-';
    proof {
        if r {
            assert(s@.take(3) =~= ce_prefix());
        } else {
            assert(s@.take(3)[0] == s@[0] && s@.take(3)[1] == s@[1] && s@.take(3)[2] == s@[2]);
        }
    }
    r
}

/// The text after its first three characters.
pub fn skip_prefix(s: &str) -> (r: String)
    requires
        s@.len() >= 3,
    ensures
        r@ == s@.skip(3),
{
    let n = s.unicode_len();
    let rest = s.substring_char(3, n);
    proof {
        assert(s@.subrange(3, n as int) =~= s@.skip(3));
    }
    rest.to_owned()
}

/// Whether a list of texts holds a text.
pub fn contains_text(list: &Vec<String>, s: &str) -> (r: bool)
    ensures
        r == list@.map_values(|t: String| t@).contains(s@),
{
    let ghost views = list@.map_values(|t: String| t@);
    let mut i: usize = 0;
    while i < list.len()
        invariant
            0 <= i <= list@.len(),
            views == list@.map_values(|t: String| t@),
            forall|j: int| 0 <= j < i ==> views[j] != s@,
        decreases list@.len() - i,
    {
        if text_eq(list[i].as_str(), s) {
            assert(views[i as int] == s@);
            return true;
        }
        i = i + 1;
    }
    proof {
        if views.contains(s@) {
            let k = choose|k: int| 0 <= k < views.len() && views[k] == s@;
            assert(views[k] != s@);
        }
    }
    false
}

} // verus!
