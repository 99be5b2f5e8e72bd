use cloudevents_sdk_warp::filter::{create_event, CEFilterError};
use cloudevents_sdk_warp::{
    request_to_event, BinaryMessage, CERequestDeserializer, Encoding, FieldKind, Message,
    MessageError, MessageField, SpecVersion,
};

fn h(name: &str, value: &str) -> (String, Vec<u8>) {
    (name.to_string(), value.as_bytes().to_vec())
}

fn attr(name: &str, value: &str) -> MessageField {
    MessageField {
        kind: FieldKind::Attribute,
        name: name.to_string(),
        value: value.to_string(),
    }
}

fn ext(name: &str, value: &str) -> MessageField {
    MessageField {
        kind: FieldKind::Extension,
        name: name.to_string(),
        value: value.to_string(),
    }
}

const TIME: &str = "2020-10-28T09:14:33.123456+00:00";

#[test]
fn test_request() {
    let expected = Message::Binary(BinaryMessage {
        spec_version: SpecVersion::V10,
        fields: vec![
            attr("id", "0001"),
            attr("type", "example.test"),
            attr("source", "http://localhost/"),
            ext("someint", "10"),
            attr("time", TIME),
        ],
        failure: None,
        data: None,
    });

    let headers = vec![
        h("ce-specversion", "1.0"),
        h("ce-id", "0001"),
        h("ce-type", "example.test"),
        h("ce-source", "http://localhost/"),
        h("ce-someint", "10"),
        h("ce-time", TIME),
    ];
    let result = create_event(headers, Vec::new()).unwrap();

    assert_eq!(expected, result);
}

#[test]
fn test_request_with_full_data() {
    let j = "{\"hello\":\"world\"}";

    let expected = Message::Binary(BinaryMessage {
        spec_version: SpecVersion::V10,
        fields: vec![
            attr("id", "0001"),
            attr("type", "example.test"),
            attr("source", "http://localhost"),
            ext("someint", "10"),
            attr("time", TIME),
            attr("datacontenttype", "application/json"),
        ],
        failure: None,
        data: Some(j.as_bytes().to_vec()),
    });

    let headers = vec![
        h("ce-specversion", "1.0"),
        h("ce-id", "0001"),
        h("ce-type", "example.test"),
        h("ce-source", "http://localhost"),
        h("ce-someint", "10"),
        h("ce-time", TIME),
        h("content-type", "application/json"),
    ];
    let result = create_event(headers, j.as_bytes().to_vec()).unwrap();

    assert_eq!(expected, result);
}

#[test]
fn encoding_of_requests() {
    let structured = CERequestDeserializer::new(
        vec![h("content-type", "application/cloudevents+json"), h("ce-specversion", "1.0")],
        Vec::new(),
    );
    assert_eq!(structured.encoding(), Encoding::STRUCTURED);
    let binary = CERequestDeserializer::new(
        vec![h("content-type", "application/json"), h("ce-specversion", "1.0")],
        Vec::new(),
    );
    assert_eq!(binary.encoding(), Encoding::BINARY);
    let unknown = CERequestDeserializer::new(vec![h("content-type", "text/plain")], Vec::new());
    assert_eq!(unknown.encoding(), Encoding::UNKNOWN);
    let not_text = CERequestDeserializer::new(
        vec![(
            "content-type".to_string(),
            vec![0xff],
        )],
        Vec::new(),
    );
    assert_eq!(not_text.encoding(), Encoding::UNKNOWN);
}

#[test]
fn structured_request_gives_its_body() {
    let body = b"{\"specversion\":\"1.0\"}".to_vec();
    let r = request_to_event(
        vec![h("content-type", "application/cloudevents+json")],
        body.clone(),
    );
    assert_eq!(r, Ok(Message::Structured(body)));
}

#[test]
fn unknown_request_is_refused() {
    let r = request_to_event(vec![h("ce-id", "1")], Vec::new());
    assert_eq!(r, Err(MessageError::WrongEncoding));
    let f = create_event(vec![h("ce-id", "1")], Vec::new());
    assert_eq!(f, Err(CEFilterError::new("Wrong encoding".to_string())));
    assert_eq!(f.unwrap_err().message(), "Wrong encoding");
}

#[test]
fn deserializers_check_the_encoding() {
    let d = CERequestDeserializer::new(vec![h("ce-specversion", "1.0")], b"x".to_vec());
    assert_eq!(d.deserialize_structured(), Err(MessageError::WrongEncoding));
    let d = CERequestDeserializer::new(
        vec![h("content-type", "application/cloudevents+json")],
        Vec::new(),
    );
    assert_eq!(d.deserialize_binary(), Err(MessageError::WrongEncoding));
}

#[test]
fn unknown_spec_version_is_reported_with_its_value() {
    let r = request_to_event(vec![h("ce-specversion", "2.0")], Vec::new());
    let e = r.unwrap_err();
    assert_eq!(
        e,
        MessageError::UnknownSpecVersion {
            spec_version_value: "2.0".to_string()
        }
    );
    assert_eq!(e.to_text(), "Invalid specversion 2.0");
    let f = create_event(vec![h("ce-specversion", "2.0")], Vec::new()).unwrap_err();
    assert_eq!(f.message(), "Invalid specversion 2.0");
}

#[test]
fn spec_version_that_is_not_text_is_refused() {
    let r = request_to_event(
        vec![("ce-specversion".to_string(), vec![b'1', 0x80])],
        Vec::new(),
    );
    assert_eq!(r, Err(MessageError::HeaderValueNotText));
}

#[test]
fn header_that_is_not_text_stops_the_fields() {
    let r = request_to_event(
        vec![
            h("ce-specversion", "0.3"),
            h("ce-id", "1"),
            ("ce-subject".to_string(), vec![0x01]),
            h("ce-type", "t"),
        ],
        b"data".to_vec(),
    );
    assert_eq!(
        r,
        Ok(Message::Binary(BinaryMessage {
            spec_version: SpecVersion::V03,
            fields: vec![attr("id", "1")],
            failure: Some(MessageError::HeaderValueNotText),
            data: None,
        }))
    );
}

#[test]
fn content_type_that_is_not_text_fails_after_the_fields() {
    let r = request_to_event(
        vec![
            h("ce-specversion", "1.0"),
            h("ce-id", "1"),
            ("content-type".to_string(), vec![0xc3, 0xa9]),
        ],
        Vec::new(),
    );
    assert_eq!(
        r,
        Ok(Message::Binary(BinaryMessage {
            spec_version: SpecVersion::V10,
            fields: vec![attr("id", "1")],
            failure: Some(MessageError::HeaderValueNotText),
            data: None,
        }))
    );
}

#[test]
fn attributes_are_those_of_the_version() {
    let v10 = request_to_event(
        vec![h("ce-specversion", "1.0"), h("ce-dataschema", "a"), h("ce-schemaurl", "b")],
        Vec::new(),
    );
    assert_eq!(
        v10,
        Ok(Message::Binary(BinaryMessage {
            spec_version: SpecVersion::V10,
            fields: vec![attr("dataschema", "a"), ext("schemaurl", "b")],
            failure: None,
            data: None,
        }))
    );
    let v03 = request_to_event(
        vec![h("ce-specversion", "0.3"), h("ce-dataschema", "a"), h("ce-schemaurl", "b")],
        Vec::new(),
    );
    assert_eq!(
        v03,
        Ok(Message::Binary(BinaryMessage {
            spec_version: SpecVersion::V03,
            fields: vec![ext("dataschema", "a"), attr("schemaurl", "b")],
            failure: None,
            data: None,
        }))
    );
}

#[test]
fn other_headers_are_ignored_and_first_content_type_wins() {
    let r = request_to_event(
        vec![
            h("host", "example.com"),
            h("ce-specversion", "1.0"),
            h("content-type", "text/plain"),
            h("content-type", "text/html"),
            h("ce-x", "tab\there"),
        ],
        Vec::new(),
    );
    assert_eq!(
        r,
        Ok(Message::Binary(BinaryMessage {
            spec_version: SpecVersion::V10,
            fields: vec![ext("x", "tab\there"), attr("datacontenttype", "text/plain")],
            failure: None,
            data: None,
        }))
    );
}

#[test]
fn spec_version_names_and_texts() {
    assert_eq!(SpecVersion::try_from_str("0.3"), Ok(SpecVersion::V03));
    assert_eq!(SpecVersion::try_from_str("1.0"), Ok(SpecVersion::V10));
    assert_eq!(SpecVersion::V03.as_str(), "0.3");
    assert_eq!(SpecVersion::V10.as_str(), "1.0");
    assert_eq!(
        SpecVersion::V10.attribute_names(),
        vec![
            "specversion", "id", "type", "source", "datacontenttype", "dataschema", "subject",
            "time"
        ]
    );
    assert_eq!(SpecVersion::V03.attribute_names()[5], "schemaurl");
}

#[test]
fn error_texts() {
    assert_eq!(MessageError::WrongEncoding.to_text(), "Wrong encoding");
    assert_eq!(
        MessageError::HeaderValueNotText.to_text(),
        "Other error: failed to convert header to a str"
    );
    assert_eq!(
        MessageError::InvalidHeaderName.to_text(),
        "Other error: invalid HTTP header name"
    );
    assert_eq!(
        MessageError::InvalidHeaderValue.to_text(),
        "Other error: failed to parse header value"
    );
}
