use cloudevents_sdk_warp::reply::ce_event;
use cloudevents_sdk_warp::{
    event_to_response, CEResponseSerializer, EventMessage, HttpResponse, MessageError,
    ResponseBuilder, SpecVersion,
};

fn pair(name: &str, value: &str) -> (String, String) {
    (name.to_string(), value.to_string())
}

fn header<'a>(resp: &'a HttpResponse, name: &str) -> Option<&'a str> {
    resp.headers
        .iter()
        .find(|(n, _)| n == name)
        .map(|(_, v)| v.as_str())
}

#[test]
fn test_response() {
    let input = EventMessage {
        spec_version: SpecVersion::V10,
        attributes: vec![
            pair("id", "0001"),
            pair("type", "example.test"),
            pair("source", "http://localhost/"),
        ],
        extensions: vec![pair("someint", "10")],
        data: None,
    };

    let resp = ce_event(input);

    assert_eq!(header(&resp, "ce-specversion").unwrap(), "1.0");
    assert_eq!(header(&resp, "ce-id").unwrap(), "0001");
    assert_eq!(header(&resp, "ce-type").unwrap(), "example.test");
    assert_eq!(header(&resp, "ce-source").unwrap(), "http://localhost/");
    assert_eq!(header(&resp, "ce-someint").unwrap(), "10");
}

#[test]
fn test_response_with_full_data() {
    let j = "{\"hello\":\"world\"}";

    let input = EventMessage {
        spec_version: SpecVersion::V10,
        attributes: vec![
            pair("id", "0001"),
            pair("type", "example.test"),
            // the SDK hands the source URL `http://localhost` over as `http://localhost/`
            pair("source", "http://localhost/"),
            pair("datacontenttype", "application/json"),
        ],
        extensions: vec![pair("someint", "10")],
        data: Some(j.as_bytes().to_vec()),
    };

    let resp = ce_event(input);

    assert_eq!(header(&resp, "ce-specversion").unwrap(), "1.0");
    assert_eq!(header(&resp, "ce-id").unwrap(), "0001");
    assert_eq!(header(&resp, "ce-type").unwrap(), "example.test");
    assert_eq!(header(&resp, "ce-source").unwrap(), "http://localhost/");
    assert_eq!(header(&resp, "content-type").unwrap(), "application/json");
    assert_eq!(header(&resp, "ce-someint").unwrap(), "10");

    assert_eq!(j.as_bytes(), resp.body.as_slice());
}

#[test]
fn response_headers_come_in_order() {
    let input = EventMessage {
        spec_version: SpecVersion::V03,
        attributes: vec![pair("id", "7"), pair("type", "t"), pair("source", "s")],
        extensions: vec![pair("a", "1"), pair("b", "2")],
        data: None,
    };
    let resp = event_to_response(input).unwrap();
    assert_eq!(resp.status, 200);
    assert_eq!(
        resp.headers,
        vec![
            pair("ce-specversion", "0.3"),
            pair("ce-id", "7"),
            pair("ce-type", "t"),
            pair("ce-source", "s"),
            pair("ce-a", "1"),
            pair("ce-b", "2"),
        ]
    );
    assert!(resp.body.is_empty());
}

#[test]
fn extension_header_names_are_lower_case() {
    let input = EventMessage {
        spec_version: SpecVersion::V10,
        attributes: vec![pair("id", "1")],
        extensions: vec![pair("MyExt", "x")],
        data: None,
    };
    let resp = event_to_response(input).unwrap();
    assert_eq!(resp.headers[2], pair("ce-myext", "x"));
}

#[test]
fn invalid_extension_name_is_refused() {
    let input = EventMessage {
        spec_version: SpecVersion::V10,
        attributes: vec![pair("id", "1")],
        extensions: vec![pair("bad name", "x")],
        data: None,
    };
    assert_eq!(event_to_response(input), Err(MessageError::InvalidHeaderName));
}

#[test]
fn invalid_extension_value_is_refused() {
    let input = EventMessage {
        spec_version: SpecVersion::V10,
        attributes: vec![pair("id", "1")],
        extensions: vec![pair("ok", "line\nbreak")],
        data: None,
    };
    assert_eq!(event_to_response(input), Err(MessageError::InvalidHeaderValue));
}

#[test]
fn extension_name_error_comes_before_value_error() {
    let input = EventMessage {
        spec_version: SpecVersion::V10,
        attributes: vec![],
        extensions: vec![pair("a b", "line\nbreak")],
        data: None,
    };
    assert_eq!(event_to_response(input), Err(MessageError::InvalidHeaderName));
}

#[test]
fn invalid_attribute_value_gives_a_500() {
    let input = EventMessage {
        spec_version: SpecVersion::V10,
        attributes: vec![pair("id", "a\u{7f}b")],
        extensions: vec![],
        data: None,
    };
    let resp = ce_event(input);
    assert_eq!(resp.status, 500);
    assert!(resp.headers.is_empty());
    assert_eq!(
        resp.body,
        b"Other error: failed to parse header value".to_vec()
    );
}

#[test]
fn non_ascii_values_are_valid_header_values() {
    let input = EventMessage {
        spec_version: SpecVersion::V10,
        attributes: vec![pair("subject", "caf\u{e9}\tx")],
        extensions: vec![],
        data: None,
    };
    let resp = event_to_response(input).unwrap();
    assert_eq!(resp.headers[1], pair("ce-subject", "caf\u{e9}\tx"));
}

#[test]
fn datacontenttype_becomes_content_type() {
    let input = EventMessage {
        spec_version: SpecVersion::V10,
        attributes: vec![pair("datacontenttype", "text/plain")],
        extensions: vec![],
        data: Some(b"hi".to_vec()),
    };
    let resp = event_to_response(input).unwrap();
    assert_eq!(resp.headers[1], pair("content-type", "text/plain"));
    assert_eq!(resp.body, b"hi".to_vec());
}

#[test]
fn serializer_steps() {
    let builder = ResponseBuilder::new().status(201).header("X-First", "1");
    let s = CEResponseSerializer::from(builder);
    let s = s.set_spec_version(SpecVersion::V10).unwrap();
    let s = s.set_attribute("time", "2020-01-01T00:00:00+00:00").unwrap();
    let s = s.set_extension("Trace", "abc").unwrap();
    let resp = s.end_with_data(vec![1, 2, 3]).unwrap();
    assert_eq!(resp.status, 201);
    assert_eq!(
        resp.headers,
        vec![
            pair("x-first", "1"),
            pair("ce-specversion", "1.0"),
            pair("ce-time", "2020-01-01T00:00:00+00:00"),
            pair("ce-trace", "abc"),
        ]
    );
    assert_eq!(resp.body, vec![1, 2, 3]);
}

#[test]
fn structured_serializer_sets_content_type() {
    let s = CEResponseSerializer::from(ResponseBuilder::new());
    let resp = s.set_structured_event(b"{}".to_vec()).unwrap();
    assert_eq!(resp.status, 200);
    assert_eq!(
        resp.headers,
        vec![pair("content-type", "application/cloudevents+json")]
    );
    assert_eq!(resp.body, b"{}".to_vec());
}

#[test]
fn end_gives_an_empty_body() {
    let s = CEResponseSerializer::from(ResponseBuilder::new());
    let resp = s.end().unwrap();
    assert!(resp.body.is_empty());
    assert!(resp.headers.is_empty());
}

#[test]
fn builder_with_invalid_status_fails_every_ending() {
    let bad = || CEResponseSerializer::from(ResponseBuilder::new().status(1000));
    assert_eq!(bad().end_with_data(vec![1]), Err(MessageError::InvalidStatusCode));
    assert_eq!(bad().end(), Err(MessageError::InvalidStatusCode));
    assert_eq!(
        bad().set_structured_event(b"{}".to_vec()),
        Err(MessageError::InvalidStatusCode)
    );
    assert_eq!(
        MessageError::InvalidStatusCode.to_text(),
        "Other error: invalid status code"
    );
}

#[test]
fn builder_keeps_its_first_error() {
    let b = ResponseBuilder::new()
        .header("bad name", "x")
        .status(99)
        .header("ok", "line\nbreak");
    let s = CEResponseSerializer::from(b)
        .set_spec_version(SpecVersion::V10)
        .unwrap()
        .set_extension("fine", "value")
        .unwrap();
    assert_eq!(s.end(), Err(MessageError::InvalidHeaderName));
}

#[test]
fn builder_statuses_at_the_bounds() {
    let ok = ResponseBuilder::new().status(100).status(999).body(Vec::new()).unwrap();
    assert_eq!(ok.status, 999);
    assert_eq!(
        ResponseBuilder::new().status(99).body(Vec::new()),
        Err(MessageError::InvalidStatusCode)
    );
    let bad_value = ResponseBuilder::new().header("a", "x\u{7f}").body(Vec::new());
    assert_eq!(bad_value, Err(MessageError::InvalidHeaderValue));
}
