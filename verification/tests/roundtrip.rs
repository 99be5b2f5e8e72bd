use cloudevents_sdk_warp::{
    event_to_response, request_to_event, BinaryMessage, CEResponseSerializer, EventMessage,
    FieldKind, Message, MessageField, ResponseBuilder, SpecVersion,
};

fn pair(name: &str, value: &str) -> (String, String) {
    (name.to_string(), value.to_string())
}

fn field(kind: FieldKind, name: &str, value: &str) -> MessageField {
    MessageField {
        kind,
        name: name.to_string(),
        value: value.to_string(),
    }
}

fn as_request(headers: &[(String, String)]) -> Vec<(String, Vec<u8>)> {
    headers
        .iter()
        .map(|(n, v)| (n.clone(), v.as_bytes().to_vec()))
        .collect()
}

#[test]
fn binary_response_reads_back_as_the_event() {
    let event = EventMessage {
        spec_version: SpecVersion::V10,
        attributes: vec![
            pair("id", "0001"),
            pair("type", "example.test"),
            pair("source", "http://localhost/"),
            pair("datacontenttype", "application/json"),
            pair("time", "2020-10-28T09:14:33+00:00"),
        ],
        extensions: vec![pair("SomeInt", "10")],
        data: Some(b"{\"a\":1}".to_vec()),
    };
    let resp = event_to_response(event).unwrap();
    let read = request_to_event(as_request(&resp.headers), resp.body.clone()).unwrap();
    assert_eq!(
        read,
        Message::Binary(BinaryMessage {
            spec_version: SpecVersion::V10,
            fields: vec![
                field(FieldKind::Attribute, "id", "0001"),
                field(FieldKind::Attribute, "type", "example.test"),
                field(FieldKind::Attribute, "source", "http://localhost/"),
                field(FieldKind::Attribute, "time", "2020-10-28T09:14:33+00:00"),
                field(FieldKind::Extension, "someint", "10"),
                field(FieldKind::Attribute, "datacontenttype", "application/json"),
            ],
            failure: None,
            data: Some(b"{\"a\":1}".to_vec()),
        })
    );
}

#[test]
fn empty_data_reads_back_as_no_data() {
    let event = EventMessage {
        spec_version: SpecVersion::V03,
        attributes: vec![pair("id", "1")],
        extensions: vec![],
        data: Some(Vec::new()),
    };
    let resp = event_to_response(event).unwrap();
    let read = request_to_event(as_request(&resp.headers), resp.body.clone()).unwrap();
    assert_eq!(
        read,
        Message::Binary(BinaryMessage {
            spec_version: SpecVersion::V03,
            fields: vec![field(FieldKind::Attribute, "id", "1")],
            failure: None,
            data: None,
        })
    );
}

#[test]
fn structured_response_reads_back_as_its_body() {
    let body = b"{\"id\":\"1\"}".to_vec();
    let resp = CEResponseSerializer::from(ResponseBuilder::new())
        .set_structured_event(body.clone())
        .unwrap();
    let read = request_to_event(as_request(&resp.headers), resp.body.clone()).unwrap();
    assert_eq!(read, Message::Structured(body));
}

#[test]
fn event_read_from_a_request_is_answered_with_the_same_headers() {
    let body = b"{\"age\":43,\"name\":\"John Doe\"}".to_vec();
    let request = vec![
        ("ce-specversion".to_string(), b"1.0".to_vec()),
        ("ce-id".to_string(), b"2".to_vec()),
        ("ce-type".to_string(), b"example.event".to_vec()),
        ("ce-source".to_string(), b"url://example_response/".to_vec()),
        ("content-type".to_string(), b"application/json".to_vec()),
    ];
    let read = match request_to_event(request, body.clone()).unwrap() {
        Message::Binary(m) => m,
        Message::Structured(_) => panic!("a binary request was read as structured"),
    };
    assert_eq!(read.spec_version, SpecVersion::V10);
    assert_eq!(read.failure, None);
    // the event that these fields build hands its attributes back in the same order
    let event = EventMessage {
        spec_version: read.spec_version,
        attributes: read
            .fields
            .iter()
            .map(|f| (f.name.clone(), f.value.clone()))
            .collect(),
        extensions: vec![],
        data: read.data.clone(),
    };
    let resp = event_to_response(event).unwrap();
    assert_eq!(
        resp.headers,
        vec![
            pair("ce-specversion", "1.0"),
            pair("ce-id", "2"),
            pair("ce-type", "example.event"),
            pair("ce-source", "url://example_response/"),
            pair("content-type", "application/json"),
        ]
    );
    assert_eq!(resp.body, body);
}
