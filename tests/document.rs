use protocol_generator::document::{parse_document, parse_fields, parse_type, JsonMember, JsonValue};
use protocol_generator::mappings::CodeMappings;
use protocol_generator::schema::{ArrayLength, FieldType, State};
use protocol_generator::transformer::transform_all;

fn text(s: &str) -> JsonValue {
    JsonValue::Text(s.to_string())
}

fn obj(members: Vec<(&str, JsonValue)>) -> JsonValue {
    JsonValue::Object(
        members.into_iter().map(|(k, v)| JsonMember { key: k.to_string(), value: v }).collect(),
    )
}

fn node(tag: &str, arg: JsonValue) -> JsonValue {
    JsonValue::Array(vec![text(tag), arg])
}

fn container(fields: Vec<(&str, JsonValue)>) -> JsonValue {
    node(
        "container",
        JsonValue::Array(
            fields.into_iter().map(|(n, t)| obj(vec![("name", text(n)), ("type", t)])).collect(),
        ),
    )
}

fn phase(server: Vec<JsonValue>, client: Vec<JsonValue>) -> JsonValue {
    obj(vec![("toServer", JsonValue::Array(server)), ("toClient", JsonValue::Array(client))])
}

fn packet(name: &str, ty: JsonValue) -> JsonValue {
    obj(vec![("name", text(name)), ("type", ty)])
}

#[test]
fn primitive_and_container_nodes() {
    match parse_type(&text("varint")).unwrap() {
        FieldType::Primitive(n) => assert_eq!(n, "varint"),
        other => panic!("unexpected {:?}", other),
    }
    match parse_type(&container(vec![("a", text("bool")), ("b", text("string"))])).unwrap() {
        FieldType::Container(fields) => {
            assert_eq!(fields.len(), 2);
            assert_eq!(fields[0].name, "a");
            assert_eq!(fields[1].name, "b");
        },
        other => panic!("unexpected {:?}", other),
    }
}

#[test]
fn array_length_policies() {
    let prefixed = node("array", obj(vec![("countType", text("varint")), ("type", text("u8"))]));
    match parse_type(&prefixed).unwrap() {
        FieldType::Array(_, ArrayLength::Prefixed(c)) => assert_eq!(c, "varint"),
        other => panic!("unexpected {:?}", other),
    }
    let fixed = node("array", obj(vec![("count", JsonValue::Number(3)), ("type", text("u8"))]));
    assert!(matches!(parse_type(&fixed).unwrap(), FieldType::Array(_, ArrayLength::Fixed(3))));
    let sibling = node("array", obj(vec![("count", text("size")), ("type", text("u8"))]));
    match parse_type(&sibling).unwrap() {
        FieldType::Array(_, ArrayLength::FromField(f)) => assert_eq!(f, "size"),
        other => panic!("unexpected {:?}", other),
    }
    let rest = node("array", obj(vec![("type", text("u8"))]));
    assert!(matches!(parse_type(&rest).unwrap(), FieldType::Array(_, ArrayLength::Rest)));
    let bad = node("array", obj(vec![("count", JsonValue::OtherNumber), ("type", text("u8"))]));
    assert!(parse_type(&bad).is_err());
}

#[test]
fn buffer_is_a_byte_array() {
    let buffer = node("buffer", obj(vec![("countType", text("varint"))]));
    match parse_type(&buffer).unwrap() {
        FieldType::Array(e, ArrayLength::Prefixed(c)) => {
            assert_eq!(c, "varint");
            assert!(matches!(*e, FieldType::Primitive(ref n) if n == "u8"));
        },
        other => panic!("unexpected {:?}", other),
    }
}

#[test]
fn switch_and_option_nodes() {
    let switch = node(
        "switch",
        obj(vec![
            ("compareTo", text("action")),
            ("fields", obj(vec![("0", text("varint")), ("1", node("option", text("string")))])),
            ("default", text("void")),
        ]),
    );
    match parse_type(&switch).unwrap() {
        FieldType::Switch { compare_to, cases, default } => {
            assert_eq!(compare_to, "action");
            assert_eq!(cases.len(), 2);
            assert_eq!(cases[1].key, "1");
            assert!(matches!(cases[1].field_type, FieldType::Optional(_)));
            assert!(default.is_some());
        },
        other => panic!("unexpected {:?}", other),
    }
    let no_discriminant = node("switch", obj(vec![("fields", obj(vec![]))]));
    assert!(parse_type(&no_discriminant).is_err());
}

#[test]
fn bitfield_nodes() {
    let range = |n: &str, w: u64| {
        obj(vec![("name", text(n)), ("size", JsonValue::Number(w)), ("signed", JsonValue::Bool(true))])
    };
    let bits = node("bitfield", JsonValue::Array(vec![range("x", 26), range("y", 12)]));
    match parse_type(&bits).unwrap() {
        FieldType::Bitfield(rs) => {
            assert_eq!(rs.len(), 2);
            assert_eq!(rs[0].name, "x");
            assert_eq!(rs[0].width, 26);
            assert!(rs[1].signed);
        },
        other => panic!("unexpected {:?}", other),
    }
    let negative = node(
        "bitfield",
        JsonValue::Array(vec![obj(vec![
            ("name", text("x")),
            ("size", JsonValue::OtherNumber),
            ("signed", JsonValue::Bool(true)),
        ])]),
    );
    assert!(parse_type(&negative).is_err());
}

#[test]
fn unknown_node_kind_is_rejected() {
    let e = parse_type(&node("mystery", text("varint"))).unwrap_err();
    assert_eq!(e.what, "mystery");
    assert!(parse_type(&JsonValue::Null).is_err());
    assert!(parse_type(&JsonValue::Array(vec![text("option")])).is_err());
    assert!(parse_fields(&vec![obj(vec![("name", text("a"))])]).is_err());
}

#[test]
fn whole_document_reads_and_transforms() {
    let empty = || phase(vec![], vec![]);
    let status = phase(
        vec![packet("Request", container(vec![]))],
        vec![packet("Response", container(vec![("json_response", text("string"))]))],
    );
    let doc = obj(vec![
        ("handshaking", empty()),
        ("status", status),
        ("login", empty()),
        ("play", empty()),
    ]);
    let schema = parse_document(&doc).unwrap();
    assert_eq!(schema.status.server_bound.len(), 1);
    assert_eq!(schema.status.client_bound[0].fields[0].name, "json_response");
    let protocols = transform_all(&CodeMappings::new(), &schema).unwrap();
    assert_eq!(protocols.len(), 4);
    assert_eq!(protocols[1].state, State::Status);
    assert_eq!(protocols[1].client_bound_packets[0].name, "Response");
}

#[test]
fn missing_phase_or_direction_is_rejected() {
    let doc = obj(vec![("handshaking", phase(vec![], vec![]))]);
    assert_eq!(parse_document(&doc).unwrap_err().what, "status");
    let one_direction = obj(vec![("toServer", JsonValue::Array(vec![]))]);
    let doc = obj(vec![
        ("handshaking", one_direction),
        ("status", phase(vec![], vec![])),
        ("login", phase(vec![], vec![])),
        ("play", phase(vec![], vec![])),
    ]);
    assert_eq!(parse_document(&doc).unwrap_err().what, "toClient");
    let not_container = obj(vec![
        ("handshaking", phase(vec![packet("P", text("varint"))], vec![])),
        ("status", phase(vec![], vec![])),
        ("login", phase(vec![], vec![])),
        ("play", phase(vec![], vec![])),
    ]);
    assert!(parse_document(&not_container).is_err());
}
