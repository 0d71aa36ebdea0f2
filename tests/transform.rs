use protocol_generator::emit::{file_imports, packet_enum_name};
use protocol_generator::ir::ResolvedType;
use protocol_generator::mappings::CodeMappings;
use protocol_generator::naming::{field_name, first_duplicate, format_packet_id, packet_type_name};
use protocol_generator::schema::{
    ArrayLength, BitRange, Bound, FieldType, RawField, RawPacket, RawPhase, State, SwitchCase,
};
use protocol_generator::transformer::{
    merge_imports, resolve_fields, resolve_type, transform_protocol, ErrorKind,
};

fn prim(name: &str) -> FieldType {
    FieldType::Primitive(name.to_string())
}

fn field(name: &str, field_type: FieldType) -> RawField {
    RawField { name: name.to_string(), field_type }
}

fn packet(name: &str, fields: Vec<RawField>) -> RawPacket {
    RawPacket { name: name.to_string(), fields }
}

fn baseline() -> Vec<String> {
    vec![
        "crate::DecodeError".to_string(),
        "crate::Decoder".to_string(),
        "std::io::Read".to_string(),
        "minecraft_protocol_derive::Packet".to_string(),
    ]
}

#[test]
fn status_phase_scenario() {
    let m = CodeMappings::new();
    let phase = RawPhase {
        server_bound: vec![packet("Request", vec![])],
        client_bound: vec![packet("Response", vec![field("json_response", prim("string"))])],
    };
    let p = transform_protocol(&m, State::Status, &phase).unwrap();
    assert_eq!(p.state, State::Status);
    assert_eq!(p.server_bound_packets.len(), 1);
    assert_eq!(p.server_bound_packets[0].id, 0);
    assert_eq!(p.server_bound_packets[0].name, "Request");
    assert!(p.server_bound_packets[0].fields.is_empty());
    assert_eq!(p.client_bound_packets.len(), 1);
    assert_eq!(p.client_bound_packets[0].id, 0);
    assert_eq!(p.client_bound_packets[0].name, "Response");
    assert_eq!(p.client_bound_packets[0].fields.len(), 1);
    assert_eq!(p.client_bound_packets[0].fields[0].name, "json_response");
    match &p.client_bound_packets[0].fields[0].resolved {
        ResolvedType::Named(t) => assert_eq!(t, "String"),
        other => panic!("unexpected {:?}", other),
    }
    assert!(p.imports.is_empty());
    assert_eq!(file_imports(&p), baseline());
    assert_eq!(format_packet_id(p.client_bound_packets[0].id), "0x00");
}

#[test]
fn unknown_primitive_is_reported_with_its_path() {
    let m = CodeMappings::new();
    let phase = RawPhase {
        server_bound: vec![packet("Bad", vec![field("outer", FieldType::Container(vec![field("x", prim("fooInt24"))]))])],
        client_bound: vec![],
    };
    let e = transform_protocol(&m, State::Game, &phase).unwrap_err();
    assert_eq!(e.packet, "Bad");
    assert_eq!(e.path, vec!["outer".to_string(), "x".to_string()]);
    match e.kind {
        ErrorKind::UnknownType(n) => assert_eq!(n, "fooInt24"),
        other => panic!("unexpected {:?}", other),
    }
}

#[test]
fn duplicate_switch_discriminant_fails() {
    let m = CodeMappings::new();
    let switch = FieldType::Switch {
        compare_to: "action".to_string(),
        cases: vec![
            SwitchCase { key: "1".to_string(), field_type: prim("varint") },
            SwitchCase { key: "1".to_string(), field_type: prim("string") },
        ],
        default: None,
    };
    match resolve_type(&m, &switch) {
        Err(f) => {
            assert!(f.kind.is_schema_format());
            match f.kind {
                ErrorKind::DuplicateDiscriminant(k) => assert_eq!(k, "1"),
                other => panic!("unexpected {:?}", other),
            }
        },
        Ok(_) => panic!("duplicate discriminant accepted"),
    }
    let phase = RawPhase {
        server_bound: vec![],
        client_bound: vec![packet("Action", vec![field("action", prim("varint")), field("data", switch)])],
    };
    let e = transform_protocol(&m, State::Game, &phase).unwrap_err();
    assert_eq!(e.packet, "Action");
    assert_eq!(e.path, vec!["data".to_string()]);
    assert!(e.kind.is_schema_format());
}

#[test]
fn switch_resolves_every_variant_and_default() {
    let m = CodeMappings::new();
    let switch = FieldType::Switch {
        compare_to: "kind".to_string(),
        cases: vec![
            SwitchCase { key: "0".to_string(), field_type: prim("UUID") },
            SwitchCase { key: "1".to_string(), field_type: prim("nbt") },
        ],
        default: Some(Box::new(prim("UUID"))),
    };
    let (rt, imports) = resolve_type(&m, &switch).unwrap();
    assert_eq!(imports, vec!["uuid::Uuid".to_string(), "nbt::CompoundTag".to_string()]);
    match rt {
        ResolvedType::Union { key, cases, default } => {
            assert_eq!(key, "kind");
            assert_eq!(cases.len(), 2);
            assert_eq!(cases[0].key, "0");
            assert_eq!(cases[1].key, "1");
            assert!(default.is_some());
        },
        other => panic!("unexpected {:?}", other),
    }
}

#[test]
fn wire_ids_follow_declaration_order() {
    let m = CodeMappings::new();
    let phase = RawPhase {
        server_bound: vec![
            packet("zeta", vec![]),
            packet("alpha", vec![field("a", prim("bool"))]),
            packet("mid", vec![]),
        ],
        client_bound: vec![packet("only", vec![])],
    };
    let p = transform_protocol(&m, State::Login, &phase).unwrap();
    let ids: Vec<u64> = p.server_bound_packets.iter().map(|x| x.id).collect();
    assert_eq!(ids, vec![0, 1, 2]);
    assert_eq!(p.server_bound_packets[0].name, "Zeta");
    assert_eq!(p.server_bound_packets[1].name, "Alpha");
    assert_eq!(p.client_bound_packets[0].id, 0);
}

#[test]
fn known_types_always_resolve() {
    let m = CodeMappings::new();
    let names = [
        "varint", "varlong", "bool", "i8", "u8", "i16", "u16", "i32", "i64", "f32", "f64", "string",
        "UUID", "restBuffer", "position", "nbt", "optionalNbt", "slot", "entityMetadata", "void",
    ];
    let fields: Vec<RawField> =
        names.iter().enumerate().map(|(i, n)| field(&format!("f{}", i), prim(n))).collect();
    let phase = RawPhase { server_bound: vec![packet("All", fields)], client_bound: vec![] };
    assert!(transform_protocol(&m, State::Game, &phase).is_ok());
}

fn imports_schema() -> RawPhase {
    RawPhase {
        server_bound: vec![packet(
            "A",
            vec![field("id", prim("UUID")), field("tag", prim("nbt")), field("id2", prim("UUID"))],
        )],
        client_bound: vec![packet(
            "B",
            vec![field("slot", prim("slot")), field("tag", prim("optionalNbt"))],
        )],
    }
}

#[test]
fn imports_are_deterministic_and_first_seen() {
    let m = CodeMappings::new();
    let first = transform_protocol(&m, State::Game, &imports_schema()).unwrap();
    let second = transform_protocol(&m, State::Game, &imports_schema()).unwrap();
    assert_eq!(first.imports, second.imports);
    assert_eq!(
        first.imports,
        vec![
            "uuid::Uuid".to_string(),
            "nbt::CompoundTag".to_string(),
            "crate::data::inventory::Slot".to_string(),
        ]
    );
    let mut expected = baseline();
    expected.extend(first.imports.iter().cloned());
    assert_eq!(file_imports(&first), expected);
}

#[test]
fn container_keeps_field_names_in_order() {
    let m = CodeMappings::new();
    let names = ["zulu", "alpha", "mike"];
    let fields: Vec<RawField> = names.iter().map(|n| field(n, prim("varint"))).collect();
    let (rt, imports) = resolve_type(&m, &FieldType::Container(fields)).unwrap();
    assert!(imports.is_empty());
    match rt {
        ResolvedType::Record(rfields) => {
            let got: Vec<&str> = rfields.iter().map(|f| f.name.as_str()).collect();
            assert_eq!(got, names.to_vec());
        },
        other => panic!("unexpected {:?}", other),
    }
}

#[test]
fn colliding_packet_names_fail() {
    let m = CodeMappings::new();
    let phase = RawPhase {
        server_bound: vec![packet("set_protocol", vec![]), packet("SetProtocol", vec![])],
        client_bound: vec![],
    };
    let e = transform_protocol(&m, State::Handshake, &phase).unwrap_err();
    assert_eq!(e.state, State::Handshake);
    assert_eq!(e.packet, "SetProtocol");
    match e.kind {
        ErrorKind::NameCollision(n) => assert_eq!(n, "SetProtocol"),
        other => panic!("unexpected {:?}", other),
    }
}

#[test]
fn colliding_field_names_fail() {
    let m = CodeMappings::new();
    let fields = vec![field("entityId", prim("varint")), field("entity_id", prim("varint"))];
    match resolve_fields(&m, &fields) {
        Err(f) => match f.kind {
            ErrorKind::NameCollision(n) => assert_eq!(n, "entity_id"),
            other => panic!("unexpected {:?}", other),
        },
        Ok(_) => panic!("collision accepted"),
    }
}

fn bits(widths: &[(&str, u64)]) -> FieldType {
    FieldType::Bitfield(
        widths
            .iter()
            .map(|(n, w)| BitRange { name: n.to_string(), width: *w, signed: true })
            .collect(),
    )
}

#[test]
fn bitfield_storage_follows_total_width() {
    let m = CodeMappings::new();
    match resolve_type(&m, &bits(&[("x", 26), ("y", 12), ("z", 26)])).unwrap().0 {
        ResolvedType::Bits { storage, names } => {
            assert_eq!(storage, "u64");
            assert_eq!(names, vec!["x".to_string(), "y".to_string(), "z".to_string()]);
        },
        other => panic!("unexpected {:?}", other),
    }
    match resolve_type(&m, &bits(&[("a", 4), ("b", 4)])).unwrap().0 {
        ResolvedType::Bits { storage, .. } => assert_eq!(storage, "u8"),
        other => panic!("unexpected {:?}", other),
    }
    match resolve_type(&m, &bits(&[("a", 9)])).unwrap().0 {
        ResolvedType::Bits { storage, .. } => assert_eq!(storage, "u16"),
        other => panic!("unexpected {:?}", other),
    }
    match resolve_type(&m, &bits(&[("a", 40), ("b", 25)])) {
        Err(f) => assert!(matches!(f.kind, ErrorKind::BitfieldTooWide)),
        Ok(_) => panic!("too wide accepted"),
    }
    match resolve_type(&m, &bits(&[("a", u64::MAX), ("b", 1)])) {
        Err(f) => assert!(matches!(f.kind, ErrorKind::BitfieldTooWide)),
        Ok(_) => panic!("too wide accepted"),
    }
}

#[test]
fn arrays_and_options_wrap_their_element() {
    let m = CodeMappings::new();
    let arr = FieldType::Array(Box::new(prim("UUID")), ArrayLength::Prefixed("varint".to_string()));
    let (rt, imports) = resolve_type(&m, &FieldType::Optional(Box::new(arr))).unwrap();
    assert_eq!(imports, vec!["uuid::Uuid".to_string()]);
    match rt {
        ResolvedType::Optional(inner) => match *inner {
            ResolvedType::Array(elem, ArrayLength::Prefixed(c)) => {
                assert_eq!(c, "varint");
                match *elem {
                    ResolvedType::Named(t) => assert_eq!(t, "Uuid"),
                    other => panic!("unexpected {:?}", other),
                }
            },
            other => panic!("unexpected {:?}", other),
        },
        other => panic!("unexpected {:?}", other),
    }
}

#[test]
fn packet_ids_format_as_hex() {
    assert_eq!(format_packet_id(0), "0x00");
    assert_eq!(format_packet_id(0x0A), "0x0A");
    assert_eq!(format_packet_id(0x1F), "0x1F");
    assert_eq!(format_packet_id(255), "0xFF");
    assert_eq!(format_packet_id(256), "0x100");
    assert_eq!(format_packet_id(u64::MAX), "0xFFFFFFFFFFFFFFFF");
}

#[test]
fn enum_names_join_phase_and_direction() {
    assert_eq!(packet_enum_name(State::Status, Bound::Server), "StatusServerBoundPacket");
    assert_eq!(packet_enum_name(State::Game, Bound::Client), "GameClientBoundPacket");
    assert_eq!(State::Handshake.module_name(), "handshake");
}

#[test]
fn names_are_normalized() {
    assert_eq!(field_name("entityId"), "entity_id");
    assert_eq!(field_name("XMLHttpRequest"), "xml_http_request");
    assert_eq!(packet_type_name("set_protocol"), "SetProtocol");
    assert_eq!(packet_type_name("ping_start"), "PingStart");
}

#[test]
fn merge_keeps_first_seen_order() {
    let mut acc = vec!["a".to_string(), "b".to_string()];
    merge_imports(&mut acc, &vec!["c".to_string(), "a".to_string(), "c".to_string(), "d".to_string()]);
    assert_eq!(acc, vec!["a".to_string(), "b".to_string(), "c".to_string(), "d".to_string()]);
}

#[test]
fn first_duplicate_finds_earliest_repeat() {
    let v: Vec<String> = ["a", "b", "c", "b", "a"].iter().map(|s| s.to_string()).collect();
    assert_eq!(first_duplicate(&v), Some((1, 3)));
    let w: Vec<String> = ["a", "b"].iter().map(|s| s.to_string()).collect();
    assert_eq!(first_duplicate(&w), None);
    assert_eq!(first_duplicate(&vec![]), None);
}

#[test]
fn lookup_finds_known_names_only() {
    let m = CodeMappings::new();
    let i = m.lookup(&"UUID".to_string()).unwrap();
    assert_eq!(m.entries[i].target, "Uuid");
    assert_eq!(m.entries[i].import, "uuid::Uuid");
    assert_eq!(m.lookup(&"fooInt24".to_string()), None);
}

#[test]
fn error_path_names_switch_variant() {
    let m = CodeMappings::new();
    let switch = FieldType::Switch {
        compare_to: "action".to_string(),
        cases: vec![
            SwitchCase { key: "0".to_string(), field_type: prim("varint") },
            SwitchCase { key: "1".to_string(), field_type: prim("fooInt24") },
        ],
        default: None,
    };
    let phase = RawPhase {
        server_bound: vec![],
        client_bound: vec![packet("Action", vec![field("data", switch)])],
    };
    let e = transform_protocol(&m, State::Game, &phase).unwrap_err();
    assert_eq!(e.path, vec!["data".to_string(), "1".to_string()]);
    assert!(!e.kind.is_schema_format());
    assert!(matches!(e.kind, ErrorKind::UnknownType(ref n) if n == "fooInt24"));
}

#[test]
fn phase_and_direction_names() {
    assert_eq!(State::Login.name(), "Login");
    assert_eq!(State::Game.module_name(), "game");
    assert_eq!(Bound::Client.name(), "Client");
}
