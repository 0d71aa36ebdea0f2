//! The schema document's grammar: from a JSON tree to the schema model.
use vstd::prelude::*;
use crate::mappings::first_match;
use crate::schema::{ArrayLength, BitRange, FieldType, RawField, RawPacket, RawPhase, RawProtocol, SwitchCase};

verus! {

/// A JSON value as the schema reader sees it. Numbers that are not
/// non-negative integers are kept only as `OtherNumber`.
#[derive(Debug)]
pub enum JsonValue {
    Null,
    Bool(bool),
    Number(u64),
    OtherNumber,
    Text(String),
    Array(Vec<JsonValue>),
    Object(Vec<JsonMember>),
}

/// One member of a JSON object, in document order.
#[derive(Debug)]
pub struct JsonMember {
    pub key: String,
    pub value: JsonValue,
}

/// The document breaks the structural grammar; `what` names the node kind
/// or key at fault.
#[derive(Debug)]
pub struct FormatError {
    pub what: String,
}

/// The keys of an object's members, in order.
pub open spec fn member_keys(members: Seq<JsonMember>) -> Seq<Seq<char>> {
    members.map_values(|x: JsonMember| x.key@)
}

/// The position of the first member named `key`.
pub open spec fn member_at(members: Vec<JsonMember>, key: Seq<char>) -> Option<int> {
    first_match(member_keys(members@), key, 0)
}

/// The member `key` exists and holds a string.
pub open spec fn text_member(members: Vec<JsonMember>, key: Seq<char>) -> Option<Seq<char>> {
    match member_at(members, key) {
        Some(i) => match members@[i].value {
            JsonValue::Text(s) => Some(s@),
            _ => None,
        },
        None => None,
    }
}

/// The length policy that the members of an array node give.
pub open spec fn length_of(members: Vec<JsonMember>, rest: ArrayLength) -> Option<ArrayLength> {
    match member_at(members, "countType"@) {
        Some(i) => match members@[i].value {
            JsonValue::Text(s) => Some(ArrayLength::Prefixed(s)),
            _ => None,
        },
        None => match member_at(members, "count"@) {
            Some(i) => match members@[i].value {
                JsonValue::Number(n) => Some(ArrayLength::Fixed(n)),
                JsonValue::Text(s) => Some(ArrayLength::FromField(s)),
                _ => None,
            },
            None => Some(rest),
        },
    }
}

/// `v` is a well-formed field-type node that reads as `ft`.
///
/// A node is a string (a primitive type name) or a pair of a tag and its
/// argument: `container` with a list of `{name, type}` objects; `array`
/// with `type` and an optional `countType` or `count`; `option` with a
/// node; `switch` with `compareTo`, an object `fields` of variants and an
/// optional `default`; `bitfield` with a list of `{name, size, signed}`;
/// `buffer` with an optional `countType` or `count`.
pub open spec fn parses_to(v: JsonValue, ft: FieldType) -> bool
    decreases v,
{
    match v {
        JsonValue::Text(s) => ft == FieldType::Primitive(s),
        JsonValue::Array(items) => items.len() == 2 && match items@[0] {
            JsonValue::Text(tag) => {
                let arg = items@[1];
                if tag@ == "container"@ {
                    match (arg, ft) {
                        (JsonValue::Array(entries), FieldType::Container(fields)) => {
                            fields_parse(entries, fields)
                        },
                        _ => false,
                    }
                } else if tag@ == "array"@ {
                    match (arg, ft) {
                        (JsonValue::Object(ms), FieldType::Array(e, len)) => {
                            &&& length_of(ms, ArrayLength::Rest) == Some(len)
                            &&& member_at(ms, "type"@) matches Some(t) && 0 <= t < ms.len() && parses_to(
                                ms@[t].value,
                                *e,
                            )
                        },
                        _ => false,
                    }
                } else if tag@ == "option"@ {
                    match ft {
                        FieldType::Optional(e) => parses_to(arg, *e),
                        _ => false,
                    }
                } else if tag@ == "switch"@ {
                    match (arg, ft) {
                        (JsonValue::Object(ms), FieldType::Switch { compare_to, cases, default }) => {
                            &&& text_member(ms, "compareTo"@) == Some(compare_to@)
                            &&& member_at(ms, "fields"@) matches Some(f) && 0 <= f < ms.len() && match ms@[f].value {
                                JsonValue::Object(vs) => {
                                    &&& cases.len() == vs.len()
                                    &&& forall|i: int|
                                        0 <= i < vs.len() ==> {
                                            &&& (#[trigger] cases@[i]).key@ == vs@[i].key@
                                            &&& parses_to(vs@[i].value, cases@[i].field_type)
                                        }
                                },
                                _ => false,
                            }
                            &&& match member_at(ms, "default"@) {
                                Some(d) => 0 <= d < ms.len() && (default matches Some(dt) && parses_to(
                                    ms@[d].value,
                                    *dt,
                                )),
                                None => default is None,
                            }
                        },
                        _ => false,
                    }
                } else if tag@ == "bitfield"@ {
                    match (arg, ft) {
                        (JsonValue::Array(entries), FieldType::Bitfield(ranges)) => {
                            ranges_parse(entries, ranges)
                        },
                        _ => false,
                    }
                } else if tag@ == "buffer"@ {
                    match (arg, ft) {
                        (JsonValue::Object(ms), FieldType::Array(e, len)) => {
                            &&& match *e {
                                FieldType::Primitive(n) => n@ == "u8"@,
                                _ => false,
                            }
                            &&& length_of(ms, ArrayLength::Rest) == Some(len)
                        },
                        _ => false,
                    }
                } else {
                    false
                }
            },
            _ => false,
        },
        _ => false,
    }
}

/// Each entry reads as the field at the same position.
pub open spec fn fields_parse(entries: Vec<JsonValue>, fields: Vec<RawField>) -> bool
    decreases entries,
{
    &&& fields.len() == entries.len()
    &&& forall|i: int| 0 <= i < entries.len() ==> field_parses(#[trigger] entries@[i], fields@[i])
}

/// Each entry reads as the bit range at the same position.
pub open spec fn ranges_parse(entries: Vec<JsonValue>, ranges: Vec<BitRange>) -> bool {
    &&& ranges.len() == entries.len()
    &&& forall|i: int| 0 <= i < entries.len() ==> range_parses(#[trigger] entries@[i], ranges@[i])
}

/// `v` is a `{name, type}` object that reads as the field `f`.
pub open spec fn field_parses(v: JsonValue, f: RawField) -> bool
    decreases v,
{
    match v {
        JsonValue::Object(ms) => {
            &&& text_member(ms, "name"@) == Some(f.name@)
            &&& member_at(ms, "type"@) matches Some(t) && 0 <= t < ms.len() && parses_to(
                ms@[t].value,
                f.field_type,
            )
        },
        _ => false,
    }
}

/// `v` is a `{name, size, signed}` object that reads as `r`.
pub open spec fn range_parses(v: JsonValue, r: BitRange) -> bool {
    match v {
        JsonValue::Object(ms) => {
            &&& text_member(ms, "name"@) == Some(r.name@)
            &&& member_at(ms, "size"@) matches Some(s) && ms@[s].value == JsonValue::Number(r.width)
            &&& member_at(ms, "signed"@) matches Some(g) && ms@[g].value == JsonValue::Bool(r.signed)
        },
        _ => false,
    }
}

fn fail(what: &str) -> (r: FormatError) {
    FormatError { what: what.to_owned() }
}

fn same_text(s: &String, lit: &str) -> (r: bool)
    ensures
        r == (s@ == lit@),
{
    *s == lit.to_owned()
}

/// The position of the first member named `key`, if any.
pub fn find_member(members: &Vec<JsonMember>, key: &str) -> (r: Option<usize>)
    ensures
        r is Some <==> member_at(*members, key@) is Some,
        r matches Some(i) ==> i as int == member_at(*members, key@)->0 && i < members.len(),
{
    let mut i: usize = 0;
    while i < members.len()
        invariant
            0 <= i <= members.len(),
            first_match(member_keys(members@), key@, 0) == first_match(member_keys(members@), key@, i as int),
        decreases members.len() - i,
    {
        if same_text(&members[i].key, key) {
            return Some(i);
        }
        i = i + 1;
    }
    None
}

fn text_of(members: &Vec<JsonMember>, key: &str) -> (r: Option<String>)
    ensures
        r matches Some(s) ==> text_member(*members, key@) == Some(s@),
        r is None ==> text_member(*members, key@) is None,
{
    match find_member(members, key) {
        Some(i) => match &members[i].value {
            JsonValue::Text(s) => Some(s.clone()),
            _ => None,
        },
        None => None,
    }
}

fn parse_length(members: &Vec<JsonMember>) -> (r: Result<ArrayLength, FormatError>)
    ensures
        r matches Ok(l) ==> length_of(*members, ArrayLength::Rest) == Some(l),
        r is Err ==> length_of(*members, ArrayLength::Rest) is None,
{
    match find_member(members, "countType") {
        Some(i) => match &members[i].value {
            JsonValue::Text(s) => Ok(ArrayLength::Prefixed(s.clone())),
            _ => Err(fail("countType")),
        },
        None => match find_member(members, "count") {
            Some(i) => match &members[i].value {
                JsonValue::Number(n) => Ok(ArrayLength::Fixed(*n)),
                JsonValue::Text(s) => Ok(ArrayLength::FromField(s.clone())),
                _ => Err(fail("count")),
            },
            None => Ok(ArrayLength::Rest),
        },
    }
}

fn parse_range(v: &JsonValue) -> (r: Result<BitRange, FormatError>)
    ensures
        r matches Ok(b) ==> range_parses(*v, b),
        r is Err ==> forall|b: BitRange| !range_parses(*v, b),
{
    match v {
        JsonValue::Object(ms) => {
            let name = match text_of(ms, "name") {
                Some(n) => n,
                None => {
                    return Err(fail("bitfield name"));
                },
            };
            let width = match find_member(ms, "size") {
                Some(i) => match &ms[i].value {
                    JsonValue::Number(n) => *n,
                    _ => {
                        return Err(fail("bitfield size"));
                    },
                },
                None => {
                    return Err(fail("bitfield size"));
                },
            };
            let signed = match find_member(ms, "signed") {
                Some(i) => match &ms[i].value {
                    JsonValue::Bool(b) => *b,
                    _ => {
                        return Err(fail("bitfield signed"));
                    },
                },
                None => {
                    return Err(fail("bitfield signed"));
                },
            };
            Ok(BitRange { name, width, signed })
        },
        _ => Err(fail("bitfield range")),
    }
}

fn parse_field(v: &JsonValue) -> (r: Result<RawField, FormatError>)
    ensures
        r matches Ok(f) ==> field_parses(*v, f),
        r is Err ==> forall|f: RawField| !field_parses(*v, f),
    decreases v,
{
    match v {
        JsonValue::Object(ms) => {
            let name = match text_of(ms, "name") {
                Some(n) => n,
                None => {
                    return Err(fail("field name"));
                },
            };
            let t = match find_member(ms, "type") {
                Some(t) => t,
                None => {
                    return Err(fail("field type"));
                },
            };
            match parse_type(&ms[t].value) {
                Ok(field_type) => Ok(RawField { name, field_type }),
                Err(e) => {
                    proof {
                        assert forall|f: RawField| !field_parses(*v, f) by {
                            if field_parses(*v, f) {
                                assert(parses_to(ms@[t as int].value, f.field_type));
                            }
                        }
                    }
                    Err(e)
                },
            }
        },
        _ => Err(fail("field")),
    }
}

/// Reads a list of `{name, type}` objects as the fields of a container.
pub fn parse_fields(entries: &Vec<JsonValue>) -> (r: Result<Vec<RawField>, FormatError>)
    ensures
        r matches Ok(fields) ==> fields_parse(*entries, fields),
        r is Err ==> forall|fields: Vec<RawField>| !fields_parse(*entries, fields),
    decreases entries,
{
    let mut fields: Vec<RawField> = Vec::new();
    let mut i: usize = 0;
    while i < entries.len()
        invariant
            0 <= i <= entries.len(),
            fields.len() == i,
            forall|k: int| 0 <= k < i ==> field_parses(#[trigger] entries@[k], fields@[k]),
        decreases entries.len() - i,
    {
        match parse_field(&entries[i]) {
            Ok(f) => fields.push(f),
            Err(e) => {
                proof {
                    assert forall|fs: Vec<RawField>| !fields_parse(*entries, fs) by {
                        if fields_parse(*entries, fs) {
                            assert(field_parses(entries@[i as int], fs@[i as int]));
                        }
                    }
                }
                return Err(e);
            },
        }
        i = i + 1;
    }
    Ok(fields)
}

fn parse_cases(members: &Vec<JsonMember>) -> (r: Result<Vec<SwitchCase>, FormatError>)
    ensures
        r matches Ok(cases) ==> {
            &&& cases.len() == members.len()
            &&& forall|i: int|
                0 <= i < members.len() ==> {
                    &&& (#[trigger] cases@[i]).key@ == members@[i].key@
                    &&& parses_to(members@[i].value, cases@[i].field_type)
                }
        },
        r is Err ==> exists|i: int|
            0 <= i < members.len() && forall|ft: FieldType| !parses_to(#[trigger] members@[i].value, ft),
    decreases members,
{
    let mut cases: Vec<SwitchCase> = Vec::new();
    let mut i: usize = 0;
    while i < members.len()
        invariant
            0 <= i <= members.len(),
            cases.len() == i,
            forall|k: int|
                0 <= k < i ==> {
                    &&& (#[trigger] cases@[k]).key@ == members@[k].key@
                    &&& parses_to(members@[k].value, cases@[k].field_type)
                },
        decreases members.len() - i,
    {
        match parse_type(&members[i].value) {
            Ok(field_type) => cases.push(SwitchCase { key: members[i].key.clone(), field_type }),
            Err(e) => {
                return Err(e);
            },
        }
        i = i + 1;
    }
    Ok(cases)
}

fn parse_ranges(entries: &Vec<JsonValue>) -> (r: Result<Vec<BitRange>, FormatError>)
    ensures
        r matches Ok(ranges) ==> ranges_parse(*entries, ranges),
        r is Err ==> forall|ranges: Vec<BitRange>| !ranges_parse(*entries, ranges),
{
    let mut ranges: Vec<BitRange> = Vec::new();
    let mut i: usize = 0;
    while i < entries.len()
        invariant
            0 <= i <= entries.len(),
            ranges.len() == i,
            forall|k: int| 0 <= k < i ==> range_parses(#[trigger] entries@[k], ranges@[k]),
        decreases entries.len() - i,
    {
        match parse_range(&entries[i]) {
            Ok(b) => ranges.push(b),
            Err(e) => {
                proof {
                    assert forall|rs: Vec<BitRange>| !ranges_parse(*entries, rs) by {
                        if ranges_parse(*entries, rs) {
                            assert(range_parses(entries@[i as int], rs@[i as int]));
                        }
                    }
                }
                return Err(e);
            },
        }
        i = i + 1;
    }
    Ok(ranges)
}

/// Reads a field-type node. It fails exactly where no field type reads
/// from the node: an unknown tag, a missing key or a value of the wrong
/// kind anywhere in the tree.
pub fn parse_type(v: &JsonValue) -> (r: Result<FieldType, FormatError>)
    ensures
        r matches Ok(ft) ==> parses_to(*v, ft),
        r is Err ==> forall|ft: FieldType| !parses_to(*v, ft),
    decreases v,
{
    match v {
        JsonValue::Text(s) => Ok(FieldType::Primitive(s.clone())),
        JsonValue::Array(items) => {
            if items.len() != 2 {
                return Err(fail("node"));
            }
            let tag = match &items[0] {
                JsonValue::Text(t) => t,
                _ => {
                    return Err(fail("node tag"));
                },
            };
            let arg = &items[1];
            if same_text(tag, "container") {
                match arg {
                    JsonValue::Array(entries) => match parse_fields(entries) {
                        Ok(fields) => Ok(FieldType::Container(fields)),
                        Err(e) => {
                            proof {
                                assert forall|ft: FieldType| !parses_to(*v, ft) by {
                                    if parses_to(*v, ft) {
                                        if let FieldType::Container(fs) = ft {
                                            assert(fields_parse(*entries, fs));
                                        }
                                    }
                                }
                            }
                            Err(e)
                        },
                    },
                    _ => Err(fail("container")),
                }
            } else if same_text(tag, "array") {
                match arg {
                    JsonValue::Object(ms) => {
                        let len = match parse_length(ms) {
                            Ok(l) => l,
                            Err(e) => {
                                return Err(e);
                            },
                        };
                        let t = match find_member(ms, "type") {
                            Some(t) => t,
                            None => {
                                return Err(fail("array type"));
                            },
                        };
                        match parse_type(&ms[t].value) {
                            Ok(e) => Ok(FieldType::Array(Box::new(e), len)),
                            Err(e) => {
                                proof {
                                    assert forall|ft: FieldType| !parses_to(*v, ft) by {
                                        if parses_to(*v, ft) {
                                            if let FieldType::Array(x, _) = ft {
                                                assert(parses_to(ms@[t as int].value, *x));
                                            }
                                        }
                                    }
                                }
                                Err(e)
                            },
                        }
                    },
                    _ => Err(fail("array")),
                }
            } else if same_text(tag, "option") {
                match parse_type(arg) {
                    Ok(e) => Ok(FieldType::Optional(Box::new(e))),
                    Err(e) => {
                        proof {
                            assert forall|ft: FieldType| !parses_to(*v, ft) by {
                                if parses_to(*v, ft) {
                                    if let FieldType::Optional(x) = ft {
                                        assert(parses_to(*arg, *x));
                                    }
                                }
                            }
                        }
                        Err(e)
                    },
                }
            } else if same_text(tag, "switch") {
                match arg {
                    JsonValue::Object(ms) => {
                        let compare_to = match text_of(ms, "compareTo") {
                            Some(c) => c,
                            None => {
                                return Err(fail("switch compareTo"));
                            },
                        };
                        let f = match find_member(ms, "fields") {
                            Some(f) => f,
                            None => {
                                return Err(fail("switch fields"));
                            },
                        };
                        let cases = match &ms[f].value {
                            JsonValue::Object(vs) => match parse_cases(vs) {
                                Ok(c) => c,
                                Err(e) => {
                                    proof {
                                        let i = choose|i: int|
                                            0 <= i < vs.len() && forall|ft: FieldType|
                                                !parses_to(#[trigger] vs@[i].value, ft);
                                        assert forall|ft: FieldType| !parses_to(*v, ft) by {
                                            if parses_to(*v, ft) {
                                                if let FieldType::Switch { cases: cs, .. } = ft {
                                                    assert(cs@[i].key@ == vs@[i].key@);
                                                    assert(parses_to(vs@[i].value, cs@[i].field_type));
                                                }
                                            }
                                        }
                                    }
                                    return Err(e);
                                },
                            },
                            _ => {
                                return Err(fail("switch fields"));
                            },
                        };
                        let default = match find_member(ms, "default") {
                            Some(d) => match parse_type(&ms[d].value) {
                                Ok(dt) => Some(Box::new(dt)),
                                Err(e) => {
                                    proof {
                                        assert forall|ft: FieldType| !parses_to(*v, ft) by {
                                            if parses_to(*v, ft) {
                                                if let FieldType::Switch { default: Some(x), .. } = ft {
                                                    assert(parses_to(ms@[d as int].value, *x));
                                                }
                                            }
                                        }
                                    }
                                    return Err(e);
                                },
                            },
                            None => None,
                        };
                        Ok(FieldType::Switch { compare_to, cases, default })
                    },
                    _ => Err(fail("switch")),
                }
            } else if same_text(tag, "bitfield") {
                match arg {
                    JsonValue::Array(entries) => match parse_ranges(entries) {
                        Ok(ranges) => Ok(FieldType::Bitfield(ranges)),
                        Err(e) => {
                            proof {
                                assert forall|ft: FieldType| !parses_to(*v, ft) by {
                                    if parses_to(*v, ft) {
                                        if let FieldType::Bitfield(rs) = ft {
                                            assert(ranges_parse(*entries, rs));
                                        }
                                    }
                                }
                            }
                            Err(e)
                        },
                    },
                    _ => Err(fail("bitfield")),
                }
            } else if same_text(tag, "buffer") {
                match arg {
                    JsonValue::Object(ms) => match parse_length(ms) {
                        Ok(len) => {
                            proof {
                                reveal_strlit("u8");
                            }
                            Ok(FieldType::Array(Box::new(FieldType::Primitive("u8".to_owned())), len))
                        },
                        Err(e) => Err(e),
                    },
                    _ => Err(fail("buffer")),
                }
            } else {
                Err(FormatError { what: tag.clone() })
            }
        },
        _ => Err(fail("node")),
    }
}

/// `v` is a `{name, type}` object whose type is a container node: the
/// packet `p`.
pub open spec fn packet_parses(v: JsonValue, p: RawPacket) -> bool {
    match v {
        JsonValue::Object(ms) => {
            &&& text_member(ms, "name"@) == Some(p.name@)
            &&& member_at(ms, "type"@) matches Some(t) && 0 <= t < ms.len() && parses_to(
                ms@[t].value,
                FieldType::Container(p.fields),
            )
        },
        _ => false,
    }
}

/// `v` is a list of packet declarations that reads as `packets`, in order.
pub open spec fn packets_parse(v: JsonValue, packets: Vec<RawPacket>) -> bool {
    match v {
        JsonValue::Array(items) => {
            &&& packets.len() == items.len()
            &&& forall|i: int| 0 <= i < items.len() ==> packet_parses(#[trigger] items@[i], packets@[i])
        },
        _ => false,
    }
}

/// `v` is an object whose `toServer` and `toClient` lists read as the two
/// groups of `phase`.
pub open spec fn phase_parses(v: JsonValue, phase: RawPhase) -> bool {
    match v {
        JsonValue::Object(ms) => {
            &&& member_at(ms, "toServer"@) matches Some(s) && 0 <= s < ms.len() && packets_parse(
                ms@[s].value,
                phase.server_bound,
            )
            &&& member_at(ms, "toClient"@) matches Some(c) && 0 <= c < ms.len() && packets_parse(
                ms@[c].value,
                phase.client_bound,
            )
        },
        _ => false,
    }
}

/// The phase under `key` of the object `ms` reads as `phase`.
pub open spec fn phase_member_parses(ms: Vec<JsonMember>, key: Seq<char>, phase: RawPhase) -> bool {
    member_at(ms, key) matches Some(i) && 0 <= i < ms.len() && phase_parses(ms@[i].value, phase)
}

/// `v` is the whole document: an object with the phases `handshaking`,
/// `status`, `login` and `play`.
pub open spec fn document_parses(v: JsonValue, p: RawProtocol) -> bool {
    match v {
        JsonValue::Object(ms) => {
            &&& phase_member_parses(ms, "handshaking"@, p.handshaking)
            &&& phase_member_parses(ms, "status"@, p.status)
            &&& phase_member_parses(ms, "login"@, p.login)
            &&& phase_member_parses(ms, "play"@, p.game)
        },
        _ => false,
    }
}

fn parse_packet(v: &JsonValue) -> (r: Result<RawPacket, FormatError>)
    ensures
        r matches Ok(p) ==> packet_parses(*v, p),
        r is Err ==> forall|p: RawPacket| !packet_parses(*v, p),
{
    let ms = match v {
        JsonValue::Object(ms) => ms,
        _ => {
            return Err(fail("packet"));
        },
    };
    let name = match text_of(ms, "name") {
        Some(n) => n,
        None => {
            return Err(fail("packet name"));
        },
    };
    let t = match find_member(ms, "type") {
        Some(t) => t,
        None => {
            return Err(fail("packet type"));
        },
    };
    let node = &ms[t].value;
    let items = match node {
        JsonValue::Array(items) => items,
        _ => {
            return Err(fail("packet type"));
        },
    };
    if items.len() != 2 {
        return Err(fail("packet type"));
    }
    let is_container = match &items[0] {
        JsonValue::Text(tag) => same_text(tag, "container"),
        _ => false,
    };
    if !is_container {
        return Err(fail("packet type"));
    }
    match &items[1] {
        JsonValue::Array(entries) => match parse_fields(entries) {
            Ok(fields) => Ok(RawPacket { name, fields }),
            Err(e) => {
                proof {
                    assert forall|p: RawPacket| !packet_parses(*v, p) by {
                        if packet_parses(*v, p) {
                            assert(parses_to(*node, FieldType::Container(p.fields)));
                            assert(fields_parse(*entries, p.fields));
                        }
                    }
                }
                Err(e)
            },
        },
        _ => Err(fail("packet type")),
    }
}

fn parse_packets(v: &JsonValue) -> (r: Result<Vec<RawPacket>, FormatError>)
    ensures
        r matches Ok(ps) ==> packets_parse(*v, ps),
        r is Err ==> forall|ps: Vec<RawPacket>| !packets_parse(*v, ps),
{
    let items = match v {
        JsonValue::Array(items) => items,
        _ => {
            return Err(fail("packet list"));
        },
    };
    let mut out: Vec<RawPacket> = Vec::new();
    let mut i: usize = 0;
    while i < items.len()
        invariant
            0 <= i <= items.len(),
            out.len() == i,
            forall|k: int| 0 <= k < i ==> packet_parses(#[trigger] items@[k], out@[k]),
            *v == JsonValue::Array(*items),
        decreases items.len() - i,
    {
        match parse_packet(&items[i]) {
            Ok(p) => out.push(p),
            Err(e) => {
                proof {
                    assert forall|ps: Vec<RawPacket>| !packets_parse(*v, ps) by {
                        if packets_parse(*v, ps) {
                            assert(packet_parses(items@[i as int], ps@[i as int]));
                        }
                    }
                }
                return Err(e);
            },
        }
        i = i + 1;
    }
    Ok(out)
}

fn parse_phase(v: &JsonValue) -> (r: Result<RawPhase, FormatError>)
    ensures
        r matches Ok(p) ==> phase_parses(*v, p),
        r is Err ==> forall|p: RawPhase| !phase_parses(*v, p),
{
    let ms = match v {
        JsonValue::Object(ms) => ms,
        _ => {
            return Err(fail("phase"));
        },
    };
    let s = match find_member(ms, "toServer") {
        Some(s) => s,
        None => {
            return Err(fail("toServer"));
        },
    };
    let c = match find_member(ms, "toClient") {
        Some(c) => c,
        None => {
            return Err(fail("toClient"));
        },
    };
    let server_bound = match parse_packets(&ms[s].value) {
        Ok(ps) => ps,
        Err(e) => {
            proof {
                assert forall|p: RawPhase| !phase_parses(*v, p) by {
                    if phase_parses(*v, p) {
                        assert(packets_parse(ms@[s as int].value, p.server_bound));
                    }
                }
            }
            return Err(e);
        },
    };
    let client_bound = match parse_packets(&ms[c].value) {
        Ok(ps) => ps,
        Err(e) => {
            proof {
                assert forall|p: RawPhase| !phase_parses(*v, p) by {
                    if phase_parses(*v, p) {
                        assert(packets_parse(ms@[c as int].value, p.client_bound));
                    }
                }
            }
            return Err(e);
        },
    };
    Ok(RawPhase { server_bound, client_bound })
}

fn parse_phase_member(ms: &Vec<JsonMember>, key: &str) -> (r: Result<RawPhase, FormatError>)
    ensures
        r matches Ok(p) ==> phase_member_parses(*ms, key@, p),
        r is Err ==> forall|p: RawPhase| !phase_member_parses(*ms, key@, p),
{
    match find_member(ms, key) {
        Some(i) => parse_phase(&ms[i].value),
        None => Err(fail(key)),
    }
}

/// Reads the whole schema document. It fails exactly where no schema reads
/// from it: a missing phase or direction, or a malformed packet anywhere.
pub fn parse_document(v: &JsonValue) -> (r: Result<RawProtocol, FormatError>)
    ensures
        r matches Ok(p) ==> document_parses(*v, p),
        r is Err ==> forall|p: RawProtocol| !document_parses(*v, p),
{
    let ms = match v {
        JsonValue::Object(ms) => ms,
        _ => {
            return Err(fail("document"));
        },
    };
    let handshaking = match parse_phase_member(ms, "handshaking") {
        Ok(p) => p,
        Err(e) => {
            return Err(e);
        },
    };
    let status = match parse_phase_member(ms, "status") {
        Ok(p) => p,
        Err(e) => {
            return Err(e);
        },
    };
    let login = match parse_phase_member(ms, "login") {
        Ok(p) => p,
        Err(e) => {
            return Err(e);
        },
    };
    let game = match parse_phase_member(ms, "play") {
        Ok(p) => p,
        Err(e) => {
            return Err(e);
        },
    };
    Ok(RawProtocol { handshaking, status, login, game })
}

} // verus!
