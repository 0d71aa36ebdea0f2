//! Resolution of raw field types and assembly of the protocol records.
use vstd::prelude::*;
use crate::ir::{Packet, Protocol, ResolvedCase, ResolvedField, ResolvedType};
use crate::mappings::{storage_of, CodeMappings};
use crate::naming::{camel_of, field_name, first_duplicate, packet_type_name, snake_of, views};
use crate::schema::{
    all_distinct, case_keys, field_names, keys_distinct, range_names, total_width, BitRange,
    FieldType, RawField, RawPacket, RawPhase, RawProtocol, State, SwitchCase,
};

verus! {

/// `acc` followed by each element of `s` that is not yet in it, in order of
/// first appearance.
pub open spec fn add_all(acc: Seq<Seq<char>>, s: Seq<Seq<char>>) -> Seq<Seq<char>>
    decreases s.len(),
{
    if s.len() == 0 {
        acc
    } else {
        let next = if acc.contains(s[0]) {
            acc
        } else {
            acc.push(s[0])
        };
        add_all(next, s.drop_first())
    }
}

/// The snake-case forms of a list of names.
pub open spec fn snake_names(names: Seq<Seq<char>>) -> Seq<Seq<char>> {
    names.map_values(|n: Seq<char>| snake_of(n))
}

/// Every primitive type name in the tree is known to the table.
pub open spec fn all_known(m: CodeMappings, ft: FieldType) -> bool
    decreases ft,
{
    match ft {
        FieldType::Primitive(n) => m.knows(n@),
        FieldType::Array(e, _) => all_known(m, *e),
        FieldType::Container(fields) => forall|i: int|
            0 <= i < fields.len() ==> all_known(m, #[trigger] fields@[i].field_type),
        FieldType::Optional(e) => all_known(m, *e),
        FieldType::Switch { compare_to, cases, default } => {
            &&& forall|i: int| 0 <= i < cases.len() ==> all_known(m, #[trigger] cases@[i].field_type)
            &&& match default {
                Some(d) => all_known(m, *d),
                None => true,
            }
        },
        FieldType::Bitfield(_) => true,
    }
}

/// Within every container of the tree, the normalized field names are distinct.
pub open spec fn names_distinct(ft: FieldType) -> bool
    decreases ft,
{
    match ft {
        FieldType::Primitive(_) => true,
        FieldType::Array(e, _) => names_distinct(*e),
        FieldType::Container(fields) => {
            &&& all_distinct(snake_names(field_names(fields@)))
            &&& forall|i: int| 0 <= i < fields.len() ==> names_distinct(#[trigger] fields@[i].field_type)
        },
        FieldType::Optional(e) => names_distinct(*e),
        FieldType::Switch { compare_to, cases, default } => {
            &&& forall|i: int| 0 <= i < cases.len() ==> names_distinct(#[trigger] cases@[i].field_type)
            &&& match default {
                Some(d) => names_distinct(*d),
                None => true,
            }
        },
        FieldType::Bitfield(_) => true,
    }
}

/// Every bitfield of the tree fits a storage type of the table.
pub open spec fn widths_fit(ft: FieldType) -> bool
    decreases ft,
{
    match ft {
        FieldType::Primitive(_) => true,
        FieldType::Array(e, _) => widths_fit(*e),
        FieldType::Container(fields) => forall|i: int|
            0 <= i < fields.len() ==> widths_fit(#[trigger] fields@[i].field_type),
        FieldType::Optional(e) => widths_fit(*e),
        FieldType::Switch { compare_to, cases, default } => {
            &&& forall|i: int| 0 <= i < cases.len() ==> widths_fit(#[trigger] cases@[i].field_type)
            &&& match default {
                Some(d) => widths_fit(*d),
                None => true,
            }
        },
        FieldType::Bitfield(ranges) => storage_of(total_width(ranges@)) is Some,
    }
}

/// The tree resolves: every check of resolution passes.
pub open spec fn valid(m: CodeMappings, ft: FieldType) -> bool {
    &&& all_known(m, ft)
    &&& keys_distinct(ft)
    &&& names_distinct(ft)
    &&& widths_fit(ft)
}

/// `rt` is the resolution of `ft`: the same shape, with each primitive
/// replaced by its target type and each name kept in place and order.
pub open spec fn shaped(m: CodeMappings, ft: FieldType, rt: ResolvedType) -> bool
    decreases ft,
{
    match ft {
        FieldType::Primitive(n) => match rt {
            ResolvedType::Named(t) => m.knows(n@) && t@ == m.target_of(n@),
            _ => false,
        },
        FieldType::Array(e, len) => match rt {
            ResolvedType::Array(re, rlen) => rlen == len && shaped(m, *e, *re),
            _ => false,
        },
        FieldType::Container(fields) => match rt {
            ResolvedType::Record(rfields) => {
                &&& rfields.len() == fields.len()
                &&& forall|i: int|
                    0 <= i < fields.len() ==> {
                        &&& (#[trigger] rfields@[i]).name@ == fields@[i].name@
                        &&& shaped(m, fields@[i].field_type, rfields@[i].resolved)
                    }
            },
            _ => false,
        },
        FieldType::Optional(e) => match rt {
            ResolvedType::Optional(re) => shaped(m, *e, *re),
            _ => false,
        },
        FieldType::Switch { compare_to, cases, default } => match rt {
            ResolvedType::Union { key, cases: rcases, default: rdefault } => {
                &&& key@ == compare_to@
                &&& rcases.len() == cases.len()
                &&& forall|i: int|
                    0 <= i < cases.len() ==> {
                        &&& (#[trigger] rcases@[i]).key@ == cases@[i].key@
                        &&& shaped(m, cases@[i].field_type, rcases@[i].resolved)
                    }
                &&& match default {
                    Some(d) => rdefault matches Some(rd) && shaped(m, *d, *rd),
                    None => rdefault is None,
                }
            },
            _ => false,
        },
        FieldType::Bitfield(ranges) => match rt {
            ResolvedType::Bits { storage, names } => {
                &&& storage_of(total_width(ranges@)) == Some(storage@)
                &&& views(names@) == range_names(ranges@)
            },
            _ => false,
        },
    }
}

/// The imports that the resolution of `ft` needs, in order of first use.
pub open spec fn imports(m: CodeMappings, ft: FieldType) -> Seq<Seq<char>>
    decreases ft,
{
    match ft {
        FieldType::Primitive(n) => m.imports_of(n@),
        FieldType::Array(e, _) => imports(m, *e),
        FieldType::Container(fields) => fields_imports(m, fields, fields.len() as int),
        FieldType::Optional(e) => imports(m, *e),
        FieldType::Switch { compare_to, cases, default } => add_all(
            cases_imports(m, cases, cases.len() as int),
            match default {
                Some(d) => imports(m, *d),
                None => Seq::empty(),
            },
        ),
        FieldType::Bitfield(_) => Seq::empty(),
    }
}

/// The imports of the first `n` fields, in order of first use.
pub open spec fn fields_imports(m: CodeMappings, fields: Vec<RawField>, n: int) -> Seq<Seq<char>>
    decreases fields, n,
{
    if n <= 0 || n > fields.len() {
        Seq::empty()
    } else {
        add_all(fields_imports(m, fields, n - 1), imports(m, fields@[n - 1].field_type))
    }
}

/// The imports of the first `n` switch variants, in order of first use.
pub open spec fn cases_imports(m: CodeMappings, cases: Vec<SwitchCase>, n: int) -> Seq<Seq<char>>
    decreases cases, n,
{
    if n <= 0 || n > cases.len() {
        Seq::empty()
    } else {
        add_all(cases_imports(m, cases, n - 1), imports(m, cases@[n - 1].field_type))
    }
}

/// What went wrong while resolving a field type.
#[derive(Debug)]
pub enum ErrorKind {
    /// A primitive type name that the mapping table does not know.
    UnknownType(String),
    /// A switch declares two variants for this discriminant value.
    DuplicateDiscriminant(String),
    /// A bitfield's widths add up to more than any storage type holds.
    BitfieldTooWide,
    /// Two fields of a container, or two packets of a group, share this
    /// normalized name.
    NameCollision(String),
}

impl ErrorKind {
    /// The error is a violation of the schema's structural grammar.
    pub fn is_schema_format(&self) -> (r: bool)
        ensures
            r == (self is DuplicateDiscriminant || self is BitfieldTooWide),
    {
        match self {
            ErrorKind::DuplicateDiscriminant(_) => true,
            ErrorKind::BitfieldTooWide => true,
            _ => false,
        }
    }
}

/// A resolution error and the names of the fields that lead to it, outermost first.
#[derive(Debug)]
pub struct Fault {
    pub kind: ErrorKind,
    pub path: Vec<String>,
}

/// The error `kind` is one that `ft` gives cause for.
pub open spec fn explains(m: CodeMappings, kind: ErrorKind, ft: FieldType) -> bool {
    match kind {
        ErrorKind::UnknownType(n) => !m.knows(n@) && !all_known(m, ft),
        ErrorKind::DuplicateDiscriminant(_) => !keys_distinct(ft),
        ErrorKind::BitfieldTooWide => !widths_fit(ft),
        ErrorKind::NameCollision(_) => !names_distinct(ft),
    }
}

/// What resolving `ft` against `m` returns: a resolution of the same shape
/// with the imports it needs exactly when the tree is valid, and otherwise
/// an error that the tree gives cause for.
pub open spec fn resolve_post(
    m: CodeMappings,
    ft: FieldType,
    r: Result<(ResolvedType, Vec<String>), Fault>,
) -> bool {
    &&& (r is Ok <==> valid(m, ft))
    &&& (r matches Ok((rt, imps)) ==> shaped(m, ft, rt) && views(imps@) == imports(m, ft))
    &&& (r matches Err(f) ==> explains(m, f.kind, ft))
}

proof fn lemma_total_width_prefix(s: Seq<BitRange>, i: int)
    requires
        0 <= i <= s.len(),
    ensures
        total_width(s.take(i)) <= total_width(s),
    decreases s.len(),
{
    if i < s.len() {
        assert(s.drop_last().take(i) =~= s.take(i));
        lemma_total_width_prefix(s.drop_last(), i);
    } else {
        assert(s.take(i) =~= s);
    }
}

/// Adds to `acc` each string of `new` that it does not hold yet, in order.
pub fn merge_imports(acc: &mut Vec<String>, new: &Vec<String>)
    ensures
        views(final(acc)@) == add_all(views(old(acc)@), views(new@)),
{
    let ghost start = views(acc@);
    let mut i: usize = 0;
    assert(views(new@).skip(0) =~= views(new@));
    while i < new.len()
        invariant
            0 <= i <= new.len(),
            add_all(views(acc@), views(new@).skip(i as int)) == add_all(start, views(new@)),
        decreases new.len() - i,
    {
        let ghost before = views(acc@);
        let mut found = false;
        let mut j: usize = 0;
        while j < acc.len()
            invariant
                0 <= j <= acc.len(),
                i < new.len(),
                found <==> exists|k: int| 0 <= k < j && acc@[k]@ == new@[i as int]@,
            decreases acc.len() - j,
        {
            if acc[j] == new[i] {
                found = true;
            }
            j = j + 1;
        }
        proof {
            let rest = views(new@).skip(i as int);
            assert(rest[0] == new@[i as int]@);
            assert(rest.drop_first() =~= views(new@).skip(i + 1));
            if found {
                let k = choose|k: int| 0 <= k < acc.len() && acc@[k]@ == new@[i as int]@;
                assert(before[k] == new@[i as int]@);
            } else {
                assert forall|k: int| 0 <= k < before.len() implies before[k] != new@[i as int]@ by {
                    assert(before[k] == acc@[k]@);
                }
            }
        }
        if !found {
            acc.push(new[i].clone());
            proof {
                assert(views(acc@) =~= before.push(new@[i as int]@));
            }
        }
        i = i + 1;
    }
    assert(views(new@).skip(new.len() as int) =~= Seq::<Seq<char>>::empty());
}

fn key_list(cases: &Vec<SwitchCase>) -> (r: Vec<String>)
    ensures
        views(r@) == case_keys(cases@),
{
    let mut keys: Vec<String> = Vec::new();
    let mut i: usize = 0;
    while i < cases.len()
        invariant
            0 <= i <= cases.len(),
            keys.len() == i,
            forall|k: int| 0 <= k < i ==> (#[trigger] keys@[k])@ == cases@[k].key@,
        decreases cases.len() - i,
    {
        keys.push(cases[i].key.clone());
        i = i + 1;
    }
    assert(views(keys@) =~= case_keys(cases@));
    keys
}

fn normalized_field_names(fields: &Vec<RawField>) -> (r: Vec<String>)
    ensures
        views(r@) == snake_names(field_names(fields@)),
{
    let mut names: Vec<String> = Vec::new();
    let mut i: usize = 0;
    while i < fields.len()
        invariant
            0 <= i <= fields.len(),
            names.len() == i,
            forall|k: int| 0 <= k < i ==> (#[trigger] names@[k])@ == snake_of(fields@[k].name@),
        decreases fields.len() - i,
    {
        names.push(field_name(fields[i].name.as_str()));
        i = i + 1;
    }
    assert(views(names@) =~= snake_names(field_names(fields@)));
    names
}

/// Resolves a field type against the table, recursively.
pub fn resolve_type(m: &CodeMappings, ft: &FieldType) -> (r: Result<
    (ResolvedType, Vec<String>),
    Fault,
>)
    ensures
        resolve_post(*m, *ft, r),
    decreases ft,
{
    match ft {
        FieldType::Primitive(n) => match m.lookup(n) {
            Some(i) => {
                let entry = &m.entries[i];
                let mut imps: Vec<String> = Vec::new();
                if !entry.import.as_str().is_empty() {
                    imps.push(entry.import.clone());
                }
                proof {
                    assert(views(imps@) =~= m.imports_of(n@));
                }
                Ok((ResolvedType::Named(entry.target.clone()), imps))
            },
            None => Err(Fault { kind: ErrorKind::UnknownType(n.clone()), path: Vec::new() }),
        },
        FieldType::Array(e, len) => match resolve_type(m, e) {
            Ok((rt, imps)) => Ok((ResolvedType::Array(Box::new(rt), len.copy()), imps)),
            Err(f) => Err(f),
        },
        FieldType::Container(fields) => match resolve_fields(m, fields) {
            Ok((rfields, imps)) => Ok((ResolvedType::Record(rfields), imps)),
            Err(f) => Err(f),
        },
        FieldType::Optional(e) => match resolve_type(m, e) {
            Ok((rt, imps)) => Ok((ResolvedType::Optional(Box::new(rt)), imps)),
            Err(f) => Err(f),
        },
        FieldType::Switch { compare_to, cases, default } => {
            let keys = key_list(cases);
            if let Some((_, j)) = first_duplicate(&keys) {
                return Err(
                    Fault {
                        kind: ErrorKind::DuplicateDiscriminant(keys[j].clone()),
                        path: Vec::new(),
                    },
                );
            }
            let (rcases, mut imps) = match resolve_cases(m, cases) {
                Ok(x) => x,
                Err(f) => {
                    proof {
                        let k = choose|k: int|
                            0 <= k < cases.len() && explains(
                                *m,
                                f.kind,
                                #[trigger] cases@[k].field_type,
                            );
                        assert(explains(*m, f.kind, cases@[k].field_type));
                    }
                    return Err(f);
                },
            };
            let rdefault = match default {
                Some(d) => match resolve_type(m, d) {
                    Ok((rd, dimps)) => {
                        merge_imports(&mut imps, &dimps);
                        Some(Box::new(rd))
                    },
                    Err(f) => {
                        return Err(f);
                    },
                },
                None => {
                    proof {
                        assert(add_all(views(imps@), Seq::empty()) == views(imps@));
                    }
                    None
                },
            };
            let union = ResolvedType::Union {
                key: compare_to.clone(),
                cases: rcases,
                default: rdefault,
            };
            Ok((union, imps))
        },
        FieldType::Bitfield(ranges) => resolve_bitfield(m, ranges),
    }
}

fn resolve_bitfield(m: &CodeMappings, ranges: &Vec<BitRange>) -> (r: Result<(ResolvedType, Vec<String>), Fault>)
    ensures
        resolve_post(*m, FieldType::Bitfield(*ranges), r),
{
    let mut total: u64 = 0;
    let mut names: Vec<String> = Vec::new();
    let mut i: usize = 0;
    while i < ranges.len()
        invariant
            0 <= i <= ranges.len(),
            total as int == total_width(ranges@.take(i as int)),
            total <= 64,
            names.len() == i,
            forall|k: int| 0 <= k < i ==> (#[trigger] names@[k])@ == ranges@[k].name@,
        decreases ranges.len() - i,
    {
        assert(ranges@.take(i + 1).drop_last() =~= ranges@.take(i as int));
        if ranges[i].width > 64 - total {
            proof {
                lemma_total_width_prefix(ranges@, i + 1);
            }
            return Err(Fault { kind: ErrorKind::BitfieldTooWide, path: Vec::new() });
        }
        total = total + ranges[i].width;
        names.push(ranges[i].name.clone());
        i = i + 1;
    }
    assert(ranges@.take(ranges.len() as int) =~= ranges@);
    assert(views(names@) =~= range_names(ranges@));
    match CodeMappings::bitfield_storage(total) {
        Some(storage) => {
            let imps: Vec<String> = Vec::new();
            assert(views(imps@) =~= Seq::<Seq<char>>::empty());
            Ok((ResolvedType::Bits { storage, names }, imps))
        },
        None => Err(Fault { kind: ErrorKind::BitfieldTooWide, path: Vec::new() }),
    }
}

/// Resolves the fields of a container in order: the record's fields keep
/// the raw names and order, and the imports are merged in order of first use.
pub fn resolve_fields(m: &CodeMappings, fields: &Vec<RawField>) -> (r: Result<
    (Vec<ResolvedField>, Vec<String>),
    Fault,
>)
    ensures
        (r is Ok <==> valid(*m, FieldType::Container(*fields))),
        r matches Ok((rfields, imps)) ==> {
            &&& shaped(*m, FieldType::Container(*fields), ResolvedType::Record(rfields))
            &&& views(imps@) == imports(*m, FieldType::Container(*fields))
        },
        r matches Err(f) ==> explains(*m, f.kind, FieldType::Container(*fields)),
    decreases fields,
{
    let names = normalized_field_names(fields);
    if let Some((_, j)) = first_duplicate(&names) {
        return Err(Fault { kind: ErrorKind::NameCollision(names[j].clone()), path: Vec::new() });
    }
    let mut rfields: Vec<ResolvedField> = Vec::new();
    let mut imps: Vec<String> = Vec::new();
    let mut i: usize = 0;
    while i < fields.len()
        invariant
            0 <= i <= fields.len(),
            rfields.len() == i,
            forall|k: int|
                0 <= k < i ==> {
                    &&& (#[trigger] rfields@[k]).name@ == fields@[k].name@
                    &&& shaped(*m, fields@[k].field_type, rfields@[k].resolved)
                    &&& valid(*m, fields@[k].field_type)
                },
            views(imps@) == fields_imports(*m, *fields, i as int),
        decreases fields.len() - i,
    {
        match resolve_type(m, &fields[i].field_type) {
            Ok((rt, timps)) => {
                merge_imports(&mut imps, &timps);
                rfields.push(ResolvedField { name: fields[i].name.clone(), resolved: rt });
            },
            Err(f) => {
                let mut f = f;
                f.path.insert(0, fields[i].name.clone());
                return Err(f);
            },
        }
        i = i + 1;
    }
    proof {
        assert forall|k: int| 0 <= k < fields.len() implies valid(*m, #[trigger] fields@[k].field_type) by {
            assert(rfields@[k].name@ == fields@[k].name@);
        }
    }
    Ok((rfields, imps))
}

/// Resolves the variants of a switch in order.
pub fn resolve_cases(m: &CodeMappings, cases: &Vec<SwitchCase>) -> (r: Result<
    (Vec<ResolvedCase>, Vec<String>),
    Fault,
>)
    ensures
        (r is Ok <==> forall|k: int| 0 <= k < cases.len() ==> valid(*m, #[trigger] cases@[k].field_type)),
        r matches Ok((rcases, imps)) ==> {
            &&& rcases.len() == cases.len()
            &&& forall|k: int|
                0 <= k < cases.len() ==> {
                    &&& (#[trigger] rcases@[k]).key@ == cases@[k].key@
                    &&& shaped(*m, cases@[k].field_type, rcases@[k].resolved)
                }
            &&& views(imps@) == cases_imports(*m, *cases, cases.len() as int)
        },
        r matches Err(f) ==> exists|k: int|
            0 <= k < cases.len() && explains(*m, f.kind, #[trigger] cases@[k].field_type),
    decreases cases,
{
    let mut rcases: Vec<ResolvedCase> = Vec::new();
    let mut imps: Vec<String> = Vec::new();
    let mut i: usize = 0;
    while i < cases.len()
        invariant
            0 <= i <= cases.len(),
            rcases.len() == i,
            forall|k: int|
                0 <= k < i ==> {
                    &&& (#[trigger] rcases@[k]).key@ == cases@[k].key@
                    &&& shaped(*m, cases@[k].field_type, rcases@[k].resolved)
                    &&& valid(*m, cases@[k].field_type)
                },
            views(imps@) == cases_imports(*m, *cases, i as int),
        decreases cases.len() - i,
    {
        match resolve_type(m, &cases[i].field_type) {
            Ok((rt, timps)) => {
                merge_imports(&mut imps, &timps);
                rcases.push(ResolvedCase { key: cases[i].key.clone(), resolved: rt });
            },
            Err(f) => {
                let mut f = f;
                f.path.insert(0, cases[i].key.clone());
                return Err(f);
            },
        }
        i = i + 1;
    }
    proof {
        assert forall|k: int| 0 <= k < cases.len() implies valid(*m, #[trigger] cases@[k].field_type) by {
            assert(rcases@[k].key@ == cases@[k].key@);
        }
    }
    Ok((rcases, imps))
}

/// The normalized type names of a list of packets.
pub open spec fn packet_names(packets: Seq<RawPacket>) -> Seq<Seq<char>> {
    packets.map_values(|p: RawPacket| camel_of(p.name@))
}

/// The body of a packet as a field type: a container of its fields.
pub open spec fn body(p: RawPacket) -> FieldType {
    FieldType::Container(p.fields)
}

/// A group resolves: its normalized packet names are distinct and every
/// packet body is valid.
pub open spec fn group_valid(m: CodeMappings, packets: Seq<RawPacket>) -> bool {
    &&& all_distinct(packet_names(packets))
    &&& forall|k: int| 0 <= k < packets.len() ==> valid(m, body(#[trigger] packets[k]))
}

/// `p` is the resolution of the raw packet at position `k` of its group.
pub open spec fn packet_resolved(m: CodeMappings, raw: RawPacket, p: Packet, k: int) -> bool {
    &&& p.id == k
    &&& p.name@ == camel_of(raw.name@)
    &&& shaped(m, body(raw), ResolvedType::Record(p.fields))
}

/// `out` resolves `packets` one for one, in the declared order.
pub open spec fn group_resolved(m: CodeMappings, packets: Seq<RawPacket>, out: Seq<Packet>) -> bool {
    &&& out.len() == packets.len()
    &&& forall|k: int| 0 <= k < packets.len() ==> packet_resolved(m, packets[k], #[trigger] out[k], k)
}

/// `acc` extended with the imports of the first `n` packets, in order of first use.
pub open spec fn group_imports(
    m: CodeMappings,
    acc: Seq<Seq<char>>,
    packets: Seq<RawPacket>,
    n: int,
) -> Seq<Seq<char>>
    decreases n,
{
    if n <= 0 || n > packets.len() {
        acc
    } else {
        add_all(group_imports(m, acc, packets, n - 1), imports(m, body(packets[n - 1])))
    }
}

/// The imports of a phase: server-bound packets first, then client-bound.
pub open spec fn phase_imports(m: CodeMappings, phase: RawPhase) -> Seq<Seq<char>> {
    let server = group_imports(m, Seq::empty(), phase.server_bound@, phase.server_bound.len() as int);
    group_imports(m, server, phase.client_bound@, phase.client_bound.len() as int)
}

/// The error `kind` is one that the group gives cause for.
pub open spec fn group_explains(m: CodeMappings, kind: ErrorKind, packets: Seq<RawPacket>) -> bool {
    ||| (kind is NameCollision && !all_distinct(packet_names(packets)))
    ||| exists|k: int| 0 <= k < packets.len() && explains(m, kind, body(#[trigger] packets[k]))
}

/// An error of the transformation, with the phase, packet and field path
/// that locate it.
#[derive(Debug)]
pub struct TransformError {
    pub state: State,
    pub packet: String,
    pub path: Vec<String>,
    pub kind: ErrorKind,
}

fn packet_name_list(packets: &Vec<RawPacket>) -> (r: Vec<String>)
    ensures
        views(r@) == packet_names(packets@),
{
    let mut names: Vec<String> = Vec::new();
    let mut i: usize = 0;
    while i < packets.len()
        invariant
            0 <= i <= packets.len(),
            names.len() == i,
            forall|k: int| 0 <= k < i ==> (#[trigger] names@[k])@ == camel_of(packets@[k].name@),
        decreases packets.len() - i,
    {
        names.push(packet_type_name(packets[i].name.as_str()));
        i = i + 1;
    }
    assert(views(names@) =~= packet_names(packets@));
    names
}

/// Resolves one (phase, direction) group: the packet at position `k` gets
/// wire id `k`, and the imports of its fields are merged into `imps`.
pub fn transform_group(
    m: &CodeMappings,
    state: State,
    packets: &Vec<RawPacket>,
    imps: &mut Vec<String>,
) -> (r: Result<Vec<Packet>, TransformError>)
    ensures
        (r is Ok <==> group_valid(*m, packets@)),
        r matches Ok(out) ==> {
            &&& group_resolved(*m, packets@, out@)
            &&& views(final(imps)@) == group_imports(*m, views(old(imps)@), packets@, packets.len() as int)
        },
        r matches Err(e) ==> e.state == state && group_explains(*m, e.kind, packets@),
{
    let names = packet_name_list(packets);
    if let Some((_, j)) = first_duplicate(&names) {
        return Err(
            TransformError {
                state,
                packet: packets[j].name.clone(),
                path: Vec::new(),
                kind: ErrorKind::NameCollision(names[j].clone()),
            },
        );
    }
    let ghost start = views(imps@);
    assert(views(names@).len() == names.len());
    let mut out: Vec<Packet> = Vec::new();
    let mut i: usize = 0;
    while i < packets.len()
        invariant
            0 <= i <= packets.len(),
            out.len() == i,
            forall|k: int|
                0 <= k < i ==> {
                    &&& packet_resolved(*m, packets@[k], #[trigger] out@[k], k)
                    &&& valid(*m, body(packets@[k]))
                },
            views(imps@) == group_imports(*m, start, packets@, i as int),
            names.len() == packets.len(),
            views(names@) == packet_names(packets@),
        decreases packets.len() - i,
    {
        assert(views(names@)[i as int] == names@[i as int]@);
        match resolve_fields(m, &packets[i].fields) {
            Ok((fields, pimps)) => {
                merge_imports(imps, &pimps);
                out.push(Packet { id: i as u64, name: names[i].clone(), fields });
            },
            Err(f) => {
                return Err(
                    TransformError {
                        state,
                        packet: packets[i].name.clone(),
                        path: f.path,
                        kind: f.kind,
                    },
                );
            },
        }
        i = i + 1;
    }
    proof {
        assert forall|k: int| 0 <= k < packets.len() implies valid(*m, body(#[trigger] packets@[k])) by {
            assert(packet_resolved(*m, packets@[k], out@[k], k));
        }
    }
    Ok(out)
}

/// Both groups of the phase resolve.
pub open spec fn phase_valid(m: CodeMappings, phase: RawPhase) -> bool {
    group_valid(m, phase.server_bound@) && group_valid(m, phase.client_bound@)
}

/// What transforming `phase` as phase `state` returns: a record exactly when
/// both groups resolve, holding both groups resolved in declared order and
/// the phase's imports; otherwise an error that one of the groups gives
/// cause for.
pub open spec fn transform_post(
    m: CodeMappings,
    state: State,
    phase: RawPhase,
    r: Result<Protocol, TransformError>,
) -> bool {
    &&& (r is Ok <==> phase_valid(m, phase))
    &&& (r matches Ok(p) ==> {
        &&& p.state == state
        &&& group_resolved(m, phase.server_bound@, p.server_bound_packets@)
        &&& group_resolved(m, phase.client_bound@, p.client_bound_packets@)
        &&& views(p.imports@) == phase_imports(m, phase)
    })
    &&& (r matches Err(e) ==> {
        &&& e.state == state
        &&& group_explains(m, e.kind, phase.server_bound@) || group_explains(
            m,
            e.kind,
            phase.client_bound@,
        )
    })
}

/// Transforms the packets of one phase into its protocol record: both
/// groups in declared order with wire ids from their positions, and the
/// imports of every field, deduplicated in order of first use.
pub fn transform_protocol(m: &CodeMappings, state: State, phase: &RawPhase) -> (r: Result<
    Protocol,
    TransformError,
>)
    ensures
        transform_post(*m, state, *phase, r),
{
    let mut imps: Vec<String> = Vec::new();
    assert(views(imps@) =~= Seq::<Seq<char>>::empty());
    let server = match transform_group(m, state, &phase.server_bound, &mut imps) {
        Ok(out) => out,
        Err(e) => {
            return Err(e);
        },
    };
    let client = match transform_group(m, state, &phase.client_bound, &mut imps) {
        Ok(out) => out,
        Err(e) => {
            return Err(e);
        },
    };
    Ok(Protocol { state, server_bound_packets: server, client_bound_packets: client, imports: imps })
}

/// Transforms every phase of the schema, in the order handshake, status,
/// login, game, stopping at the first phase that fails.
pub fn transform_all(m: &CodeMappings, schema: &RawProtocol) -> (r: Result<Vec<Protocol>, TransformError>)
    ensures
        r matches Ok(ps) ==> {
            &&& ps.len() == 4
            &&& transform_post(*m, State::Handshake, schema.handshaking, Ok(ps[0]))
            &&& transform_post(*m, State::Status, schema.status, Ok(ps[1]))
            &&& transform_post(*m, State::Login, schema.login, Ok(ps[2]))
            &&& transform_post(*m, State::Game, schema.game, Ok(ps[3]))
        },
        r matches Err(e) ==> {
            ||| transform_post(*m, State::Handshake, schema.handshaking, Err(e))
            ||| transform_post(*m, State::Status, schema.status, Err(e))
            ||| transform_post(*m, State::Login, schema.login, Err(e))
            ||| transform_post(*m, State::Game, schema.game, Err(e))
        },
        r is Ok <==> {
            &&& phase_valid(*m, schema.handshaking)
            &&& phase_valid(*m, schema.status)
            &&& phase_valid(*m, schema.login)
            &&& phase_valid(*m, schema.game)
        },
{
    let mut out: Vec<Protocol> = Vec::new();
    match transform_protocol(m, State::Handshake, &schema.handshaking) {
        Ok(p) => out.push(p),
        Err(e) => {
            return Err(e);
        },
    }
    match transform_protocol(m, State::Status, &schema.status) {
        Ok(p) => out.push(p),
        Err(e) => {
            return Err(e);
        },
    }
    match transform_protocol(m, State::Login, &schema.login) {
        Ok(p) => out.push(p),
        Err(e) => {
            return Err(e);
        },
    }
    match transform_protocol(m, State::Game, &schema.game) {
        Ok(p) => out.push(p),
        Err(e) => {
            return Err(e);
        },
    }
    Ok(out)
}

} // verus!
