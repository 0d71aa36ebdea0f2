//! Properties that hold of every transformation, stated over the contracts
//! of the resolving functions.
use vstd::prelude::*;
use crate::ir::{Protocol, ResolvedField, ResolvedType};
use crate::mappings::CodeMappings;
use crate::naming::views;
use crate::schema::{
    all_distinct, case_keys, field_names, keys_distinct, FieldType, RawField, RawPhase, State,
};
use crate::transformer::{
    add_all, all_known, body, group_imports, phase_imports, resolve_post, transform_post,
    TransformError,
};

verus! {

/// The names of a list of resolved fields, in order.
pub open spec fn resolved_names(fields: Seq<ResolvedField>) -> Seq<Seq<char>> {
    fields.map_values(|f: ResolvedField| f.name@)
}

/// The wire id of the packet at position `k` of its declared group is `k`,
/// whatever the packets' names or fields.
pub proof fn wire_id_is_position(m: CodeMappings, state: State, phase: RawPhase, p: Protocol, k: int)
    requires
        transform_post(m, state, phase, Ok(p)),
    ensures
        0 <= k < phase.server_bound.len() ==> p.server_bound_packets@[k].id == k,
        0 <= k < phase.client_bound.len() ==> p.client_bound_packets@[k].id == k,
{
    if 0 <= k < phase.server_bound.len() {
        assert(crate::transformer::packet_resolved(
            m,
            phase.server_bound@[k],
            p.server_bound_packets@[k],
            k,
        ));
    }
    if 0 <= k < phase.client_bound.len() {
        assert(crate::transformer::packet_resolved(
            m,
            phase.client_bound@[k],
            p.client_bound_packets@[k],
            k,
        ));
    }
}

/// When the table knows every primitive type name of a phase, transforming
/// the phase never fails for an unknown type.
pub proof fn known_types_never_unknown(
    m: CodeMappings,
    state: State,
    phase: RawPhase,
    r: Result<Protocol, TransformError>,
)
    requires
        transform_post(m, state, phase, r),
        forall|k: int| 0 <= k < phase.server_bound.len() ==> all_known(m, body(#[trigger] phase.server_bound@[k])),
        forall|k: int| 0 <= k < phase.client_bound.len() ==> all_known(m, body(#[trigger] phase.client_bound@[k])),
    ensures
        !(r matches Err(e) && e.kind is UnknownType),
{
}

proof fn lemma_add_all_distinct(acc: Seq<Seq<char>>, s: Seq<Seq<char>>)
    requires
        all_distinct(acc),
    ensures
        all_distinct(add_all(acc, s)),
    decreases s.len(),
{
    if s.len() > 0 {
        let next = if acc.contains(s[0]) {
            acc
        } else {
            acc.push(s[0])
        };
        if !acc.contains(s[0]) {
            assert forall|i: int, j: int| 0 <= i < j < next.len() implies next[i] != next[j] by {
                if j == acc.len() {
                    assert(acc[i] == next[i]);
                }
            }
        }
        lemma_add_all_distinct(next, s.drop_first());
    }
}

proof fn lemma_group_imports_distinct(
    m: CodeMappings,
    acc: Seq<Seq<char>>,
    packets: Seq<crate::schema::RawPacket>,
    n: int,
)
    requires
        all_distinct(acc),
    ensures
        all_distinct(group_imports(m, acc, packets, n)),
    decreases n,
{
    if 0 < n <= packets.len() {
        lemma_group_imports_distinct(m, acc, packets, n - 1);
        lemma_add_all_distinct(
            group_imports(m, acc, packets, n - 1),
            crate::transformer::imports(m, body(packets[n - 1])),
        );
    }
}

/// Two transformations of one phase agree: both succeed or both fail, and
/// on success their import lists are the same list, in the same order,
/// with no import twice.
pub proof fn imports_deterministic(
    m: CodeMappings,
    state: State,
    phase: RawPhase,
    r1: Result<Protocol, TransformError>,
    r2: Result<Protocol, TransformError>,
)
    requires
        transform_post(m, state, phase, r1),
        transform_post(m, state, phase, r2),
    ensures
        r1 is Ok <==> r2 is Ok,
        r1 is Ok && r2 is Ok ==> {
            &&& views(r1->Ok_0.imports@) == views(r2->Ok_0.imports@)
            &&& all_distinct(views(r1->Ok_0.imports@))
        },
{
    let empty = Seq::<Seq<char>>::empty();
    lemma_group_imports_distinct(m, empty, phase.server_bound@, phase.server_bound.len() as int);
    lemma_group_imports_distinct(
        m,
        group_imports(m, empty, phase.server_bound@, phase.server_bound.len() as int),
        phase.client_bound@,
        phase.client_bound.len() as int,
    );
    assert(phase_imports(m, phase) == group_imports(
        m,
        group_imports(m, empty, phase.server_bound@, phase.server_bound.len() as int),
        phase.client_bound@,
        phase.client_bound.len() as int,
    ));
}

/// A switch with two variants for one discriminant value never resolves.
pub proof fn duplicate_discriminant_fails(
    m: CodeMappings,
    ft: FieldType,
    r: Result<(ResolvedType, Vec<String>), crate::transformer::Fault>,
    i: int,
    j: int,
)
    requires
        resolve_post(m, ft, r),
        ft matches FieldType::Switch { cases, .. } && 0 <= i < j < cases.len() && cases@[i].key@
            == cases@[j].key@,
    ensures
        r is Err,
{
    if let FieldType::Switch { cases, .. } = ft {
        assert(case_keys(cases@)[i] == case_keys(cases@)[j]);
    }
}

/// A phase in which some packet holds a switch with two variants for one
/// discriminant value never transforms.
pub proof fn duplicate_discriminant_fails_phase(
    m: CodeMappings,
    state: State,
    phase: RawPhase,
    r: Result<Protocol, TransformError>,
    k: int,
)
    requires
        transform_post(m, state, phase, r),
        (0 <= k < phase.server_bound.len() && !keys_distinct(body(phase.server_bound@[k])))
            || (0 <= k < phase.client_bound.len() && !keys_distinct(body(phase.client_bound@[k]))),
    ensures
        r is Err,
{
}

/// Resolving a container keeps its field names, in the declared order.
pub proof fn container_names_kept(
    m: CodeMappings,
    fields: Vec<RawField>,
    r: Result<(ResolvedType, Vec<String>), crate::transformer::Fault>,
)
    requires
        resolve_post(m, FieldType::Container(fields), r),
        r is Ok,
    ensures
        r->Ok_0.0 matches ResolvedType::Record(rfields) && resolved_names(rfields@) == field_names(
            fields@,
        ),
{
    if let ResolvedType::Record(rfields) = r->Ok_0.0 {
        assert(resolved_names(rfields@) =~= field_names(fields@));
    }
}

} // verus!
