//! The schema model: packets as declared, with their raw field-type trees.
use vstd::prelude::*;

verus! {

/// A connection stage during which a fixed packet vocabulary is valid.
#[derive(Clone, Copy, Debug, PartialEq, Eq, Structural)]
pub enum State {
    Handshake,
    Status,
    Login,
    Game,
}

/// Which endpoint originates a packet.
#[derive(Clone, Copy, Debug, PartialEq, Eq, Structural)]
pub enum Bound {
    Server,
    Client,
}

/// How the length of an array is known on the wire.
#[derive(Debug)]
pub enum ArrayLength {
    /// A fixed element count.
    Fixed(u64),
    /// The count is the decoded value of a named sibling field.
    FromField(String),
    /// A count of the given primitive type precedes the elements.
    Prefixed(String),
    /// The elements run to the end of the buffer.
    Rest,
}

/// A named sub-field of a container.
#[derive(Debug)]
pub struct RawField {
    pub name: String,
    pub field_type: FieldType,
}

/// One variant of a switch: the discriminant value and the variant's type.
#[derive(Debug)]
pub struct SwitchCase {
    pub key: String,
    pub field_type: FieldType,
}

/// A named bit range of a bitfield.
#[derive(Debug)]
pub struct BitRange {
    pub name: String,
    pub width: u64,
    pub signed: bool,
}

/// A raw field-type expression as the schema states it.
#[derive(Debug)]
pub enum FieldType {
    /// A named elementary type.
    Primitive(String),
    /// Elements of one type, with a length policy.
    Array(Box<FieldType>, ArrayLength),
    /// An ordered list of named sub-fields.
    Container(Vec<RawField>),
    /// A value present only when a preceding condition holds.
    Optional(Box<FieldType>),
    /// A tagged union over the value of the sibling field `compare_to`.
    Switch { compare_to: String, cases: Vec<SwitchCase>, default: Option<Box<FieldType>> },
    /// Ordered named bit ranges of fixed widths.
    Bitfield(Vec<BitRange>),
}

/// A packet as declared: its position in the list gives its wire id.
#[derive(Debug)]
pub struct RawPacket {
    pub name: String,
    pub fields: Vec<RawField>,
}

/// The packets of one phase, one ordered list per direction.
#[derive(Debug)]
pub struct RawPhase {
    pub server_bound: Vec<RawPacket>,
    pub client_bound: Vec<RawPacket>,
}

/// The whole schema document: one entry per phase.
#[derive(Debug)]
pub struct RawProtocol {
    pub handshaking: RawPhase,
    pub status: RawPhase,
    pub login: RawPhase,
    pub game: RawPhase,
}

/// The names of a list of fields, in order.
pub open spec fn field_names(fields: Seq<RawField>) -> Seq<Seq<char>> {
    fields.map_values(|f: RawField| f.name@)
}

/// The keys of a list of switch cases, in order.
pub open spec fn case_keys(cases: Seq<SwitchCase>) -> Seq<Seq<char>> {
    cases.map_values(|c: SwitchCase| c.key@)
}

/// The names of a list of bit ranges, in order.
pub open spec fn range_names(ranges: Seq<BitRange>) -> Seq<Seq<char>> {
    ranges.map_values(|r: BitRange| r.name@)
}

/// The sum of the widths of a list of bit ranges.
pub open spec fn total_width(ranges: Seq<BitRange>) -> int
    decreases ranges.len(),
{
    if ranges.len() == 0 {
        0
    } else {
        total_width(ranges.drop_last()) + ranges.last().width
    }
}

/// No value occurs twice in `s`.
pub open spec fn all_distinct<A>(s: Seq<A>) -> bool {
    forall|i: int, j: int| 0 <= i < j < s.len() ==> s[i] != s[j]
}

/// Every switch in the tree has pairwise distinct discriminant values.
pub open spec fn keys_distinct(ft: FieldType) -> bool
    decreases ft,
{
    match ft {
        FieldType::Primitive(_) => true,
        FieldType::Array(e, _) => keys_distinct(*e),
        FieldType::Container(fields) => forall|i: int|
            0 <= i < fields.len() ==> keys_distinct(#[trigger] fields@[i].field_type),
        FieldType::Optional(e) => keys_distinct(*e),
        FieldType::Switch { compare_to, cases, default } => {
            &&& all_distinct(case_keys(cases@))
            &&& forall|i: int| 0 <= i < cases.len() ==> keys_distinct(#[trigger] cases@[i].field_type)
            &&& match default {
                Some(d) => keys_distinct(*d),
                None => true,
            }
        },
        FieldType::Bitfield(_) => true,
    }
}

} // verus!
