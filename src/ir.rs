//! The resolved form of a protocol: what code emission consumes.
use vstd::prelude::*;
use crate::schema::{ArrayLength, State};

verus! {

/// A field type after resolution against the mapping table.
#[derive(Debug)]
pub enum ResolvedType {
    /// A target type named by the mapping table.
    Named(String),
    /// Elements of a resolved type, with the length policy of the schema.
    Array(Box<ResolvedType>, ArrayLength),
    /// A nested record of named, resolved fields.
    Record(Vec<ResolvedField>),
    /// A value that may be absent.
    Optional(Box<ResolvedType>),
    /// A tagged union keyed by the sibling field `key`.
    Union { key: String, cases: Vec<ResolvedCase>, default: Option<Box<ResolvedType>> },
    /// A bitfield stored in `storage`, with its range names in order.
    Bits { storage: String, names: Vec<String> },
}

/// A named field with its resolved type.
#[derive(Debug)]
pub struct ResolvedField {
    pub name: String,
    pub resolved: ResolvedType,
}

/// One variant of a resolved union.
#[derive(Debug)]
pub struct ResolvedCase {
    pub key: String,
    pub resolved: ResolvedType,
}

/// A resolved packet: its wire id, type name and fields.
#[derive(Debug)]
pub struct Packet {
    pub id: u64,
    pub name: String,
    pub fields: Vec<ResolvedField>,
}

/// The resolved packets of one phase and the imports their fields need.
#[derive(Debug)]
pub struct Protocol {
    pub state: State,
    pub server_bound_packets: Vec<Packet>,
    pub client_bound_packets: Vec<Packet>,
    pub imports: Vec<String>,
}

impl ArrayLength {
    /// An equal copy of the length policy.
    pub fn copy(&self) -> (r: ArrayLength)
        ensures
            r == *self,
    {
        match self {
            ArrayLength::Fixed(n) => ArrayLength::Fixed(*n),
            ArrayLength::FromField(s) => ArrayLength::FromField(s.clone()),
            ArrayLength::Prefixed(s) => ArrayLength::Prefixed(s.clone()),
            ArrayLength::Rest => ArrayLength::Rest,
        }
    }
}

} // verus!
