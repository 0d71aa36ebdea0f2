//! What code emission needs beyond the resolved records: the names of the
//! generated items and each file's import list.
use vstd::prelude::*;
use vstd::string::StringExecFns;
use crate::ir::Protocol;
use crate::naming::views;
use crate::schema::{Bound, State};
use crate::transformer::add_all;

verus! {

/// The name of a phase as it appears in generated type names.
pub open spec fn state_name(s: State) -> Seq<char> {
    match s {
        State::Handshake => "Handshake"@,
        State::Status => "Status"@,
        State::Login => "Login"@,
        State::Game => "Game"@,
    }
}

/// The name of a phase as it appears in generated module names.
pub open spec fn state_module(s: State) -> Seq<char> {
    match s {
        State::Handshake => "handshake"@,
        State::Status => "status"@,
        State::Login => "login"@,
        State::Game => "game"@,
    }
}

/// The name of a direction as it appears in generated type names.
pub open spec fn bound_name(b: Bound) -> Seq<char> {
    match b {
        Bound::Server => "Server"@,
        Bound::Client => "Client"@,
    }
}

/// The imports that every generated file starts with.
pub open spec fn baseline_imports() -> Seq<Seq<char>> {
    seq![
        "crate::DecodeError"@,
        "crate::Decoder"@,
        "std::io::Read"@,
        "minecraft_protocol_derive::Packet"@,
    ]
}

impl State {
    /// The phase's name in generated type names.
    pub fn name(&self) -> (r: &'static str)
        ensures
            r@ == state_name(*self),
    {
        match self {
            State::Handshake => "Handshake",
            State::Status => "Status",
            State::Login => "Login",
            State::Game => "Game",
        }
    }

    /// The phase's name in generated module names.
    pub fn module_name(&self) -> (r: &'static str)
        ensures
            r@ == state_module(*self),
    {
        match self {
            State::Handshake => "handshake",
            State::Status => "status",
            State::Login => "login",
            State::Game => "game",
        }
    }
}

impl Bound {
    /// The direction's name in generated type names.
    pub fn name(&self) -> (r: &'static str)
        ensures
            r@ == bound_name(*self),
    {
        match self {
            Bound::Server => "Server",
            Bound::Client => "Client",
        }
    }
}

/// The name of the packet enumeration of one phase and direction, such as
/// `StatusServerBoundPacket`.
pub fn packet_enum_name(state: State, bound: Bound) -> (r: String)
    ensures
        r@ == state_name(state) + bound_name(bound) + "BoundPacket"@,
{
    let mut r = state.name().to_owned();
    r.append(bound.name());
    r.append("BoundPacket");
    r
}

/// The import list of a generated file: the baseline imports, then the
/// protocol's own, each once, in order of first appearance.
pub fn file_imports(protocol: &Protocol) -> (r: Vec<String>)
    ensures
        views(r@) == add_all(baseline_imports(), views(protocol.imports@)),
{
    let mut r: Vec<String> = Vec::new();
    r.push("crate::DecodeError".to_owned());
    r.push("crate::Decoder".to_owned());
    r.push("std::io::Read".to_owned());
    r.push("minecraft_protocol_derive::Packet".to_owned());
    assert(views(r@) =~= baseline_imports());
    crate::transformer::merge_imports(&mut r, &protocol.imports);
    r
}

} // verus!
