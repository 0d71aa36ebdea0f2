//! The type mapping table: primitive type names to target types and imports.
use vstd::prelude::*;

verus! {

/// One row of the table: a primitive name, its target type, and the import
/// the target type needs (empty where none is needed).
#[derive(Debug)]
pub struct MappingEntry {
    pub name: String,
    pub target: String,
    pub import: String,
}

/// A read-only table from primitive type names to target types.
#[derive(Debug)]
pub struct CodeMappings {
    pub entries: Vec<MappingEntry>,
}

/// The index of the first name in `names[from..]` equal to `name`, if any.
pub open spec fn first_match(names: Seq<Seq<char>>, name: Seq<char>, from: int) -> Option<int>
    decreases names.len() - from,
{
    if from < 0 || from >= names.len() {
        None
    } else if names[from] == name {
        Some(from)
    } else {
        first_match(names, name, from + 1)
    }
}

/// The imports that a target type needs: none for an empty import.
pub open spec fn import_list(import: Seq<char>) -> Seq<Seq<char>> {
    if import.len() == 0 {
        Seq::empty()
    } else {
        seq![import]
    }
}

/// The storage type of a bitfield of the given total width, if one is wide enough.
pub open spec fn storage_of(total: int) -> Option<Seq<char>> {
    if total <= 8 {
        Some("u8"@)
    } else if total <= 16 {
        Some("u16"@)
    } else if total <= 32 {
        Some("u32"@)
    } else if total <= 64 {
        Some("u64"@)
    } else {
        None
    }
}

impl CodeMappings {
    /// The names of the table's rows, in order.
    pub open spec fn names(&self) -> Seq<Seq<char>> {
        self.entries@.map_values(|e: MappingEntry| e.name@)
    }

    /// The row that governs `name`: the first one with that name.
    pub open spec fn row_of(&self, name: Seq<char>) -> Option<int> {
        first_match(self.names(), name, 0)
    }

    /// The table knows `name`.
    pub open spec fn knows(&self, name: Seq<char>) -> bool {
        self.row_of(name) is Some
    }

    /// The target type of a known name.
    pub open spec fn target_of(&self, name: Seq<char>) -> Seq<char> {
        self.entries@[self.row_of(name)->0].target@
    }

    /// The imports needed by the target type of a known name.
    pub open spec fn imports_of(&self, name: Seq<char>) -> Seq<Seq<char>> {
        import_list(self.entries@[self.row_of(name)->0].import@)
    }

    /// Looks `name` up: the index of the row that governs it, if any.
    pub fn lookup(&self, name: &String) -> (r: Option<usize>)
        ensures
            r is Some <==> self.knows(name@),
            r matches Some(i) ==> i as int == self.row_of(name@)->0 && i < self.entries.len(),
    {
        let mut i: usize = 0;
        while i < self.entries.len()
            invariant
                0 <= i <= self.entries.len(),
                first_match(self.names(), name@, 0) == first_match(self.names(), name@, i as int),
            decreases self.entries.len() - i,
        {
            if self.entries[i].name == *name {
                return Some(i);
            }
            i = i + 1;
        }
        None
    }

    /// The storage type for a bitfield whose widths add up to `total`.
    pub fn bitfield_storage(total: u64) -> (r: Option<String>)
        ensures
            r is Some <==> storage_of(total as int) is Some,
            r matches Some(s) ==> s@ == storage_of(total as int)->0,
    {
        if total <= 8 {
            Some("u8".to_owned())
        } else if total <= 16 {
            Some("u16".to_owned())
        } else if total <= 32 {
            Some("u32".to_owned())
        } else if total <= 64 {
            Some("u64".to_owned())
        } else {
            None
        }
    }
}

/// The rows of the standard table: name, target type, import.
pub open spec fn standard_rows() -> Seq<(Seq<char>, Seq<char>, Seq<char>)> {
    seq![
        ("varint"@, "i32"@, ""@),
        ("varlong"@, "i64"@, ""@),
        ("bool"@, "bool"@, ""@),
        ("i8"@, "i8"@, ""@),
        ("u8"@, "u8"@, ""@),
        ("i16"@, "i16"@, ""@),
        ("u16"@, "u16"@, ""@),
        ("i32"@, "i32"@, ""@),
        ("i64"@, "i64"@, ""@),
        ("f32"@, "f32"@, ""@),
        ("f64"@, "f64"@, ""@),
        ("string"@, "String"@, ""@),
        ("UUID"@, "Uuid"@, "uuid::Uuid"@),
        ("restBuffer"@, "Vec<u8>"@, ""@),
        ("position"@, "Position"@, "crate::data::Position"@),
        ("nbt"@, "CompoundTag"@, "nbt::CompoundTag"@),
        ("optionalNbt"@, "Option<CompoundTag>"@, "nbt::CompoundTag"@),
        ("slot"@, "Option<Slot>"@, "crate::data::inventory::Slot"@),
        ("entityMetadata"@, "Metadata"@, "crate::data::Metadata"@),
        ("void"@, "()"@, ""@)
    ]
}

impl MappingEntry {
    /// The row as plain values.
    pub open spec fn row(&self) -> (Seq<char>, Seq<char>, Seq<char>) {
        (self.name@, self.target@, self.import@)
    }

    pub fn new(name: &str, target: &str, import: &str) -> (r: MappingEntry)
        ensures
            r.row() == (name@, target@, import@),
    {
        MappingEntry { name: name.to_owned(), target: target.to_owned(), import: import.to_owned() }
    }
}

impl CodeMappings {
    /// The rows of the table as plain values.
    pub open spec fn rows(&self) -> Seq<(Seq<char>, Seq<char>, Seq<char>)> {
        self.entries@.map_values(|e: MappingEntry| e.row())
    }

    /// The standard table.
    pub fn new() -> (r: CodeMappings)
        ensures
            r.rows() == standard_rows(),
    {
        let mut entries: Vec<MappingEntry> = Vec::new();
        entries.push(MappingEntry::new("varint", "i32", ""));
        entries.push(MappingEntry::new("varlong", "i64", ""));
        entries.push(MappingEntry::new("bool", "bool", ""));
        entries.push(MappingEntry::new("i8", "i8", ""));
        entries.push(MappingEntry::new("u8", "u8", ""));
        entries.push(MappingEntry::new("i16", "i16", ""));
        entries.push(MappingEntry::new("u16", "u16", ""));
        entries.push(MappingEntry::new("i32", "i32", ""));
        entries.push(MappingEntry::new("i64", "i64", ""));
        entries.push(MappingEntry::new("f32", "f32", ""));
        entries.push(MappingEntry::new("f64", "f64", ""));
        entries.push(MappingEntry::new("string", "String", ""));
        entries.push(MappingEntry::new("UUID", "Uuid", "uuid::Uuid"));
        entries.push(MappingEntry::new("restBuffer", "Vec<u8>", ""));
        entries.push(MappingEntry::new("position", "Position", "crate::data::Position"));
        entries.push(MappingEntry::new("nbt", "CompoundTag", "nbt::CompoundTag"));
        entries.push(MappingEntry::new("optionalNbt", "Option<CompoundTag>", "nbt::CompoundTag"));
        entries.push(MappingEntry::new("slot", "Option<Slot>", "crate::data::inventory::Slot"));
        entries.push(MappingEntry::new("entityMetadata", "Metadata", "crate::data::Metadata"));
        entries.push(MappingEntry::new("void", "()", ""));
        let r = CodeMappings { entries };
        assert(r.rows() =~= standard_rows());
        r
    }
}

} // verus!
