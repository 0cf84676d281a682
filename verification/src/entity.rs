//! Cell entities: what a grid cell draws, whether it blocks movement, and
//! which mask colours open it; and the store that maps grid symbols to them.

use crate::error::{DecodeError, LoadError, LoadFailure, ResourceName, UnknownSymbolError};
use crate::resources::Resources;
use crate::json::{
    field, find_field, index_of, indices_of, parse, parse_bytes, parse_outcome, read_index,
    read_indices,
};
use lite_json::JsonValue;
use vstd::prelude::*;
use vstd::string::StringExecFns;
use vstd::utf8::{decode_utf8, valid_utf8};

verus! {

/// The meaning of a grid cell as plain mathematical values.
pub struct EntityModel {
    pub tile_index: usize,
    pub wall: bool,
    pub door_colors: Seq<usize>,
}

impl EntityModel {
    /// Whether a mask of colour `color` opens the cell.
    pub open spec fn opens_for(self, color: usize) -> bool {
        self.door_colors.contains(color)
    }
}

/// The meaning of a grid cell: the tile it draws, whether it is a wall, and
/// the mask colours that let a mover pass it.
pub struct Entity {
    pub tile_index: usize,
    pub wall: bool,
    pub door_colors: Vec<usize>,
}

impl View for Entity {
    type V = EntityModel;

    open spec fn view(&self) -> EntityModel {
        EntityModel {
            tile_index: self.tile_index,
            wall: self.wall,
            door_colors: self.door_colors@,
        }
    }
}

impl Clone for Entity {
    fn clone(&self) -> (r: Entity)
        ensures
            r@ == self@,
    {
        Entity {
            tile_index: self.tile_index,
            wall: self.wall,
            door_colors: self.door_colors.clone(),
        }
    }
}

impl Default for Entity {
    /// An empty cell: tile 0, no wall, no door colours.
    fn default() -> (r: Entity)
        ensures
            r@ == (EntityModel { tile_index: 0, wall: false, door_colors: Seq::empty() }),
    {
        Entity { tile_index: 0, wall: false, door_colors: Vec::new() }
    }
}

/// The entity that a parsed descriptor describes: an object whose member
/// `tile_index` is an index, whose member `wall` is a boolean and whose
/// member `door_colors` is an array of indices. Other members are passed
/// over. `None` where a member is missing or of another kind.
pub open spec fn described(doc: JsonValue) -> Option<EntityModel> {
    match doc {
        JsonValue::Object(members) => match (
            field(members@, "tile_index"@),
            field(members@, "wall"@),
            field(members@, "door_colors"@),
        ) {
            (Some(tile), Some(JsonValue::Boolean(wall)), Some(JsonValue::Array(colors))) => match (
                index_of(tile),
                indices_of(colors@),
            ) {
                (Some(tile_index), Some(door_colors)) => Some(
                    EntityModel { tile_index, wall, door_colors },
                ),
                _ => None,
            },
            _ => None,
        },
        _ => None,
    }
}

/// The entity that a parsed descriptor describes, or the error where it
/// describes none.
pub open spec fn entity_of_document(doc: JsonValue) -> Result<EntityModel, DecodeError> {
    match described(doc) {
        Some(model) => Ok(model),
        None => Err(DecodeError::BadDescriptor),
    }
}

/// The entity that the text of a descriptor describes.
pub open spec fn entity_of_text(text: Seq<char>) -> Result<EntityModel, DecodeError> {
    match parse_outcome(text) {
        Ok(doc) => entity_of_document(doc),
        Err(e) => Err(e),
    }
}

/// The entity that the bytes of a descriptor describe. Bytes that are no
/// UTF-8 are no text.
pub open spec fn entity_of_bytes(bytes: Seq<u8>) -> Result<EntityModel, DecodeError> {
    if valid_utf8(bytes) {
        entity_of_text(decode_utf8(bytes))
    } else {
        Err(DecodeError::UnsupportedText)
    }
}

/// Name of the resource that describes the entity `id`.
pub open spec fn descriptor_name(id: Seq<char>) -> Seq<char> {
    id + ".json"@
}

/// The entity `id` as the resources describe it: the entity of the bytes of
/// its descriptor, which is looked for in the directory `entities`.
pub open spec fn entity_of_resource(resources: &Resources, id: Seq<char>) -> Result<
    EntityModel,
    LoadFailure,
> {
    match resources.content(descriptor_name(id), Some("entities"@)) {
        Some(bytes) => match entity_of_bytes(bytes) {
            Ok(model) => Ok(model),
            Err(e) => Err(LoadFailure::Decode(e)),
        },
        None => Err(
            LoadFailure::Missing(
                ResourceName { directory: Some("entities"@), name: descriptor_name(id) },
            ),
        ),
    }
}

/// Whether `r` is the entity, or the error, that `expected` says.
pub open spec fn decoded_as(r: Result<Entity, DecodeError>, expected: Result<EntityModel, DecodeError>) -> bool {
    match expected {
        Ok(model) => r is Ok && r->Ok_0@ == model,
        Err(e) => r == Err::<Entity, DecodeError>(e),
    }
}

/// Whether `r` is the entity, or the error, that `expected` says.
pub open spec fn loaded_as(r: Result<Entity, LoadError>, expected: Result<EntityModel, LoadFailure>) -> bool {
    match expected {
        Ok(model) => r is Ok && r->Ok_0@ == model,
        Err(failure) => r is Err && r->Err_0@ == failure,
    }
}

impl Entity {
    /// Reads an entity from a parsed descriptor.
    pub fn from_document(doc: &JsonValue) -> (r: Result<Entity, DecodeError>)
        ensures
            decoded_as(r, entity_of_document(*doc)),
    {
        let members = match doc {
            JsonValue::Object(members) => members,
            _ => {
                return Err(DecodeError::BadDescriptor);
            },
        };
        let tile_index = match find_field(members, "tile_index") {
            Some(value) => match read_index(value) {
                Some(index) => index,
                None => {
                    return Err(DecodeError::BadDescriptor);
                },
            },
            None => {
                return Err(DecodeError::BadDescriptor);
            },
        };
        let wall = match find_field(members, "wall") {
            Some(JsonValue::Boolean(wall)) => *wall,
            _ => {
                return Err(DecodeError::BadDescriptor);
            },
        };
        let door_colors = match find_field(members, "door_colors") {
            Some(JsonValue::Array(colors)) => match read_indices(colors) {
                Some(door_colors) => door_colors,
                None => {
                    return Err(DecodeError::BadDescriptor);
                },
            },
            _ => {
                return Err(DecodeError::BadDescriptor);
            },
        };
        Ok(Entity { tile_index, wall, door_colors })
    }

    /// Decodes an entity descriptor from JSON text.
    pub fn from_json(text: &str) -> (r: Result<Entity, DecodeError>)
        ensures
            decoded_as(r, entity_of_text(text@)),
    {
        match parse(text) {
            Ok(doc) => Self::from_document(&doc),
            Err(e) => Err(e),
        }
    }

    /// Decodes an entity descriptor from the bytes of a descriptor resource.
    pub fn from_json_bytes(bytes: &[u8]) -> (r: Result<Entity, DecodeError>)
        ensures
            decoded_as(r, entity_of_bytes(bytes@)),
    {
        match parse_bytes(bytes) {
            Ok(doc) => Self::from_document(&doc),
            Err(e) => Err(e),
        }
    }

    /// Name of the resource that describes the entity `id`.
    pub fn file_name(id: &str) -> (r: String)
        ensures
            r@ == descriptor_name(id@),
    {
        String::from_str(id).concat(".json")
    }

    /// The entity `id`, decoded from its descriptor among the resources.
    pub fn new_from_id(resources: &Resources, id: &str) -> (r: Result<Entity, LoadError>)
        ensures
            loaded_as(r, entity_of_resource(resources, id@)),
    {
        let file_name = Self::file_name(id);
        let bytes = match resources.read_file(file_name.as_str(), Some("entities")) {
            Ok(bytes) => bytes,
            Err(e) => {
                return Err(LoadError::Missing(e));
            },
        };
        match Self::from_json_bytes(bytes.as_slice()) {
            Ok(entity) => Ok(entity),
            Err(e) => Err(LoadError::Decode(e)),
        }
    }
}

/// The entities loaded so far, by grid symbol. A symbol that was loaded keeps
/// its entity; a symbol that was not loaded does not resolve.
pub struct EntityStore {
    entries: Vec<(char, Entity)>,
}

/// The position of `symbol` among the symbols of `entries`.
pub open spec fn position_of(entries: Seq<(char, Entity)>, symbol: char) -> int {
    choose|i: int| 0 <= i < entries.len() && entries[i].0 == symbol
}

/// Whether no symbol stands twice in `entries`.
pub open spec fn distinct_symbols(entries: Seq<(char, Entity)>) -> bool {
    forall|i: int, j: int| 0 <= i < j < entries.len() ==> entries[i].0 != entries[j].0
}

impl EntityStore {
    /// No symbol is held twice.
    #[verifier::type_invariant]
    spec fn consistent(&self) -> bool {
        distinct_symbols(self.entries@)
    }

    /// Whether `symbol` has been loaded.
    pub closed spec fn knows(&self, symbol: char) -> bool {
        exists|i: int| 0 <= i < self.entries@.len() && self.entries@[i].0 == symbol
    }

    /// The entity loaded for `symbol`.
    pub closed spec fn entity_of(&self, symbol: char) -> EntityModel {
        self.entries@[position_of(self.entries@, symbol)].1@
    }

    /// Number of symbols loaded.
    pub closed spec fn spec_len(&self) -> nat {
        self.entries@.len()
    }

    /// A store without symbols.
    pub fn new() -> (r: EntityStore)
        ensures
            r.spec_len() == 0,
            forall|symbol: char| !r.knows(symbol),
    {
        EntityStore { entries: Vec::new() }
    }

    /// Number of symbols loaded.
    pub fn len(&self) -> (n: usize)
        ensures
            n == self.spec_len(),
    {
        self.entries.len()
    }

    /// Position of `symbol` among the loaded symbols.
    fn position(&self, symbol: char) -> (r: Option<usize>)
        ensures
            r matches Some(i) ==> i < self.entries@.len() && self.entries@[i as int].0 == symbol
                && position_of(self.entries@, symbol) == i,
            r is Some <==> self.knows(symbol),
    {
        proof {
            use_type_invariant(self);
        }
        let mut i: usize = 0;
        while i < self.entries.len()
            invariant
                distinct_symbols(self.entries@),
                i <= self.entries@.len(),
                forall|j: int| 0 <= j < i ==> self.entries@[j].0 != symbol,
            decreases self.entries@.len() - i,
        {
            if self.entries[i].0 == symbol {
                proof {
                    lemma_unique_position(self.entries@, position_of(self.entries@, symbol), i as int);
                }
                return Some(i);
            }
            i += 1;
        }
        None
    }

    /// Whether `symbol` has been loaded.
    pub fn contains(&self, symbol: char) -> (r: bool)
        ensures
            r == self.knows(symbol),
    {
        self.position(symbol).is_some()
    }

    /// The entity of `symbol`. A symbol that has not been loaded is an error;
    /// no default entity stands in for it.
    pub fn resolve(&self, symbol: char) -> (r: Result<Entity, UnknownSymbolError>)
        ensures
            self.knows(symbol) ==> r is Ok && r->Ok_0@ == self.entity_of(symbol),
            !self.knows(symbol) ==> r == Err::<Entity, UnknownSymbolError>(
                UnknownSymbolError { symbol },
            ),
    {
        match self.position(symbol) {
            Some(i) => Ok(self.entries[i].1.clone()),
            None => Err(UnknownSymbolError { symbol }),
        }
    }

    /// Loads `entity` for `symbol` unless the symbol has been loaded before.
    /// Returns whether the entity was taken.
    pub fn insert(&mut self, symbol: char, entity: Entity) -> (r: bool)
        ensures
            r == !old(self).knows(symbol),
            final(self).knows(symbol),
            final(self).entity_of(symbol) == if r {
                entity@
            } else {
                old(self).entity_of(symbol)
            },
            forall|other: char|
                other != symbol ==> final(self).knows(other) == old(self).knows(other),
            forall|other: char|
                other != symbol && old(self).knows(other) ==> final(self).entity_of(other) == old(
                    self,
                ).entity_of(other),
            final(self).spec_len() == old(self).spec_len() + if r {
                1nat
            } else {
                0nat
            },
    {
        proof {
            use_type_invariant(&*self);
        }
        if self.position(symbol).is_some() {
            return false;
        }
        let ghost before = self.entries@;
        let ghost model = entity@;
        let mut entries: Vec<(char, Entity)> = Vec::new();
        core::mem::swap(&mut entries, &mut self.entries);
        entries.push((symbol, entity));
        proof {
            assert forall|i: int, j: int| 0 <= i < j < entries@.len() implies entries@[i].0
                != entries@[j].0 by {
                if j == before.len() {
                    assert(before[i].0 == entries@[i].0);
                }
            }
        }
        self.entries = entries;
        proof {
            let n = before.len() as int;
            assert(self.entries@[n].0 == symbol);
            lemma_unique_position(self.entries@, position_of(self.entries@, symbol), n);
            assert forall|other: char| other != symbol implies self.knows(other) == old(self).knows(
                other,
            ) by {
                if old(self).knows(other) {
                    let k = position_of(before, other);
                    assert(self.entries@[k].0 == other);
                }
                if self.knows(other) {
                    let k = position_of(self.entries@, other);
                    assert(before[k].0 == other);
                }
            }
            assert forall|other: char| other != symbol && old(self).knows(other) implies self.entity_of(
                other,
            ) == old(self).entity_of(other) by {
                let k = position_of(before, other);
                assert(self.entries@[k].0 == other);
                lemma_unique_position(self.entries@, position_of(self.entries@, other), k);
            }
        }
        true
    }
}

/// In entries without a repeated symbol two positions of one symbol are
/// the same position.
pub proof fn lemma_unique_position(entries: Seq<(char, Entity)>, i: int, j: int)
    requires
        distinct_symbols(entries),
        0 <= i < entries.len(),
        0 <= j < entries.len(),
        entries[i].0 == entries[j].0,
    ensures
        i == j,
{
}

} // verus!
