//! Structure definitions and the structures file: things players build, such
//! as their cabin, and what comes with them, such as a bed and a chest.
//!
//! A structure is laid out in its own frame, in meters: its front faces -Z
//! and its middle is where it is placed. Its models, the boxes nobody walks
//! through and the structures built with it are placed in that frame, and
//! the whole is turned the way it faces when built.

use vstd::prelude::*;

use crate::content::error::{Context, Problem, StructureFault};
use crate::content::item::{ItemDef, ItemId, ItemKind, Items, MAX_DEFINITIONS, item_id_of};
use crate::content::lookup::{
    first_index, first_index_facts, first_repeat, first_where, first_where_finds_the_first,
    first_where_prefix, first_where_step, no_repeat_is_distinct, position, position_of, repeated,
    texts,
};
use crate::content::number::{Number, positive};
use crate::content::paths::{check_models, models_fault};

verus! {

/// Refers to a structure definition within a catalog, like [`ItemId`] does
/// for items.
#[derive(Clone, Copy, Debug, PartialEq, Eq, Hash, PartialOrd, Ord, Structural)]
pub struct StructureId(pub u16);

/// What players do with a structure.
#[derive(Clone, Copy, Debug, PartialEq, Eq, Structural)]
pub enum Purpose {
    /// Nothing in particular.
    Nothing,
    /// Players sleep in it.
    Bed,
    /// It keeps items.
    Storage,
}

impl Default for Purpose {
    fn default() -> (purpose: Self)
        ensures
            purpose == Purpose::Nothing,
    {
        Purpose::Nothing
    }
}

/// A model a structure is drawn with.
#[derive(Debug, PartialEq, Eq)]
pub struct Part {
    /// Relative to the models folder.
    pub model: String,
    pub at: (Number, Number, Number),
    /// Turn around the vertical axis, counterclockwise seen from above, in
    /// radians.
    pub turn: Number,
    pub scale: Number,
}

/// A box nobody walks through, standing on the structure's ground.
#[derive(Clone, Copy, Debug, PartialEq, Eq)]
pub struct Solid {
    /// Middle of the box on the ground, in the structure's frame.
    pub at: (Number, Number),
    /// Size along the structure's x and z.
    pub size: (Number, Number),
    pub height: Number,
}

/// A structure built along with another, where it stands in that other's
/// frame.
#[derive(Clone, Copy, Debug, PartialEq, Eq)]
pub struct Placement {
    pub structure: StructureId,
    pub at: (Number, Number),
    /// In radians.
    pub turn: Number,
}

#[derive(Debug, PartialEq, Eq)]
pub struct StructureDef {
    /// The id used in data files, such as `"cabin"`.
    pub key: String,
    pub name: String,
    /// The item placed to build it, if players build it themselves.
    pub built_from: Option<ItemId>,
    /// Size of the ground it stands on, along its own x and z.
    pub size: (Number, Number),
    /// Whether building it levels the ground under it.
    pub levels_ground: bool,
    /// Whether it is each player's home.
    pub home: bool,
    pub purpose: Purpose,
    pub parts: Vec<Part>,
    pub solids: Vec<Solid>,
    /// Where warm lamps light it, in its frame (x, height, z).
    pub lamps: Vec<(Number, Number, Number)>,
    /// Structures built along with it, such as the furniture of a cabin.
    pub contains: Vec<Placement>,
}

/// A structure built along with another, as written in the structures
/// file, with its turn in radians.
#[derive(Debug, PartialEq, Eq)]
pub struct PlacementEntry {
    pub structure: String,
    pub at: (Number, Number),
    pub turn: Number,
}

/// A structure as written in the structures file, with its parts' turns
/// in radians.
#[derive(Debug, PartialEq, Eq)]
pub struct StructureEntry {
    pub id: String,
    pub name: String,
    pub built_from: Option<String>,
    pub size: (Number, Number),
    pub levels_ground: bool,
    pub home: bool,
    pub purpose: Purpose,
    pub parts: Vec<Part>,
    pub solids: Vec<Solid>,
    pub lamps: Vec<(Number, Number, Number)>,
    pub contains: Vec<PlacementEntry>,
}

/// The structures file as written.
#[derive(Debug, PartialEq, Eq)]
pub struct StructuresFile {
    pub structures: Vec<StructureEntry>,
}

/// Structures, checked.
#[derive(Debug, PartialEq, Eq)]
pub struct Structures {
    pub definitions: Vec<StructureDef>,
    /// The key of each definition, in the same order.
    pub keys: Vec<String>,
}

/// The keys of the structures `entries`, in order.
pub open spec fn structure_keys(entries: Seq<StructureEntry>) -> Seq<Seq<char>> {
    entries.map_values(|entry: StructureEntry| entry.id@)
}

/// Whether the placement `placement` names no structure among `keys`.
pub open spec fn unknown_placement(keys: Seq<Seq<char>>) -> spec_fn(PlacementEntry) -> bool {
    |placement: PlacementEntry| position_of(keys, placement.structure@) is None
}

/// The position of the item the `i`th structure is built from, among
/// items keyed `item_keys`.
pub open spec fn built_item(item_keys: Seq<Seq<char>>, entry: StructureEntry) -> nat {
    position_of(item_keys, entry.built_from.unwrap()@).unwrap()
}

/// What is wrong with the `i`th structure of `entries` as it is resolved
/// among `items`, if anything: an unknown item it is built from, an unknown
/// structure it contains, an item that is not a structure, or an item an
/// earlier structure is built from.
pub open spec fn resolve_problem(item_keys: Seq<Seq<char>>, definitions: Seq<ItemDef>, entries: Seq<StructureEntry>, i: int) -> Option<Problem> {
    let entry = entries[i];
    let keys = structure_keys(entries);
    if entry.built_from is Some && position_of(item_keys, entry.built_from.unwrap()@) is None {
        Some(Problem::UnknownItem { context: Context::Structure(entry.id), item: entry.built_from.unwrap() })
    } else if first_where(entry.contains@, unknown_placement(keys)) is Some {
        Some(Problem::InvalidStructure {
            structure: entry.id,
            fault: StructureFault::UnknownContained(
                entry.contains@[first_where(entry.contains@, unknown_placement(keys)).unwrap() as int].structure,
            ),
        })
    } else if entry.built_from is Some && !(definitions[built_item(item_keys, entry) as int].kind is Structure) {
        Some(Problem::InvalidStructure { structure: entry.id, fault: StructureFault::NotAStructureItem })
    } else if entry.built_from is Some && exists|j: int| 0 <= j < i && (#[trigger] entries[j]).built_from is Some
        && built_item(item_keys, entries[j]) == built_item(item_keys, entry) {
        Some(Problem::InvalidStructure { structure: entry.id, fault: StructureFault::SharedItem })
    } else {
        None
    }
}

/// The structure that `placement` places, among `entries`.
pub open spec fn placed(entries: Seq<StructureEntry>, placement: PlacementEntry) -> StructureEntry {
    entries[position_of(structure_keys(entries), placement.structure@).unwrap() as int]
}

/// What is wrong with the resolved structure `entry` among `entries`, if
/// anything.
pub open spec fn structure_fault(entries: Seq<StructureEntry>, entry: StructureEntry) -> Option<StructureFault> {
    if !positive(entry.size.0) || !positive(entry.size.1) {
        Some(StructureFault::Size)
    } else if models_fault(entry.parts@.map_values(|part: Part| part.model)) is Some {
        Some(StructureFault::Models(models_fault(entry.parts@.map_values(|part: Part| part.model)).unwrap()))
    } else if exists|i: int| 0 <= i < entry.parts@.len() && !positive((#[trigger] entry.parts@[i]).scale) {
        Some(StructureFault::PartScale)
    } else if exists|i: int| 0 <= i < entry.solids@.len() && !(positive((#[trigger] entry.solids@[i]).size.0)
        && positive(entry.solids@[i].size.1) && positive(entry.solids@[i].height)) {
        Some(StructureFault::Solids)
    } else if exists|i: int| 0 <= i < entry.contains@.len() && placed(entries, #[trigger] entry.contains@[i]).contains@.len() != 0 {
        Some(StructureFault::Nested)
    } else if entry.home && entry.built_from is None {
        Some(StructureFault::HomeUnbuildable)
    } else if entry.home && !exists|i: int| 0 <= i < entry.contains@.len() && placed(entries, #[trigger] entry.contains@[i]).purpose == Purpose::Bed {
        Some(StructureFault::HomeWithoutBed)
    } else {
        None
    }
}

/// Whether the structure at position `i` fails to resolve.
pub open spec fn unresolved(item_keys: Seq<Seq<char>>, definitions: Seq<ItemDef>, entries: Seq<StructureEntry>) -> spec_fn(nat) -> bool {
    |i: nat| resolve_problem(item_keys, definitions, entries, i as int) is Some
}

/// Whether a resolved structure has a fault.
pub open spec fn faulty_structure(entries: Seq<StructureEntry>) -> spec_fn(StructureEntry) -> bool {
    |entry: StructureEntry| structure_fault(entries, entry) is Some
}

/// The number of structures among `entries` that are every player's home.
pub open spec fn homes(entries: Seq<StructureEntry>) -> nat
    decreases entries.len(),
{
    if entries.len() == 0 {
        0
    } else {
        homes(entries.drop_last()) + if entries.last().home { 1nat } else { 0nat }
    }
}

/// Whether the item at position `k` is a structure item that no structure
/// among `entries` is built from.
pub open spec fn unbuilt(item_keys: Seq<Seq<char>>, definitions: Seq<ItemDef>, entries: Seq<StructureEntry>) -> spec_fn(nat) -> bool {
    |k: nat| definitions[k as int].kind is Structure && forall|j: int| 0 <= j < entries.len()
        && (#[trigger] entries[j]).built_from is Some ==> built_item(item_keys, entries[j]) != k
}

/// The first problem of the structures file: a key defined twice, the
/// first structure that fails to resolve, the first with a fault, more than
/// one home, then the first structure item that builds nothing.
pub open spec fn structures_problem(item_keys: Seq<Seq<char>>, definitions: Seq<ItemDef>, file: StructuresFile) -> Option<Problem> {
    let entries = file.structures@;
    if first_repeat(structure_keys(entries)) is Some {
        Some(Problem::DuplicateStructure(entries[first_repeat(structure_keys(entries)).unwrap() as int].id))
    } else if first_index(entries.len(), unresolved(item_keys, definitions, entries)) is Some {
        resolve_problem(item_keys, definitions, entries, first_index(entries.len(), unresolved(item_keys, definitions, entries)).unwrap() as int)
    } else if first_where(entries, faulty_structure(entries)) is Some {
        let i = first_where(entries, faulty_structure(entries)).unwrap();
        Some(Problem::InvalidStructure {
            structure: entries[i as int].id,
            fault: structure_fault(entries, entries[i as int]).unwrap(),
        })
    } else if homes(entries) > 1 {
        Some(Problem::SecondHome)
    } else if first_index(definitions.len(), unbuilt(item_keys, definitions, entries)) is Some {
        Some(Problem::UnbuiltStructureItem(
            definitions[first_index(definitions.len(), unbuilt(item_keys, definitions, entries)).unwrap() as int].key,
        ))
    } else {
        None
    }
}

/// Whether `structure` is what the valid `entry` resolves to, among items
/// keyed `item_keys` and structures keyed `keys`.
pub open spec fn resolved_structure(structure: StructureDef, item_keys: Seq<Seq<char>>, keys: Seq<Seq<char>>, entry: StructureEntry) -> bool {
    &&& structure.key == entry.id
    &&& structure.name == entry.name
    &&& structure.built_from == match entry.built_from {
        Some(key) => Some(item_id_of(item_keys, key@)),
        None => None,
    }
    &&& structure.size == entry.size
    &&& structure.levels_ground == entry.levels_ground
    &&& structure.home == entry.home
    &&& structure.purpose == entry.purpose
    &&& structure.parts == entry.parts
    &&& structure.solids == entry.solids
    &&& structure.lamps == entry.lamps
    &&& structure.contains@ == entry.contains@.map_values(|placement: PlacementEntry| Placement {
        structure: StructureId(position_of(keys, placement.structure@).unwrap() as u16),
        at: placement.at,
        turn: placement.turn,
    })
}

/// The first structure that `entry` contains and no structure among
/// `keys` is.
fn unknown_contained(keys: &Vec<String>, entry: &StructureEntry) -> (unknown: Option<String>)
    ensures
        unknown is None <==> first_where(entry.contains@, unknown_placement(texts(keys@))) is None,
        unknown matches Some(name) ==> name == entry.contains@[first_where(entry.contains@, unknown_placement(texts(keys@))).unwrap() as int].structure,
{
    let ghost known = texts(keys@);
    let mut i: usize = 0;
    while i < entry.contains.len()
        invariant
            i <= entry.contains@.len(),
            known == texts(keys@),
            first_where(entry.contains@.take(i as int), unknown_placement(known)) is None,
        decreases entry.contains@.len() - i,
    {
        proof {
            first_where_step(entry.contains@, unknown_placement(known), i as nat);
        }
        if position(keys, entry.contains[i].structure.as_str()).is_none() {
            proof {
                first_where_prefix(entry.contains@, unknown_placement(known), (i + 1) as nat);
            }
            return Some(entry.contains[i].structure.clone());
        }
        i = i + 1;
    }
    proof {
        first_where_prefix(entry.contains@, unknown_placement(known), i as nat);
    }
    None
}

/// What is wrong with the `i`th structure of `entries` as it is resolved
/// among `items`, given the keys of all structures, when those before it
/// resolved.
#[verifier::loop_isolation(false)]
fn check_resolve(items: &Items, entries: &Vec<StructureEntry>, keys: &Vec<String>, i: usize) -> (problem: Option<Problem>)
    requires
        items.wf(),
        i < entries@.len(),
        texts(keys@) == structure_keys(entries@),
        first_index(i as nat, unresolved(texts(items.keys@), items.definitions@, entries@)) is None,
    ensures
        problem == resolve_problem(texts(items.keys@), items.definitions@, entries@, i as int),
{
    let ghost item_keys = texts(items.keys@);
    let entry = &entries[i];
    let item = match &entry.built_from {
        Some(key) => match items.resolve(Context::Structure(entry.id.clone()), key) {
            Err(problem) => return Some(problem),
            Ok(item) => Some(item),
        },
        None => None,
    };
    if let Some(name) = unknown_contained(keys, entry) {
        return Some(Problem::InvalidStructure {
            structure: entry.id.clone(),
            fault: StructureFault::UnknownContained(name),
        });
    }
    if let Some(item) = item {
        let is_structure = match items.get(item).kind {
            ItemKind::Structure => true,
            _ => false,
        };
        if !is_structure {
            return Some(Problem::InvalidStructure { structure: entry.id.clone(), fault: StructureFault::NotAStructureItem });
        }
        proof {
            first_index_facts(i as nat, i as nat, unresolved(texts(items.keys@), items.definitions@, entries@));
        }
        let mut j: usize = 0;
        while j < i
            invariant
                j <= i,
                forall|n: int| 0 <= n < j ==> !((#[trigger] entries@[n]).built_from is Some
                    && built_item(item_keys, entries@[n]) == built_item(item_keys, entries@[i as int])),
            decreases i - j,
        {
            assert(!unresolved(texts(items.keys@), items.definitions@, entries@)(j as nat));
            if let Some(other) = &entries[j].built_from {
                let found = position(&items.keys, other.as_str());
                if found.unwrap() == item.0 as usize {
                    return Some(Problem::InvalidStructure { structure: entry.id.clone(), fault: StructureFault::SharedItem });
                }
            }
            j = j + 1;
        }
    }
    None
}

/// Whether every part of `entry` is drawn at a scale above 0.
fn parts_scaled(entry: &StructureEntry) -> (scaled: bool)
    ensures
        scaled == !exists|i: int| 0 <= i < entry.parts@.len() && !positive((#[trigger] entry.parts@[i]).scale),
{
    let mut i: usize = 0;
    while i < entry.parts.len()
        invariant
            i <= entry.parts@.len(),
            forall|j: int| 0 <= j < i ==> positive((#[trigger] entry.parts@[j]).scale),
        decreases entry.parts@.len() - i,
    {
        if !entry.parts[i].scale.positive() {
            return false;
        }
        i = i + 1;
    }
    true
}

/// Whether every solid of `entry` has a size and height above 0.
fn solids_sized(entry: &StructureEntry) -> (sized: bool)
    ensures
        sized == !exists|i: int| 0 <= i < entry.solids@.len() && !(positive((#[trigger] entry.solids@[i]).size.0)
            && positive(entry.solids@[i].size.1) && positive(entry.solids@[i].height)),
{
    let mut i: usize = 0;
    while i < entry.solids.len()
        invariant
            i <= entry.solids@.len(),
            forall|j: int| 0 <= j < i ==> (positive((#[trigger] entry.solids@[j]).size.0)
                && positive(entry.solids@[j].size.1) && positive(entry.solids@[j].height)),
        decreases entry.solids@.len() - i,
    {
        let solid = entry.solids[i];
        if !(solid.size.0.positive() && solid.size.1.positive() && solid.height.positive()) {
            return false;
        }
        i = i + 1;
    }
    true
}

/// What is wrong with the resolved structure `entry` among `entries`.
#[verifier::loop_isolation(false)]
fn check_structure(entries: &Vec<StructureEntry>, keys: &Vec<String>, entry: &StructureEntry) -> (fault: Option<StructureFault>)
    requires
        texts(keys@) == structure_keys(entries@),
        first_where(entry.contains@, unknown_placement(texts(keys@))) is None,
    ensures
        fault == structure_fault(entries@, *entry),
{
    if !entry.size.0.positive() || !entry.size.1.positive() {
        return Some(StructureFault::Size);
    }
    let mut models: Vec<String> = Vec::new();
    let mut i: usize = 0;
    while i < entry.parts.len()
        invariant
            i <= entry.parts@.len(),
            models@ == entry.parts@.take(i as int).map_values(|part: Part| part.model),
        decreases entry.parts@.len() - i,
    {
        models.push(entry.parts[i].model.clone());
        assert(entry.parts@.take(i + 1).map_values(|part: Part| part.model)
            =~= entry.parts@.take(i as int).map_values(|part: Part| part.model).push(entry.parts@[i as int].model));
        i = i + 1;
    }
    assert(entry.parts@.take(i as int) =~= entry.parts@);
    if let Err(fault) = check_models(&models) {
        return Some(StructureFault::Models(fault));
    }
    if !parts_scaled(entry) {
        return Some(StructureFault::PartScale);
    }
    if !solids_sized(entry) {
        return Some(StructureFault::Solids);
    }
    proof {
        first_where_finds_the_first(entry.contains@, unknown_placement(texts(keys@)));
    }
    let mut has_bed = false;
    let mut i: usize = 0;
    while i < entry.contains.len()
        invariant
            i <= entry.contains@.len(),
            forall|j: int| 0 <= j < i ==> placed(entries@, #[trigger] entry.contains@[j]).contains@.len() == 0,
            has_bed == exists|j: int| 0 <= j < i && placed(entries@, #[trigger] entry.contains@[j]).purpose == Purpose::Bed,
        decreases entry.contains@.len() - i,
    {
        assert(!unknown_placement(texts(keys@))(entry.contains@[i as int]));
        let at = position(keys, entry.contains[i].structure.as_str()).unwrap();
        let other = &entries[at];
        if other.contains.len() != 0 {
            assert(placed(entries@, entry.contains@[i as int]) == *other);
            return Some(StructureFault::Nested);
        }
        if other.purpose == Purpose::Bed {
            has_bed = true;
        }
        i = i + 1;
    }
    if entry.home && entry.built_from.is_none() {
        return Some(StructureFault::HomeUnbuildable);
    }
    if entry.home && !has_bed {
        return Some(StructureFault::HomeWithoutBed);
    }
    None
}

/// Whether the item at position `k` is a structure item that no structure
/// is built from.
fn is_unbuilt(items: &Items, entries: &Vec<StructureEntry>, k: usize) -> (unbuilt_item: bool)
    requires
        items.wf(),
        k < items.definitions@.len(),
        first_index(entries@.len(), unresolved(texts(items.keys@), items.definitions@, entries@)) is None,
    ensures
        unbuilt_item == unbuilt(texts(items.keys@), items.definitions@, entries@)(k as nat),
{
    let is_structure = match items.definitions[k].kind {
        ItemKind::Structure => true,
        _ => false,
    };
    if !is_structure {
        return false;
    }
    proof {
        first_index_facts(entries@.len(), entries@.len(), unresolved(texts(items.keys@), items.definitions@, entries@));
    }
    let ghost item_keys = texts(items.keys@);
    let mut j: usize = 0;
    while j < entries.len()
        invariant
            j <= entries@.len(),
            item_keys == texts(items.keys@),
            forall|n: nat| n < entries@.len() ==> !#[trigger] unresolved(texts(items.keys@), items.definitions@, entries@)(n),
            forall|n: int| 0 <= n < j && (#[trigger] entries@[n]).built_from is Some ==> built_item(item_keys, entries@[n]) != k,
        decreases entries@.len() - j,
    {
        assert(!unresolved(texts(items.keys@), items.definitions@, entries@)(j as nat));
        if let Some(key) = &entries[j].built_from {
            if position(&items.keys, key.as_str()).unwrap() == k {
                return false;
            }
        }
        j = j + 1;
    }
    true
}

/// The structure that the valid `entry` resolves to.
fn resolve_structure(items: &Items, keys: &Vec<String>, entry: StructureEntry) -> (structure: StructureDef)
    requires
        items.wf(),
        keys@.len() <= MAX_DEFINITIONS,
        entry.built_from is Some ==> position_of(texts(items.keys@), entry.built_from.unwrap()@) is Some,
        first_where(entry.contains@, unknown_placement(texts(keys@))) is None,
    ensures
        resolved_structure(structure, texts(items.keys@), texts(keys@), entry),
{
    let ghost known = texts(keys@);
    proof {
        first_where_finds_the_first(entry.contains@, unknown_placement(known));
    }
    let built_from = match &entry.built_from {
        Some(key) => Some(ItemId(position(&items.keys, key.as_str()).unwrap() as u16)),
        None => None,
    };
    let mut contains: Vec<Placement> = Vec::new();
    let mut i: usize = 0;
    while i < entry.contains.len()
        invariant
            i <= entry.contains@.len(),
            known == texts(keys@),
            keys@.len() <= MAX_DEFINITIONS,
            forall|j: int| 0 <= j < entry.contains@.len() ==> !unknown_placement(known)(#[trigger] entry.contains@[j]),
            contains@ == entry.contains@.take(i as int).map_values(|placement: PlacementEntry| Placement {
                structure: StructureId(position_of(known, placement.structure@).unwrap() as u16),
                at: placement.at,
                turn: placement.turn,
            }),
        decreases entry.contains@.len() - i,
    {
        assert(!unknown_placement(known)(entry.contains@[i as int]));
        let at = position(keys, entry.contains[i].structure.as_str()).unwrap();
        contains.push(Placement { structure: StructureId(at as u16), at: entry.contains[i].at, turn: entry.contains[i].turn });
        assert(entry.contains@.take(i + 1).map_values(|placement: PlacementEntry| Placement {
                structure: StructureId(position_of(known, placement.structure@).unwrap() as u16),
                at: placement.at,
                turn: placement.turn,
            }) =~= entry.contains@.take(i as int).map_values(|placement: PlacementEntry| Placement {
                structure: StructureId(position_of(known, placement.structure@).unwrap() as u16),
                at: placement.at,
                turn: placement.turn,
            }).push(Placement {
                structure: StructureId(position_of(known, entry.contains@[i as int].structure@).unwrap() as u16),
                at: entry.contains@[i as int].at,
                turn: entry.contains@[i as int].turn,
            }));
        i = i + 1;
    }
    assert(entry.contains@.take(i as int) =~= entry.contains@);
    StructureDef {
        key: entry.id,
        name: entry.name,
        built_from,
        size: entry.size,
        levels_ground: entry.levels_ground,
        home: entry.home,
        purpose: entry.purpose,
        parts: entry.parts,
        solids: entry.solids,
        lamps: entry.lamps,
        contains,
    }
}

impl StructuresFile {
    /// Resolves each structure's item and contents, checks every structure,
    /// and checks that at most one is a home and every structure item builds
    /// one.
    pub fn resolve(self, items: &Items) -> (resolved: Result<Structures, Problem>)
        requires
            items.wf(),
            self.structures@.len() <= MAX_DEFINITIONS,
        ensures
            resolved is Err <==> structures_problem(texts(items.keys@), items.definitions@, self) is Some,
            resolved matches Err(problem) ==> structures_problem(texts(items.keys@), items.definitions@, self) == Some(problem),
            resolved matches Ok(structures) ==> {
                &&& structures.definitions@.len() == self.structures@.len()
                &&& forall|i: int| 0 <= i < self.structures@.len() ==> resolved_structure(
                    #[trigger] structures.definitions@[i],
                    texts(items.keys@),
                    structure_keys(self.structures@),
                    self.structures@[i],
                )
                &&& texts(structures.keys@) == structure_keys(self.structures@)
                &&& structures.keys@ == self.structures@.map_values(|entry: StructureEntry| entry.id)
            },
    {
        let StructuresFile { structures: mut entries } = self;
        let ghost all = entries@;
        let mut keys: Vec<String> = Vec::new();
        let mut i: usize = 0;
        while i < entries.len()
            invariant
                i <= entries@.len(),
                keys@.len() == i,
                forall|j: int| 0 <= j < i ==> #[trigger] keys@[j] == entries@[j].id,
            decreases entries@.len() - i,
        {
            keys.push(entries[i].id.clone());
            i = i + 1;
        }
        proof {
            assert(texts(keys@) =~= structure_keys(all));
            assert(keys@ =~= all.map_values(|entry: StructureEntry| entry.id));
        }
        if let Some(twice) = repeated(&keys) {
            return Err(Problem::DuplicateStructure(entries[twice].id.clone()));
        }
        let ghost not_resolved = unresolved(texts(items.keys@), items.definitions@, all);
        let mut i: usize = 0;
        while i < entries.len()
            invariant
                i <= entries@.len(),
                all == entries@,
                all == self.structures@,
                items.wf(),
                texts(keys@) == structure_keys(all),
                first_repeat(structure_keys(all)) is None,
                not_resolved == unresolved(texts(items.keys@), items.definitions@, all),
                first_index(i as nat, not_resolved) is None,
            decreases entries@.len() - i,
        {
            if let Some(problem) = check_resolve(items, &entries, &keys, i) {
                proof {
                    assert(not_resolved(i as nat));
                    assert(first_index((i + 1) as nat, not_resolved) == Some(i as nat));
                    first_index_facts((i + 1) as nat, all.len(), not_resolved);
                }
                return Err(problem);
            }
            i = i + 1;
        }
        proof {
            first_index_facts(all.len(), all.len(), not_resolved);
        }
        let ghost faulty = faulty_structure(all);
        let mut i: usize = 0;
        while i < entries.len()
            invariant
                i <= entries@.len(),
                all == entries@,
                all == self.structures@,
                items.wf(),
                texts(keys@) == structure_keys(all),
                first_repeat(structure_keys(all)) is None,
                not_resolved == unresolved(texts(items.keys@), items.definitions@, all),
                first_index(all.len(), not_resolved) is None,
                forall|n: nat| n < all.len() ==> !#[trigger] not_resolved(n),
                faulty == faulty_structure(all),
                first_where(all.take(i as int), faulty) is None,
            decreases entries@.len() - i,
        {
            proof {
                first_where_step(all, faulty, i as nat);
                assert(!not_resolved(i as nat));
            }
            if let Some(fault) = check_structure(&entries, &keys, &entries[i]) {
                proof {
                    first_where_prefix(all, faulty, (i + 1) as nat);
                }
                return Err(Problem::InvalidStructure { structure: entries[i].id.clone(), fault });
            }
            i = i + 1;
        }
        proof {
            first_where_prefix(all, faulty, i as nat);
        }
        let mut home_count: usize = 0;
        let mut i: usize = 0;
        while i < entries.len()
            invariant
                i <= entries@.len(),
                all == entries@,
                home_count == homes(all.take(i as int)),
                home_count <= i,
            decreases entries@.len() - i,
        {
            proof {
                assert(all.take(i + 1).drop_last() =~= all.take(i as int));
            }
            if entries[i].home {
                home_count = home_count + 1;
            }
            i = i + 1;
        }
        proof {
            assert(all.take(i as int) =~= all);
        }
        if home_count > 1 {
            return Err(Problem::SecondHome);
        }
        let ghost lonely = unbuilt(texts(items.keys@), items.definitions@, all);
        let mut k: usize = 0;
        while k < items.definitions.len()
            invariant
                k <= items.definitions@.len(),
                all == entries@,
                all == self.structures@,
                first_repeat(structure_keys(all)) is None,
                faulty == faulty_structure(all),
                first_where(all, faulty) is None,
                homes(all) <= 1,
                items.wf(),
                first_index(all.len(), not_resolved) is None,
                not_resolved == unresolved(texts(items.keys@), items.definitions@, all),
                lonely == unbuilt(texts(items.keys@), items.definitions@, all),
                first_index(k as nat, lonely) is None,
            decreases items.definitions@.len() - k,
        {
            if is_unbuilt(items, &entries, k) {
                proof {
                    first_index_facts((k + 1) as nat, items.definitions@.len(), lonely);
                }
                return Err(Problem::UnbuiltStructureItem(items.definitions[k].key.clone()));
            }
            k = k + 1;
        }
        let mut definitions: Vec<StructureDef> = Vec::new();
        let mut n: usize = 0;
        while entries.len() > 0
            invariant
                all == self.structures@,
                all.len() <= MAX_DEFINITIONS,
                keys@.len() == all.len(),
                texts(keys@) == structure_keys(all),
                keys@ == all.map_values(|entry: StructureEntry| entry.id),
                items.wf(),
                n <= all.len(),
                entries@ == all.skip(n as int),
                forall|m: nat| m < all.len() ==> !#[trigger] not_resolved(m),
                not_resolved == unresolved(texts(items.keys@), items.definitions@, all),
                definitions@.len() == n,
                forall|j: int| 0 <= j < n ==> resolved_structure(#[trigger] definitions@[j], texts(items.keys@), structure_keys(all), all[j]),
            decreases entries.len(),
        {
            let entry = entries.remove(0);
            proof {
                assert(entry == all[n as int]);
                assert(!not_resolved(n as nat));
            }
            let structure = resolve_structure(items, &keys, entry);
            definitions.push(structure);
            proof {
                assert(all.skip(n as int).drop_first() =~= all.skip(n + 1));
            }
            n = n + 1;
        }
        Ok(Structures { definitions, keys })
    }
}

} // verus!
