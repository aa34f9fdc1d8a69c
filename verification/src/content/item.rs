//! Item definitions and the items file.

use vstd::prelude::*;

use crate::content::error::{Context, Problem};
use crate::content::lookup::{
    first_repeat, first_where, first_where_finds_the_first, first_where_prefix, first_where_step,
    no_repeat_is_distinct, position, position_of, repeated, texts,
};
use crate::content::material::Material;

verus! {

/// Most definitions of one kind that a catalog holds: their ids are 16-bit
/// positions.
pub const MAX_DEFINITIONS: usize = 65536;

/// Refers to an item definition within a catalog.
///
/// Ids are positions in the catalog, which keeps them small on the wire.
/// They are only meaningful between peers that loaded the same content; data
/// files and saves refer to items by their text id instead.
#[derive(Clone, Copy, Debug, PartialEq, Eq, Hash, PartialOrd, Ord, Structural)]
pub struct ItemId(pub u16);

#[derive(Clone, Copy, Debug, PartialEq, Eq, Structural)]
pub enum Tool {
    /// Digs and raises the ground.
    Shovel,
    /// Tills soil so crops can be planted in it.
    Hoe,
    /// Waters tilled soil for the day.
    WateringCan,
    /// Fells trees.
    Axe,
    /// Breaks rocks.
    Pickaxe,
}

impl Tool {
    /// Whether the tool gathers scenery: only the axe and the pickaxe do.
    pub fn gathers(self) -> (gathers: bool)
        ensures
            gathers == (self == Tool::Axe || self == Tool::Pickaxe),
    {
        match self {
            Tool::Axe | Tool::Pickaxe => true,
            _ => false,
        }
    }
}

/// How good an item is. Only harvests vary in quality; everything else is
/// normal. Items of different quality never share a stack.
#[derive(Clone, Copy, Debug, PartialEq, Eq, Hash, PartialOrd, Ord, Structural)]
pub enum Quality {
    Normal,
    Silver,
    Gold,
}

impl Default for Quality {
    fn default() -> (quality: Self)
        ensures
            quality == Quality::Normal,
    {
        Quality::Normal
    }
}

/// What an item is for, which decides what using it does.
#[derive(Debug, PartialEq, Eq)]
pub enum ItemKind {
    Tool(Tool),
    /// Planted in tilled soil; the crops file says what it grows into.
    Seed,
    /// Spread on tilled soil to improve the quality of its harvests.
    Fertilizer,
    /// Eaten to restore energy.
    Food { energy: u16 },
    /// Ground carried in the inventory: digging any of these materials yields
    /// this item.
    Terrain { materials: Vec<Material> },
    /// Anything else: kept, traded and used as an ingredient.
    Goods,
    /// Placed to build a structure.
    Structure,
}

/// Everything the game knows about one kind of item.
#[derive(Debug, PartialEq, Eq)]
pub struct ItemDef {
    /// The id used in data files, such as `"wild_berries"`.
    pub key: String,
    /// Name shown to players.
    pub name: String,
    pub kind: ItemKind,
    /// Most items one inventory slot holds.
    pub max_stack: u16,
    /// Days after being acquired that the item spoils, if it is perishable.
    pub shelf_life: Option<u16>,
    /// What the item becomes when it spoils.
    pub spoils_into: Option<ItemId>,
    /// Model it is drawn with when held, relative to the models folder.
    pub model: Option<String>,
}

/// An item as written in the items file.
#[derive(Debug, PartialEq, Eq)]
pub struct ItemEntry {
    pub id: String,
    pub name: String,
    pub kind: ItemKind,
    /// Written `stack`; 1 when left out.
    pub stack: u16,
    pub shelf_life: Option<u16>,
    pub spoils_into: Option<String>,
    pub model: Option<String>,
}

/// The items file as written.
#[derive(Debug, PartialEq, Eq)]
pub struct ItemsFile {
    pub items: Vec<ItemEntry>,
    pub starting_inventory: Vec<(String, u16)>,
    pub starting_money: u32,
}

/// Items with their references resolved.
#[derive(Debug, PartialEq, Eq)]
pub struct Items {
    pub definitions: Vec<ItemDef>,
    /// The key of each definition, in the same order.
    pub keys: Vec<String>,
    pub starting_inventory: Vec<(ItemId, u16)>,
    pub starting_money: u32,
}

/// The keys of the items `entries`, in order.
pub open spec fn entry_keys(entries: Seq<ItemEntry>) -> Seq<Seq<char>> {
    entries.map_values(|entry: ItemEntry| entry.id@)
}

/// The item that the key `key` names among `keys`.
pub open spec fn item_id_of(keys: Seq<Seq<char>>, key: Seq<char>) -> ItemId {
    ItemId(position_of(keys, key).unwrap() as u16)
}

/// Whether `kind` is a tool.
pub open spec fn is_tool(kind: ItemKind) -> bool {
    kind is Tool
}

/// What is wrong with the item `entry`, among items keyed `keys`, if
/// anything: an unknown item it spoils into, then a stack of 0, a tool that
/// stacks, a shelf life without what it spoils into, or spoiling into
/// itself.
pub open spec fn item_problem(keys: Seq<Seq<char>>, entry: ItemEntry) -> Option<Problem> {
    if entry.spoils_into matches Some(key) && position_of(keys, key@) is None {
        Some(Problem::UnknownItem { context: Context::Item(entry.id), item: entry.spoils_into->0 })
    } else if entry.stack == 0 {
        Some(Problem::EmptyStack(entry.id))
    } else if is_tool(entry.kind) && entry.stack > 1 {
        Some(Problem::StackedTool(entry.id))
    } else if entry.shelf_life is Some && entry.spoils_into is None {
        Some(Problem::SpoilsIntoNothing(entry.id))
    } else if entry.spoils_into matches Some(key) && key@ == entry.id@ {
        Some(Problem::SpoilsIntoItself(entry.id))
    } else {
        None
    }
}

/// What is wrong with a stack of the starting inventory, if anything: a
/// count of 0, or an unknown item.
pub open spec fn stock_problem(keys: Seq<Seq<char>>, stock: (String, u16)) -> Option<Problem> {
    if stock.1 == 0 {
        Some(Problem::EmptyStartingStack(stock.0))
    } else if position_of(keys, stock.0@) is None {
        Some(Problem::UnknownItem { context: Context::StartingInventory, item: stock.0 })
    } else {
        None
    }
}

/// Whether the item `entry` has a problem among items keyed `keys`.
pub open spec fn faulty_item(keys: Seq<Seq<char>>) -> spec_fn(ItemEntry) -> bool {
    |entry: ItemEntry| item_problem(keys, entry) is Some
}

/// Whether the stack `stock` has a problem among items keyed `keys`.
pub open spec fn faulty_stock(keys: Seq<Seq<char>>) -> spec_fn((String, u16)) -> bool {
    |stock: (String, u16)| stock_problem(keys, stock) is Some
}

/// The first problem of the items file `file`: a key defined twice, then
/// the first invalid item, then the first invalid stack of the starting
/// inventory.
pub open spec fn items_problem(file: ItemsFile) -> Option<Problem> {
    let keys = entry_keys(file.items@);
    match first_repeat(keys) {
        Some(i) => Some(Problem::DuplicateItem(file.items@[i as int].id)),
        None => match first_where(file.items@, faulty_item(keys)) {
            Some(i) => item_problem(keys, file.items@[i as int]),
            None => match first_where(file.starting_inventory@, faulty_stock(keys)) {
                Some(i) => stock_problem(keys, file.starting_inventory@[i as int]),
                None => None,
            },
        },
    }
}

/// The definition that the valid entry `entry` resolves to, among items
/// keyed `keys`.
pub open spec fn item_def(keys: Seq<Seq<char>>, entry: ItemEntry) -> ItemDef {
    ItemDef {
        key: entry.id,
        name: entry.name,
        kind: entry.kind,
        max_stack: entry.stack,
        shelf_life: entry.shelf_life,
        spoils_into: match entry.spoils_into {
            Some(key) => Some(item_id_of(keys, key@)),
            None => None,
        },
        model: entry.model,
    }
}

/// The items that a valid items file resolves to.
pub open spec fn resolved_items(items: Items, file: ItemsFile) -> bool {
    let keys = entry_keys(file.items@);
    &&& items.definitions@ == file.items@.map_values(|entry: ItemEntry| item_def(keys, entry))
    &&& texts(items.keys@) == keys
    &&& items.starting_inventory@ == file.starting_inventory@.map_values(
        |stock: (String, u16)| (item_id_of(keys, stock.0@), stock.1),
    )
    &&& items.starting_money == file.starting_money
}

impl Items {
    /// Whether these items were resolved: their keys are their definitions'
    /// keys, distinct, and the ids they refer to are theirs.
    pub open spec fn wf(self) -> bool {
        &&& self.keys@.len() == self.definitions@.len()
        &&& self.definitions@.len() <= MAX_DEFINITIONS
        &&& forall|i: int| 0 <= i < self.keys@.len() ==> #[trigger] self.keys@[i]@ == self.definitions@[i].key@
        &&& first_repeat(texts(self.keys@)) is None
    }

    /// The item `key` names, or what refers to it from `context` when no
    /// item does.
    pub fn resolve(&self, context: Context, key: &String) -> (id: Result<ItemId, Problem>)
        requires
            self.keys@.len() <= MAX_DEFINITIONS,
        ensures
            id is Ok <==> position_of(texts(self.keys@), key@) is Some,
            id matches Ok(id) ==> id == item_id_of(texts(self.keys@), key@) && (id.0 as int)
                < self.keys@.len() && position_of(texts(self.keys@), key@) == Some(id.0 as nat),
            id matches Err(problem) ==> problem == (Problem::UnknownItem {
                context,
                item: *key,
            }),
    {
        match position(&self.keys, key.as_str()) {
            Some(i) => Ok(ItemId(i as u16)),
            None => Err(Problem::UnknownItem { context, item: key.clone() }),
        }
    }

    /// The definition of `id`.
    pub fn get(&self, id: ItemId) -> (item: &ItemDef)
        requires
            (id.0 as int) < self.definitions@.len(),
        ensures
            *item == self.definitions@[id.0 as int],
    {
        &self.definitions[id.0 as usize]
    }
}

/// What is wrong with `entry` among items keyed `keys`.
fn check_item(keys: &Vec<String>, entry: &ItemEntry) -> (problem: Option<Problem>)
    ensures
        problem == item_problem(texts(keys@), *entry),
{
    if let Some(key) = &entry.spoils_into {
        if position(keys, key.as_str()).is_none() {
            return Some(
                Problem::UnknownItem { context: Context::Item(entry.id.clone()), item: key.clone() },
            );
        }
    }
    let is_tool = match entry.kind {
        ItemKind::Tool(_) => true,
        _ => false,
    };
    if entry.stack == 0 {
        Some(Problem::EmptyStack(entry.id.clone()))
    } else if is_tool && entry.stack > 1 {
        Some(Problem::StackedTool(entry.id.clone()))
    } else if entry.shelf_life.is_some() && entry.spoils_into.is_none() {
        Some(Problem::SpoilsIntoNothing(entry.id.clone()))
    } else {
        match &entry.spoils_into {
            Some(key) => if *key == entry.id {
                Some(Problem::SpoilsIntoItself(entry.id.clone()))
            } else {
                None
            },
            None => None,
        }
    }
}

/// What is wrong with the stack `stock` of the starting inventory.
fn check_stock(keys: &Vec<String>, stock: &(String, u16)) -> (problem: Option<Problem>)
    ensures
        problem == stock_problem(texts(keys@), *stock),
{
    if stock.1 == 0 {
        Some(Problem::EmptyStartingStack(stock.0.clone()))
    } else if position(keys, stock.0.as_str()).is_none() {
        Some(Problem::UnknownItem { context: Context::StartingInventory, item: stock.0.clone() })
    } else {
        None
    }
}

/// The stack size of an item whose entry leaves it out.
pub fn single() -> (stack: u16)
    ensures
        stack == 1,
{
    1
}

impl ItemsFile {
    /// Resolves references between items and checks each one.
    pub fn resolve(self) -> (resolved: Result<Items, Problem>)
        requires
            self.items@.len() <= MAX_DEFINITIONS,
        ensures
            resolved is Err <==> items_problem(self) is Some,
            resolved matches Err(problem) ==> items_problem(self) == Some(problem),
            resolved matches Ok(items) ==> resolved_items(items, self) && items.wf(),
    {
        let ghost file = self;
        let ItemsFile { items: mut entries, starting_inventory, starting_money } = self;
        let ghost keys_spec = entry_keys(entries@);
        let mut keys: Vec<String> = Vec::new();
        let mut i: usize = 0;
        while i < entries.len()
            invariant
                i <= entries.len(),
                keys@.len() == i,
                forall|j: int| 0 <= j < i ==> #[trigger] keys@[j] == entries@[j].id,
            decreases entries.len() - i,
        {
            keys.push(entries[i].id.clone());
            i = i + 1;
        }
        proof {
            assert(texts(keys@) =~= keys_spec);
        }
        if let Some(twice) = repeated(&keys) {
            return Err(Problem::DuplicateItem(entries[twice].id.clone()));
        }
        proof {
            no_repeat_is_distinct(keys_spec);
        }
        let ghost faulty = faulty_item(keys_spec);
        let mut i: usize = 0;
        while i < entries.len()
            invariant
                i <= entries.len(),
                entries@ == file.items@,
                file == self,
                keys_spec == entry_keys(file.items@),
                first_repeat(keys_spec) is None,
                texts(keys@) == keys_spec,
                faulty == faulty_item(keys_spec),
                first_where(entries@.take(i as int), faulty) is None,
            decreases entries.len() - i,
        {
            proof {
                first_where_step(entries@, faulty, i as nat);
            }
            let problem = check_item(&keys, &entries[i]);
            if let Some(problem) = problem {
                proof {
                    assert(faulty(entries@[i as int]));
                    assert(first_where(entries@.take(i + 1), faulty) == Some(i as nat));
                    first_where_prefix(entries@, faulty, (i + 1) as nat);
                    assert(first_where(file.items@, faulty_item(keys_spec)) == Some(i as nat));
                    assert(items_problem(file) == item_problem(keys_spec, file.items@[i as int]));
                }
                return Err(problem);
            }
            i = i + 1;
        }
        proof {
            first_where_prefix(entries@, faulty, i as nat);
        }
        let ghost bad_stock = faulty_stock(keys_spec);
        let mut i: usize = 0;
        while i < starting_inventory.len()
            invariant
                i <= starting_inventory.len(),
                entries@ == file.items@,
                file == self,
                starting_inventory@ == file.starting_inventory@,
                keys_spec == entry_keys(file.items@),
                first_repeat(keys_spec) is None,
                first_where(file.items@, faulty) is None,
                faulty == faulty_item(keys_spec),
                texts(keys@) == keys_spec,
                bad_stock == faulty_stock(keys_spec),
                first_where(starting_inventory@.take(i as int), bad_stock) is None,
            decreases starting_inventory.len() - i,
        {
            proof {
                first_where_step(starting_inventory@, bad_stock, i as nat);
            }
            let problem = check_stock(&keys, &starting_inventory[i]);
            if let Some(problem) = problem {
                proof {
                    first_where_prefix(starting_inventory@, bad_stock, (i + 1) as nat);
                }
                return Err(problem);
            }
            i = i + 1;
        }
        proof {
            first_where_prefix(starting_inventory@, bad_stock, i as nat);
        }
        let ghost all_entries = entries@;
        let mut definitions: Vec<ItemDef> = Vec::new();
        let mut k: usize = 0;
        while entries.len() > 0
            invariant
                all_entries == file.items@,
                file == self,
                k <= all_entries.len(),
                entries@ == all_entries.skip(k as int),
                all_entries.len() <= MAX_DEFINITIONS,
                texts(keys@) == keys_spec,
                keys_spec == entry_keys(all_entries),
                first_where(all_entries, faulty) is None,
                faulty == faulty_item(keys_spec),
                definitions@ == all_entries.take(k as int).map_values(
                    |entry: ItemEntry| item_def(keys_spec, entry),
                ),
            decreases entries.len(),
        {
            let entry = entries.remove(0);
            proof {
                assert(entry == all_entries[k as int]);
                first_where_finds_the_first(all_entries, faulty);
                assert(!faulty(all_entries[k as int]));
            }
            let spoils_into = match &entry.spoils_into {
                Some(key) => {
                    let found = position(&keys, key.as_str());
                    Some(ItemId(found.unwrap() as u16))
                },
                None => None,
            };
            let definition = ItemDef {
                key: entry.id,
                name: entry.name,
                kind: entry.kind,
                max_stack: entry.stack,
                shelf_life: entry.shelf_life,
                spoils_into,
                model: entry.model,
            };
            definitions.push(definition);
            proof {
                assert(all_entries.skip(k as int).drop_first() =~= all_entries.skip(k + 1));
                assert(all_entries.take(k + 1).map_values(|entry: ItemEntry| item_def(keys_spec, entry))
                    =~= all_entries.take(k as int).map_values(|entry: ItemEntry| item_def(keys_spec, entry)).push(
                    item_def(keys_spec, all_entries[k as int])));
            }
            k = k + 1;
        }
        proof {
            assert(all_entries.take(k as int) =~= all_entries);
        }
        let ghost all_stock = starting_inventory@;
        let mut stocks: Vec<(ItemId, u16)> = Vec::new();
        let mut i: usize = 0;
        while i < starting_inventory.len()
            invariant
                i <= starting_inventory.len(),
                all_stock == starting_inventory@,
                all_stock == file.starting_inventory@,
                file == self,
                keys@.len() <= MAX_DEFINITIONS,
                texts(keys@) == keys_spec,
                first_where(all_stock, bad_stock) is None,
                bad_stock == faulty_stock(keys_spec),
                stocks@ == all_stock.take(i as int).map_values(
                    |stock: (String, u16)| (item_id_of(keys_spec, stock.0@), stock.1),
                ),
            decreases starting_inventory.len() - i,
        {
            proof {
                first_where_finds_the_first(all_stock, bad_stock);
                assert(!bad_stock(all_stock[i as int]));
            }
            let found = position(&keys, starting_inventory[i].0.as_str());
            stocks.push((ItemId(found.unwrap() as u16), starting_inventory[i].1));
            proof {
                assert(all_stock.take(i + 1).map_values(|stock: (String, u16)| (item_id_of(keys_spec, stock.0@), stock.1))
                    =~= all_stock.take(i as int).map_values(|stock: (String, u16)| (item_id_of(keys_spec, stock.0@), stock.1)).push(
                    (item_id_of(keys_spec, all_stock[i as int].0@), all_stock[i as int].1)));
            }
            i = i + 1;
        }
        proof {
            assert(all_stock.take(i as int) =~= all_stock);
        }
        let items = Items { definitions, keys, starting_inventory: stocks, starting_money };
        proof {
            assert forall|j: int| 0 <= j < items.keys@.len() implies #[trigger] items.keys@[j]@
                == items.definitions@[j].key@ by {
                assert(texts(items.keys@)[j] == keys_spec[j]);
            }
        }
        Ok(items)
    }
}

} // verus!
