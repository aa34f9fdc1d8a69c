//! What holds of every catalog: its references resolve, its keys look up
//! their own definitions, and seeds, structure items and homes pair up as
//! the files promise.

use vstd::prelude::*;

use crate::calendar::date::Season;
use crate::content::catalog::{CatalogView, ContentFiles, harvest_season_list, with_new};
use crate::content::crop::{
    CropDef, CropEntry, crop_def, crop_keys, crops_problem, faulty_crop, unplanted,
};
use crate::content::item::{
    ItemDef, ItemId, ItemsFile, MAX_DEFINITIONS, entry_keys, faulty_item, faulty_stock, item_id_of,
    items_problem,
};
use crate::content::loading::{
    catalog_problem, file_items, ids_count, loaded, shop_ids, structure_ids,
};
use crate::content::lookup::{
    distinct, first_index_facts, first_repeat, first_where_finds_the_first, found_inside,
    no_earlier_no_repeat, no_repeat_is_distinct, position_of, position_of_finds_the_first, texts,
};
use crate::content::scenery::{
    PropDef, SceneryFile, faulty_prop, prop_keys, resolved_prop, scenery_problem, unknown_yield,
};
use crate::content::shop::{
    ShopDef, ShopsFile, faulty_shop, resolved_shop, shop_keys, shops_problem, unknown_buy,
    unknown_sale,
};
use crate::content::structure::{
    StructureDef, StructureEntry, StructureId, StructuresFile, built_item, homes,
    resolved_structure, structure_keys, structures_problem, unbuilt, unknown_placement, unresolved,
};
use crate::content::village::{VillageFile, unknown_place, village_problem};

verus! {

/// Whether every id that `c` holds refers to a definition it holds: the
/// items that items spoil into, that players start with, that crops grow
/// from and yield, that shops buy and sell, that props give and that
/// structures are built from; the structures that structures contain and
/// the village places; and the shops the village has stalls of.
pub open spec fn references_resolve(c: CatalogView) -> bool {
    &&& forall|i: int| 0 <= i < c.items.len() && (#[trigger] c.items[i]).spoils_into is Some
        ==> (c.items[i].spoils_into->0).0 < c.items.len()
    &&& forall|i: int| 0 <= i < c.starting_inventory.len() ==> (#[trigger] c.starting_inventory[i]).0.0 < c.items.len()
    &&& forall|i: int| 0 <= i < c.crops.len() ==> (#[trigger] c.crops[i]).seeds.0 < c.items.len()
        && c.crops[i].produce.0 < c.items.len()
    &&& forall|i: int, k: int| 0 <= i < c.shops.len() && 0 <= k < c.shops[i].buys@.len()
        ==> (#[trigger] c.shops[i].buys@[k]).item.0 < c.items.len()
    &&& forall|i: int, k: int| 0 <= i < c.shops.len() && 0 <= k < c.shops[i].sells@.len()
        ==> (#[trigger] c.shops[i].sells@[k]).item.0 < c.items.len()
    &&& forall|i: int, k: int| 0 <= i < c.props.len() && c.props[i].gather is Some && 0 <= k
        < c.props[i].gather->0.yields@.len() ==> (#[trigger] c.props[i].gather->0.yields@[k]).0.0 < c.items.len()
    &&& forall|i: int| 0 <= i < c.structures.len() && (#[trigger] c.structures[i]).built_from is Some
        ==> (c.structures[i].built_from->0).0 < c.items.len()
    &&& forall|i: int, k: int| 0 <= i < c.structures.len() && 0 <= k < c.structures[i].contains@.len()
        ==> (#[trigger] c.structures[i].contains@[k]).structure.0 < c.structures.len()
    &&& forall|k: int| 0 <= k < c.village.stalls@.len() ==> (#[trigger] c.village.stalls@[k]).shop.0 < c.shops.len()
    &&& forall|k: int| 0 <= k < c.village.structures@.len()
        ==> (#[trigger] c.village.structures@[k]).structure.0 < c.structures.len()
}

/// The keys of the items `items`.
pub open spec fn item_keys_of(items: Seq<ItemDef>) -> Seq<Seq<char>> {
    items.map_values(|item: ItemDef| item.key@)
}

/// The keys of the crops `crops`.
pub open spec fn crop_keys_of(crops: Seq<CropDef>) -> Seq<Seq<char>> {
    crops.map_values(|crop: CropDef| crop.key@)
}

/// The keys of the shops `shops`.
pub open spec fn shop_keys_of(shops: Seq<ShopDef>) -> Seq<Seq<char>> {
    shops.map_values(|shop: ShopDef| shop.key@)
}

/// The keys of the props `props`.
pub open spec fn prop_keys_of(props: Seq<PropDef>) -> Seq<Seq<char>> {
    props.map_values(|prop: PropDef| prop.key@)
}

/// The keys of the structures `structures`.
pub open spec fn structure_keys_of(structures: Seq<StructureDef>) -> Seq<Seq<char>> {
    structures.map_values(|structure: StructureDef| structure.key@)
}

/// Whether the keys `c` looks each kind of definition up by are the keys
/// of its definitions, in order, each defined once.
pub open spec fn keys_name_definitions(c: CatalogView) -> bool {
    &&& c.item_keys == item_keys_of(c.items) && distinct(c.item_keys)
    &&& c.crop_keys == crop_keys_of(c.crops) && distinct(c.crop_keys)
    &&& c.shop_keys == shop_keys_of(c.shops) && distinct(c.shop_keys)
    &&& c.prop_keys == prop_keys_of(c.props) && distinct(c.prop_keys)
    &&& c.structure_keys == structure_keys_of(c.structures) && distinct(c.structure_keys)
}

/// Whether looking each of `keys` up finds it where it stands, and
/// whatever a lookup among `keys` finds is the key looked up.
pub open spec fn looks_up(keys: Seq<Seq<char>>) -> bool {
    &&& forall|i: int| 0 <= i < keys.len() ==> position_of(keys, #[trigger] keys[i]) == Some(i as nat)
    &&& forall|key: Seq<char>| #[trigger] position_of(keys, key) is Some ==> position_of(keys, key).unwrap()
        < keys.len() && keys[position_of(keys, key).unwrap() as int] == key
}

/// Looking a definition up by its own key gives back its id, and a key
/// that finds an id is that definition's key, for every kind of
/// definition in a catalog.
pub proof fn keys_look_up_their_definitions(c: CatalogView)
    requires
        keys_name_definitions(c),
    ensures
        looks_up(c.item_keys),
        looks_up(c.crop_keys),
        looks_up(c.shop_keys),
        looks_up(c.prop_keys),
        looks_up(c.structure_keys),
{
    distinct_keys_look_up(c.item_keys);
    distinct_keys_look_up(c.crop_keys);
    distinct_keys_look_up(c.shop_keys);
    distinct_keys_look_up(c.prop_keys);
    distinct_keys_look_up(c.structure_keys);
}

/// Distinct keys look up where they stand.
proof fn distinct_keys_look_up(keys: Seq<Seq<char>>)
    requires
        distinct(keys),
    ensures
        looks_up(keys),
{
    assert forall|i: int| 0 <= i < keys.len() implies position_of(keys, #[trigger] keys[i]) == Some(i as nat) by {
        position_of_finds_the_first(keys, keys[i]);
    }
    assert forall|key: Seq<char>| #[trigger] position_of(keys, key) is Some implies position_of(keys, key).unwrap()
        < keys.len() && keys[position_of(keys, key).unwrap() as int] == key by {
        found_inside(keys, key);
    }
}

/// What `with_new` holds: everything of both, with nothing twice if
/// `seen` holds nothing twice.
proof fn with_new_holds(seen: Seq<Season>, more: Seq<Season>)
    ensures
        forall|season: Season| #[trigger] with_new(seen, more).contains(season) <==> seen.contains(season)
            || more.contains(season),
        seen.no_duplicates() ==> with_new(seen, more).no_duplicates(),
    decreases more.len(),
{
    if more.len() > 0 {
        let init = more.drop_last();
        with_new_holds(seen, init);
        let before = with_new(seen, init);
        assert forall|season: Season| #[trigger] with_new(seen, more).contains(season) <==> seen.contains(season)
            || more.contains(season) by {
            if more.contains(season) && !init.contains(season) {
                let k = choose|k: int| 0 <= k < more.len() && more[k] == season;
                if k < init.len() {
                    assert(init[k] == season);
                }
                assert(season == more.last());
            }
            if init.contains(season) {
                let k = choose|k: int| 0 <= k < init.len() && init[k] == season;
                assert(more[k] == season);
            }
            if !before.contains(more.last()) {
                assert(before.push(more.last()).contains(season) <==> before.contains(season) || season == more.last()) by {
                    if season == more.last() {
                        assert(before.push(more.last())[before.len() as int] == season);
                    }
                    if before.push(more.last()).contains(season) {
                        let k = choose|k: int| 0 <= k < before.len() + 1 && before.push(more.last())[k] == season;
                        if k < before.len() {
                            assert(before[k] == season);
                        }
                    }
                    if before.contains(season) {
                        let k = choose|k: int| 0 <= k < before.len() && before[k] == season;
                        assert(before.push(more.last())[k] == season);
                    }
                }
            }
        }
    }
}

/// The harvest seasons of `item` are the seasons its crops grow in, each
/// listed once.
pub proof fn harvest_seasons_are_those_of_its_crops(crops: Seq<CropDef>, item: ItemId)
    ensures
        harvest_season_list(crops, item).no_duplicates(),
        forall|season: Season| #[trigger] harvest_season_list(crops, item).contains(season) <==> exists|i: int|
            0 <= i < crops.len() && (#[trigger] crops[i]).produce == item && crops[i].seasons@.contains(season),
    decreases crops.len(),
{
    if crops.len() > 0 {
        let init = crops.drop_last();
        harvest_seasons_are_those_of_its_crops(init, item);
        let before = harvest_season_list(init, item);
        with_new_holds(before, crops.last().seasons@);
        assert forall|season: Season| #[trigger] harvest_season_list(crops, item).contains(season) <==> exists|i: int|
            0 <= i < crops.len() && (#[trigger] crops[i]).produce == item && crops[i].seasons@.contains(season) by {
            if exists|i: int| 0 <= i < crops.len() && (#[trigger] crops[i]).produce == item && crops[i].seasons@.contains(season) {
                let i = choose|i: int| 0 <= i < crops.len() && (#[trigger] crops[i]).produce == item && crops[i].seasons@.contains(season);
                if i < init.len() {
                    assert(init[i] == crops[i]);
                }
            }
            if exists|i: int| 0 <= i < init.len() && (#[trigger] init[i]).produce == item && init[i].seasons@.contains(season) {
                let i = choose|i: int| 0 <= i < init.len() && (#[trigger] init[i]).produce == item && init[i].seasons@.contains(season);
                assert(crops[i] == init[i]);
            }
            if crops.last().produce == item && crops.last().seasons@.contains(season) {
                assert(crops[crops.len() - 1] == crops.last());
            }
        }
    }
}

/// A key found among `keys`, of at most `MAX_DEFINITIONS` keys, names the
/// id that is its position.
proof fn found_id(keys: Seq<Seq<char>>, key: Seq<char>)
    requires
        position_of(keys, key) is Some,
        keys.len() <= MAX_DEFINITIONS,
    ensures
        (position_of(keys, key).unwrap() as u16) == position_of(keys, key).unwrap(),
        position_of(keys, key).unwrap() < keys.len(),
{
    found_inside(keys, key);
}

/// A valid items file refers only to its own items.
proof fn items_refer_to_items(file: ItemsFile)
    requires
        items_problem(file) is None,
        file.items@.len() <= MAX_DEFINITIONS,
    ensures
        forall|i: int| 0 <= i < file.items@.len() && (#[trigger] file_items(file)[i]).spoils_into is Some
            ==> (file_items(file)[i].spoils_into->0).0 < file.items@.len(),
        forall|i: int| 0 <= i < file.starting_inventory@.len() ==> item_id_of(
            entry_keys(file.items@),
            (#[trigger] file.starting_inventory@[i]).0@,
        ).0 < file.items@.len(),
        distinct(entry_keys(file.items@)),
{
    let keys = entry_keys(file.items@);
    first_where_finds_the_first(file.items@, faulty_item(keys));
    first_where_finds_the_first(file.starting_inventory@, faulty_stock(keys));
    no_repeat_is_distinct(keys);
    assert forall|i: int| 0 <= i < file.items@.len() && (#[trigger] file_items(file)[i]).spoils_into is Some
        implies (file_items(file)[i].spoils_into->0).0 < file.items@.len() by {
        assert(!faulty_item(keys)(file.items@[i]));
        found_id(keys, file.items@[i].spoils_into->0@);
    }
    assert forall|i: int| 0 <= i < file.starting_inventory@.len() implies item_id_of(
        keys,
        (#[trigger] file.starting_inventory@[i]).0@,
    ).0 < file.items@.len() by {
        assert(!faulty_stock(keys)(file.starting_inventory@[i]));
        found_id(keys, file.starting_inventory@[i].0@);
    }
}

/// Valid crops grow from and yield items there are, and each is defined
/// once.
proof fn crops_refer_to_items(keys: Seq<Seq<char>>, definitions: Seq<ItemDef>, entries: Seq<CropEntry>)
    requires
        crops_problem(keys, definitions, entries) is None,
        keys.len() <= MAX_DEFINITIONS,
    ensures
        forall|j: int| 0 <= j < entries.len() ==> item_id_of(keys, (#[trigger] entries[j]).seeds@).0 < keys.len()
            && item_id_of(keys, entries[j].produce@).0 < keys.len(),
        first_repeat(crop_keys(entries)) is None,
{
    let faulty = faulty_crop(keys, definitions, entries);
    first_index_facts(entries.len(), entries.len(), faulty);
    assert forall|j: int| 0 <= j < entries.len() implies item_id_of(keys, (#[trigger] entries[j]).seeds@).0
        < keys.len() && item_id_of(keys, entries[j].produce@).0 < keys.len() by {
        assert(!faulty(j as nat));
        found_id(keys, entries[j].seeds@);
        found_id(keys, entries[j].produce@);
    }
    assert forall|j: int| 0 <= j < entries.len() implies position_of(
        #[trigger] crop_keys(entries).take(j),
        crop_keys(entries)[j],
    ) is None by {
        assert(!faulty(j as nat));
        assert(crop_keys(entries).take(j) =~= crop_keys(entries.take(j)));
    }
    no_earlier_no_repeat(crop_keys(entries));
}

/// Valid shops buy and sell items there are, and each is defined once.
proof fn shops_refer_to_items(keys: Seq<Seq<char>>, file: ShopsFile)
    requires
        shops_problem(keys, file) is None,
        keys.len() <= MAX_DEFINITIONS,
    ensures
        forall|j: int, k: int| 0 <= j < file.shops@.len() && 0 <= k < file.shops@[j].buys@.len()
            ==> item_id_of(keys, (#[trigger] file.shops@[j].buys@[k]).0@).0 < keys.len(),
        forall|j: int, k: int| 0 <= j < file.shops@.len() && 0 <= k < file.shops@[j].sells@.len()
            ==> item_id_of(keys, (#[trigger] file.shops@[j].sells@[k]).item@).0 < keys.len(),
        first_repeat(shop_keys(file.shops@)) is None,
{
    let entries = file.shops@;
    let faulty = faulty_shop(keys, entries);
    first_index_facts(entries.len(), entries.len(), faulty);
    assert forall|j: int, k: int| 0 <= j < entries.len() && 0 <= k < entries[j].buys@.len()
        implies item_id_of(keys, (#[trigger] entries[j].buys@[k]).0@).0 < keys.len() by {
        assert(!faulty(j as nat));
        first_where_finds_the_first(entries[j].buys@, unknown_buy(keys));
        assert(!unknown_buy(keys)(entries[j].buys@[k]));
        found_id(keys, entries[j].buys@[k].0@);
    }
    assert forall|j: int, k: int| 0 <= j < entries.len() && 0 <= k < entries[j].sells@.len()
        implies item_id_of(keys, (#[trigger] entries[j].sells@[k]).item@).0 < keys.len() by {
        assert(!faulty(j as nat));
        first_where_finds_the_first(entries[j].buys@, unknown_buy(keys));
        first_where_finds_the_first(entries[j].sells@, unknown_sale(keys));
        assert(!unknown_sale(keys)(entries[j].sells@[k]));
        found_id(keys, entries[j].sells@[k].item@);
    }
    assert forall|j: int| 0 <= j < entries.len() implies position_of(
        #[trigger] shop_keys(entries).take(j),
        shop_keys(entries)[j],
    ) is None by {
        assert(!faulty(j as nat));
        assert(shop_keys(entries).take(j) =~= shop_keys(entries.take(j)));
    }
    no_earlier_no_repeat(shop_keys(entries));
}

/// Valid props give items there are, and each is defined once.
proof fn props_refer_to_items(keys: Seq<Seq<char>>, file: SceneryFile)
    requires
        scenery_problem(keys, file) is None,
        keys.len() <= MAX_DEFINITIONS,
    ensures
        forall|j: int, k: int| 0 <= j < file.props@.len() && file.props@[j].gather is Some && 0 <= k
            < file.props@[j].gather->0.yields@.len() ==> item_id_of(
            keys,
            (#[trigger] file.props@[j].gather->0.yields@[k]).0@,
        ).0 < keys.len(),
        first_repeat(prop_keys(file.props@)) is None,
{
    let entries = file.props@;
    let faulty = faulty_prop(keys, entries);
    first_index_facts(entries.len(), entries.len(), faulty);
    assert forall|j: int, k: int| 0 <= j < entries.len() && entries[j].gather is Some && 0 <= k
        < entries[j].gather->0.yields@.len() implies item_id_of(
        keys,
        (#[trigger] entries[j].gather->0.yields@[k]).0@,
    ).0 < keys.len() by {
        assert(!faulty(j as nat));
        first_where_finds_the_first(entries[j].gather->0.yields@, unknown_yield(keys));
        assert(!unknown_yield(keys)(entries[j].gather->0.yields@[k]));
        found_id(keys, entries[j].gather->0.yields@[k].0@);
    }
    assert forall|j: int| 0 <= j < entries.len() implies position_of(
        #[trigger] prop_keys(entries).take(j),
        prop_keys(entries)[j],
    ) is None by {
        assert(!faulty(j as nat));
        assert(prop_keys(entries).take(j) =~= prop_keys(entries.take(j)));
    }
    no_earlier_no_repeat(prop_keys(entries));
}

/// Valid structures are built from items there are and contain structures
/// there are, and each is defined once.
proof fn structures_refer_to_definitions(keys: Seq<Seq<char>>, definitions: Seq<ItemDef>, file: StructuresFile)
    requires
        structures_problem(keys, definitions, file) is None,
        keys.len() <= MAX_DEFINITIONS,
        file.structures@.len() <= MAX_DEFINITIONS,
    ensures
        forall|j: int| 0 <= j < file.structures@.len() && (#[trigger] file.structures@[j]).built_from is Some
            ==> item_id_of(keys, file.structures@[j].built_from->0@).0 < keys.len(),
        forall|j: int, k: int| 0 <= j < file.structures@.len() && 0 <= k < file.structures@[j].contains@.len()
            ==> (position_of(
            structure_keys(file.structures@),
            (#[trigger] file.structures@[j].contains@[k]).structure@,
        ).unwrap() as u16) < file.structures@.len(),
        first_repeat(structure_keys(file.structures@)) is None,
{
    let entries = file.structures@;
    let structure_keys = structure_keys(entries);
    let not_resolved = unresolved(keys, definitions, entries);
    first_index_facts(entries.len(), entries.len(), not_resolved);
    assert forall|j: int| 0 <= j < entries.len() && (#[trigger] entries[j]).built_from is Some
        implies item_id_of(keys, entries[j].built_from->0@).0 < keys.len() by {
        assert(!not_resolved(j as nat));
        found_id(keys, entries[j].built_from->0@);
    }
    assert forall|j: int, k: int| 0 <= j < entries.len() && 0 <= k < entries[j].contains@.len()
        implies (position_of(structure_keys, (#[trigger] entries[j].contains@[k]).structure@).unwrap() as u16)
        < entries.len() by {
        assert(!not_resolved(j as nat));
        first_where_finds_the_first(entries[j].contains@, unknown_placement(structure_keys));
        assert(!unknown_placement(structure_keys)(entries[j].contains@[k]));
        found_id(structure_keys, entries[j].contains@[k].structure@);
    }
}

/// A valid village places shops and structures there are.
proof fn village_refers_to_definitions(shops: Seq<String>, structures: Seq<String>, file: VillageFile)
    requires
        village_problem(shops, structures, file) is None,
        shops.len() <= MAX_DEFINITIONS,
        structures.len() <= MAX_DEFINITIONS,
    ensures
        forall|k: int| 0 <= k < file.stalls@.len() ==> (position_of(texts(shops), (#[trigger] file.stalls@[k]).id@).unwrap() as u16)
            < shops.len(),
        forall|k: int| 0 <= k < file.structures@.len() ==> (position_of(
            texts(structures),
            (#[trigger] file.structures@[k]).id@,
        ).unwrap() as u16) < structures.len(),
{
    first_where_finds_the_first(file.stalls@, unknown_place(texts(shops)));
    first_where_finds_the_first(file.structures@, unknown_place(texts(structures)));
    assert forall|k: int| 0 <= k < file.stalls@.len() implies (position_of(texts(shops), (#[trigger] file.stalls@[k]).id@).unwrap() as u16)
        < shops.len() by {
        assert(!unknown_place(texts(shops))(file.stalls@[k]));
        found_id(texts(shops), file.stalls@[k].id@);
    }
    assert forall|k: int| 0 <= k < file.structures@.len() implies (position_of(
        texts(structures),
        (#[trigger] file.structures@[k]).id@,
    ).unwrap() as u16) < structures.len() by {
        assert(!unknown_place(texts(structures))(file.structures@[k]));
        found_id(texts(structures), file.structures@[k].id@);
    }
}

/// Loading valid content files gives a catalog whose references resolve
/// and whose keys name its definitions.
pub proof fn valid_files_resolve(c: CatalogView, files: ContentFiles)
    requires
        ids_count(files),
        catalog_problem(files) is None,
        loaded(c, files),
    ensures
        references_resolve(c),
        keys_name_definitions(c),
{
    let item_keys = entry_keys(files.items.items@);
    let items = file_items(files.items);
    let crops = files.crops.crops@;
    let shops = files.shops.shops@;
    let props = files.scenery.props@;
    let structures = files.structures.structures@;
    items_refer_to_items(files.items);
    crops_refer_to_items(item_keys, items, crops);
    shops_refer_to_items(item_keys, files.shops);
    props_refer_to_items(item_keys, files.scenery);
    structures_refer_to_definitions(item_keys, items, files.structures);
    assert(texts(shop_ids(shops)) =~= shop_keys(shops));
    assert(texts(structure_ids(structures)) =~= structure_keys(structures));
    village_refers_to_definitions(shop_ids(shops), structure_ids(structures), files.village);
    assert forall|i: int| 0 <= i < c.starting_inventory.len() implies (#[trigger] c.starting_inventory[i]).0.0
        < c.items.len() by {
        assert(c.starting_inventory[i].0 == item_id_of(item_keys, files.items.starting_inventory@[i].0@));
    }
    assert forall|i: int| 0 <= i < c.crops.len() implies (#[trigger] c.crops[i]).seeds.0 < c.items.len()
        && c.crops[i].produce.0 < c.items.len() by {
        assert(c.crops[i] == crop_def(item_keys, crops[i]));
    }
    assert forall|i: int, k: int| 0 <= i < c.shops.len() && 0 <= k < c.shops[i].buys@.len()
        implies (#[trigger] c.shops[i].buys@[k]).item.0 < c.items.len() by {
        assert(resolved_shop(c.shops[i], item_keys, shops[i]));
        assert(c.shops[i].buys@[k].item == item_id_of(item_keys, shops[i].buys@[k].0@));
    }
    assert forall|i: int, k: int| 0 <= i < c.shops.len() && 0 <= k < c.shops[i].sells@.len()
        implies (#[trigger] c.shops[i].sells@[k]).item.0 < c.items.len() by {
        assert(resolved_shop(c.shops[i], item_keys, shops[i]));
        assert(c.shops[i].sells@[k].item == item_id_of(item_keys, shops[i].sells@[k].item@));
    }
    assert forall|i: int, k: int| 0 <= i < c.props.len() && c.props[i].gather is Some && 0 <= k
        < c.props[i].gather->0.yields@.len() implies (#[trigger] c.props[i].gather->0.yields@[k]).0.0
        < c.items.len() by {
        assert(resolved_prop(c.props[i], item_keys, props[i]));
        assert(props[i].gather is Some);
        assert(c.props[i].gather->0.yields@[k].0 == item_id_of(item_keys, props[i].gather->0.yields@[k].0@));
    }
    assert forall|i: int| 0 <= i < c.structures.len() && (#[trigger] c.structures[i]).built_from is Some
        implies (c.structures[i].built_from->0).0 < c.items.len() by {
        assert(resolved_structure(c.structures[i], item_keys, structure_keys(structures), structures[i]));
    }
    assert forall|i: int, k: int| 0 <= i < c.structures.len() && 0 <= k < c.structures[i].contains@.len()
        implies (#[trigger] c.structures[i].contains@[k]).structure.0 < c.structures.len() by {
        assert(resolved_structure(c.structures[i], item_keys, structure_keys(structures), structures[i]));
        assert(c.structures[i].contains@[k].structure == StructureId(
            position_of(structure_keys(structures), structures[i].contains@[k].structure@).unwrap() as u16,
        ));
    }
    assert forall|k: int| 0 <= k < c.village.stalls@.len() implies (#[trigger] c.village.stalls@[k]).shop.0
        < c.shops.len() by {
        assert(files.village.stalls@[k] == files.village.stalls@[k]);
    }
    assert forall|k: int| 0 <= k < c.village.structures@.len() implies (
    #[trigger] c.village.structures@[k]).structure.0 < c.structures.len() by {
        assert(files.village.structures@[k] == files.village.structures@[k]);
    }
    assert(c.item_keys =~= item_keys_of(c.items));
    assert(c.crop_keys =~= crop_keys_of(c.crops));
    assert(c.shop_keys =~= shop_keys_of(c.shops)) by {
        assert forall|i: int| 0 <= i < c.shops.len() implies c.shop_keys[i] == shop_keys_of(c.shops)[i] by {
            assert(resolved_shop(c.shops[i], item_keys, shops[i]));
        }
    }
    assert(c.prop_keys =~= prop_keys_of(c.props)) by {
        assert forall|i: int| 0 <= i < c.props.len() implies c.prop_keys[i] == prop_keys_of(c.props)[i] by {
            assert(resolved_prop(c.props[i], item_keys, props[i]));
        }
    }
    assert(c.structure_keys =~= structure_keys_of(c.structures)) by {
        assert forall|i: int| 0 <= i < c.structures.len() implies c.structure_keys[i]
            == structure_keys_of(c.structures)[i] by {
            assert(resolved_structure(c.structures[i], item_keys, structure_keys(structures), structures[i]));
        }
    }
    no_repeat_is_distinct(c.crop_keys);
    no_repeat_is_distinct(c.shop_keys);
    no_repeat_is_distinct(c.prop_keys);
    no_repeat_is_distinct(c.structure_keys);
}

/// Whether in `c` every crop grows from a seed item and every seed item
/// grows exactly one crop; every structure built from an item is built
/// from a structure item, and every structure item builds exactly one
/// structure; and at most one structure is every player's home.
pub open spec fn pairings_hold(c: CatalogView) -> bool {
    &&& forall|j: int| 0 <= j < c.crops.len() ==> c.items[(#[trigger] c.crops[j]).seeds.0 as int].kind is Seed
    &&& forall|k: int| 0 <= k < c.items.len() && (#[trigger] c.items[k]).kind is Seed ==> exists|j: int|
        0 <= j < c.crops.len() && (#[trigger] c.crops[j]).seeds == ItemId(k as u16)
    &&& forall|i: int, j: int| 0 <= i < j < c.crops.len() ==> (#[trigger] c.crops[i]).seeds != (
    #[trigger] c.crops[j]).seeds
    &&& forall|j: int| 0 <= j < c.structures.len() && (#[trigger] c.structures[j]).built_from is Some
        ==> c.items[(c.structures[j].built_from->0).0 as int].kind is Structure
    &&& forall|k: int| 0 <= k < c.items.len() && (#[trigger] c.items[k]).kind is Structure ==> exists|j: int|
        0 <= j < c.structures.len() && (#[trigger] c.structures[j]).built_from == Some(ItemId(k as u16))
    &&& forall|i: int, j: int| 0 <= i < j < c.structures.len() && (#[trigger] c.structures[i]).built_from is Some
        ==> c.structures[i].built_from != (#[trigger] c.structures[j]).built_from
    &&& forall|i: int, j: int| 0 <= i < j < c.structures.len() ==> !((#[trigger] c.structures[i]).home && (
    #[trigger] c.structures[j]).home)
}

/// Two different positions that a lookup finds give different ids.
proof fn found_ids_differ(keys: Seq<Seq<char>>, a: Seq<char>, b: Seq<char>)
    requires
        keys.len() <= MAX_DEFINITIONS,
        position_of(keys, a) is Some,
        position_of(keys, b) is Some,
        position_of(keys, a) != position_of(keys, b),
    ensures
        item_id_of(keys, a) != item_id_of(keys, b),
{
    found_id(keys, a);
    found_id(keys, b);
}

/// A home among the structures `entries` counts.
proof fn one_home(entries: Seq<StructureEntry>, i: int)
    requires
        0 <= i < entries.len(),
        entries[i].home,
    ensures
        homes(entries) >= 1,
    decreases entries.len(),
{
    if i < entries.len() - 1 {
        one_home(entries.drop_last(), i);
    }
}

/// Two homes among the structures `entries` count twice.
proof fn two_homes(entries: Seq<StructureEntry>, i: int, j: int)
    requires
        0 <= i < j < entries.len(),
        entries[i].home,
        entries[j].home,
    ensures
        homes(entries) >= 2,
    decreases entries.len(),
{
    if j == entries.len() - 1 {
        one_home(entries.drop_last(), i);
    } else {
        two_homes(entries.drop_last(), i, j);
    }
}

/// Loading valid content files pairs seeds with crops, structure items
/// with structures, and leaves at most one home.
pub proof fn valid_files_pair(c: CatalogView, files: ContentFiles)
    requires
        ids_count(files),
        catalog_problem(files) is None,
        loaded(c, files),
    ensures
        pairings_hold(c),
{
    let item_keys = entry_keys(files.items.items@);
    let items = file_items(files.items);
    let crops = files.crops.crops@;
    let structures = files.structures.structures@;
    let faulty = faulty_crop(item_keys, items, crops);
    first_index_facts(crops.len(), crops.len(), faulty);
    first_index_facts(items.len(), items.len(), unplanted(item_keys, items, crops));
    assert forall|j: int| 0 <= j < c.crops.len() implies c.items[(#[trigger] c.crops[j]).seeds.0 as int].kind is Seed by {
        assert(!faulty(j as nat));
        found_id(item_keys, crops[j].seeds@);
        assert(c.crops[j] == crop_def(item_keys, crops[j]));
    }
    assert forall|k: int| 0 <= k < c.items.len() && (#[trigger] c.items[k]).kind is Seed implies exists|j: int|
        0 <= j < c.crops.len() && (#[trigger] c.crops[j]).seeds == ItemId(k as u16) by {
        assert(!unplanted(item_keys, items, crops)(k as nat));
        let j = choose|j: int| 0 <= j < crops.len() && position_of(item_keys, #[trigger] crops[j].seeds@) == Some(k as nat);
        assert(c.crops[j] == crop_def(item_keys, crops[j]));
    }
    assert forall|i: int, j: int| 0 <= i < j < c.crops.len() implies (#[trigger] c.crops[i]).seeds != (
    #[trigger] c.crops[j]).seeds by {
        assert(!faulty(i as nat));
        assert(!faulty(j as nat));
        let same = |m: nat| position_of(item_keys, crops[m as int].seeds@) == position_of(item_keys, crops[j].seeds@);
        first_index_facts(j as nat, j as nat, same);
        assert(!same(i as nat));
        found_ids_differ(item_keys, crops[i].seeds@, crops[j].seeds@);
        assert(c.crops[i] == crop_def(item_keys, crops[i]));
        assert(c.crops[j] == crop_def(item_keys, crops[j]));
    }
    let not_resolved = unresolved(item_keys, items, structures);
    let lonely = unbuilt(item_keys, items, structures);
    first_index_facts(structures.len(), structures.len(), not_resolved);
    first_index_facts(items.len(), items.len(), lonely);
    assert forall|j: int| 0 <= j < c.structures.len() && (#[trigger] c.structures[j]).built_from is Some
        implies c.items[(c.structures[j].built_from->0).0 as int].kind is Structure by {
        assert(!not_resolved(j as nat));
        assert(resolved_structure(c.structures[j], item_keys, structure_keys(structures), structures[j]));
        found_id(item_keys, structures[j].built_from->0@);
    }
    assert forall|k: int| 0 <= k < c.items.len() && (#[trigger] c.items[k]).kind is Structure implies exists|j: int|
        0 <= j < c.structures.len() && (#[trigger] c.structures[j]).built_from == Some(ItemId(k as u16)) by {
        assert(!lonely(k as nat));
        let j = choose|j: int| 0 <= j < structures.len() && (#[trigger] structures[j]).built_from is Some
            && built_item(item_keys, structures[j]) == k;
        assert(!not_resolved(j as nat));
        assert(resolved_structure(c.structures[j], item_keys, structure_keys(structures), structures[j]));
        found_id(item_keys, structures[j].built_from->0@);
    }
    assert forall|i: int, j: int| 0 <= i < j < c.structures.len() && (#[trigger] c.structures[i]).built_from is Some
        implies c.structures[i].built_from != (#[trigger] c.structures[j]).built_from by {
        assert(!not_resolved(j as nat));
        assert(!not_resolved(i as nat));
        assert(resolved_structure(c.structures[i], item_keys, structure_keys(structures), structures[i]));
        assert(resolved_structure(c.structures[j], item_keys, structure_keys(structures), structures[j]));
        if structures[j].built_from is Some {
            found_id(item_keys, structures[i].built_from->0@);
            found_id(item_keys, structures[j].built_from->0@);
            assert(built_item(item_keys, structures[i]) != built_item(item_keys, structures[j]));
        }
    }
    assert forall|i: int, j: int| 0 <= i < j < c.structures.len() implies !((#[trigger] c.structures[i]).home && (
    #[trigger] c.structures[j]).home) by {
        assert(resolved_structure(c.structures[i], item_keys, structure_keys(structures), structures[i]));
        assert(resolved_structure(c.structures[j], item_keys, structure_keys(structures), structures[j]));
        if structures[i].home && structures[j].home {
            two_homes(structures, i, j);
        }
    }
}

/// Every shop in a catalog loaded from valid content files charges for
/// everything it sells and pays for everything it buys: no price is 0.
pub proof fn loaded_shops_never_trade_for_nothing(c: CatalogView, files: ContentFiles)
    requires
        catalog_problem(files) is None,
        loaded(c, files),
    ensures
        forall|i: int, k: int| 0 <= i < c.shops.len() && 0 <= k < c.shops[i].sells@.len()
            ==> (#[trigger] c.shops[i].sells@[k]).price > 0,
        forall|i: int, k: int| 0 <= i < c.shops.len() && 0 <= k < c.shops[i].buys@.len()
            ==> (#[trigger] c.shops[i].buys@[k]).base_price > 0,
{
    let item_keys = entry_keys(files.items.items@);
    let shops = files.shops.shops@;
    let faulty = faulty_shop(item_keys, shops);
    assert(shops_problem(item_keys, files.shops) is None);
    first_index_facts(shops.len(), shops.len(), faulty);
    assert forall|i: int, k: int| 0 <= i < c.shops.len() && 0 <= k < c.shops[i].sells@.len()
        implies (#[trigger] c.shops[i].sells@[k]).price > 0 by {
        assert(!faulty(i as nat));
        assert(resolved_shop(c.shops[i], item_keys, shops[i]));
        assert(c.shops[i].sells@[k].price == shops[i].sells@[k].price);
        assert(shops[i].sells@[k].price != 0);
    }
    assert forall|i: int, k: int| 0 <= i < c.shops.len() && 0 <= k < c.shops[i].buys@.len()
        implies (#[trigger] c.shops[i].buys@[k]).base_price > 0 by {
        assert(!faulty(i as nat));
        assert(resolved_shop(c.shops[i], item_keys, shops[i]));
        assert(c.shops[i].buys@[k].base_price == shops[i].buys@[k].1);
        assert(shops[i].buys@[k].1 != 0);
    }
}

} // verus!
