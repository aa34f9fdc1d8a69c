//! What loading the content files checks, in what order, and what a
//! catalog built from valid files holds.

use vstd::prelude::*;

use crate::content::catalog::{CatalogView, ContentFiles, LoadFailure, ParsedFiles};
use crate::content::crop::{CropEntry, crop_def, crop_keys, crops_problem, first_too_long};
use crate::content::dig::{claims, digging_problem, dug_items, material_index, owner};
use crate::content::error::{ContentError, ContentFile, Problem};
use crate::content::item::{
    ItemDef, ItemEntry, ItemId, ItemsFile, MAX_DEFINITIONS, entry_keys, item_def, item_id_of,
    items_problem,
};
use crate::content::lookup::position_of;
use crate::content::material::Material;
use crate::content::palette::{Palette, palette_problem};
use crate::content::people::{Characters, characters_fault};
use crate::content::scenery::{prop_keys, resolved_prop, scenery_problem};
use crate::content::shop::{ShopEntry, ShopId, ShopsFile, resolved_shop, shop_keys, shops_problem};
use crate::content::structure::{
    Placement, StructureEntry, StructureId, resolved_structure, structure_keys, structures_problem,
};
use crate::content::village::{PlaceEntry, Stall, Village, village_problem};

verus! {

/// The keys of the shops `entries`, as written.
pub open spec fn shop_ids(entries: Seq<ShopEntry>) -> Seq<String> {
    entries.map_values(|entry: ShopEntry| entry.id)
}

/// The keys of the structures `entries`, as written.
pub open spec fn structure_ids(entries: Seq<StructureEntry>) -> Seq<String> {
    entries.map_values(|entry: StructureEntry| entry.id)
}

/// The item definitions that the items file `file` describes.
pub open spec fn file_items(file: ItemsFile) -> Seq<ItemDef> {
    file.items@.map_values(|entry: ItemEntry| item_def(entry_keys(file.items@), entry))
}

/// `problem`, if there is one, found in `file`.
pub open spec fn in_file(file: ContentFile, problem: Option<Problem>) -> Option<ContentError> {
    match problem {
        Some(problem) => Some(ContentError { file, problem }),
        None => None,
    }
}

/// The first problem of the content files, and the file it is in: the
/// files are checked in order, items first (with which item each material
/// is dug as), then crops, shops, scenery, palette, structures, characters
/// and the village.
pub open spec fn catalog_problem(files: ContentFiles) -> Option<ContentError> {
    let item_keys = entry_keys(files.items.items@);
    let items = file_items(files.items);
    if items_problem(files.items) is Some {
        in_file(ContentFile::Items, items_problem(files.items))
    } else if digging_problem(items) is Some {
        in_file(ContentFile::Items, digging_problem(items))
    } else if crops_problem(item_keys, items, files.crops.crops@) is Some {
        in_file(ContentFile::Crops, crops_problem(item_keys, items, files.crops.crops@))
    } else if shops_problem(item_keys, files.shops) is Some {
        in_file(ContentFile::Shops, shops_problem(item_keys, files.shops))
    } else if scenery_problem(item_keys, files.scenery) is Some {
        in_file(ContentFile::Scenery, scenery_problem(item_keys, files.scenery))
    } else if palette_problem(files.palette) is Some {
        in_file(ContentFile::Palette, palette_problem(files.palette))
    } else if structures_problem(item_keys, items, files.structures) is Some {
        in_file(ContentFile::Structures, structures_problem(item_keys, items, files.structures))
    } else if characters_fault(files.characters) is Some {
        Some(ContentError {
            file: ContentFile::Characters,
            problem: Problem::InvalidCharacters(characters_fault(files.characters).unwrap()),
        })
    } else {
        in_file(
            ContentFile::Village,
            village_problem(
                shop_ids(files.shops.shops@),
                structure_ids(files.structures.structures@),
                files.village,
            ),
        )
    }
}

/// The files of `files`, where every one was read.
pub open spec fn read_files<E>(files: ParsedFiles<E>) -> ContentFiles {
    ContentFiles {
        items: files.items->Ok_0,
        crops: files.crops->Ok_0,
        shops: files.shops->Ok_0,
        scenery: files.scenery->Ok_0,
        palette: files.palette->Ok_0,
        structures: files.structures->Ok_0,
        characters: files.characters->Ok_0,
        village: files.village->Ok_0,
    }
}

/// Whether every file of `files` was read.
pub open spec fn all_read<E>(files: ParsedFiles<E>) -> bool {
    &&& files.items is Ok
    &&& files.crops is Ok
    &&& files.shops is Ok
    &&& files.scenery is Ok
    &&& files.palette is Ok
    &&& files.structures is Ok
    &&& files.characters is Ok
    &&& files.village is Ok
}

/// `problem`, if there is one, found in `file`, as a failure to load.
pub open spec fn invalid_in<E>(file: ContentFile, problem: Option<Problem>) -> Option<LoadFailure<E>> {
    match problem {
        Some(problem) => Some(LoadFailure::Invalid(ContentError { file, problem })),
        None => None,
    }
}

/// The first failure in loading `files`, taken one at a time in order: a
/// file that was not read, a crop whose days to ripen run past what a day
/// count holds where checking the crops comes to it, or the first problem
/// of a file read, which is checked against the files before it, as
/// `catalog_problem` checks them.
pub open spec fn parsed_problem<E>(files: ParsedFiles<E>) -> Option<LoadFailure<E>> {
    match files.items {
        Err(error) => Some(LoadFailure::Unparsed { file: ContentFile::Items, error }),
        Ok(items_file) => {
            let item_keys = entry_keys(items_file.items@);
            let items = file_items(items_file);
            if items_problem(items_file) is Some {
                invalid_in(ContentFile::Items, items_problem(items_file))
            } else if digging_problem(items) is Some {
                invalid_in(ContentFile::Items, digging_problem(items))
            } else {
                match files.crops {
                    Err(error) => Some(LoadFailure::Unparsed { file: ContentFile::Crops, error }),
                    Ok(crops) => if first_too_long(item_keys, items, crops.crops@) is Some {
                        Some(
                            LoadFailure::TooLong {
                                crop: crops.crops@[first_too_long(item_keys, items, crops.crops@).unwrap() as int].id,
                            },
                        )
                    } else if crops_problem(item_keys, items, crops.crops@) is Some {
                        invalid_in(ContentFile::Crops, crops_problem(item_keys, items, crops.crops@))
                    } else {
                        match files.shops {
                            Err(error) => Some(LoadFailure::Unparsed { file: ContentFile::Shops, error }),
                            Ok(shops) => if shops_problem(item_keys, shops) is Some {
                                invalid_in(ContentFile::Shops, shops_problem(item_keys, shops))
                            } else {
                                parsed_problem_after_shops(files, item_keys, items, shops)
                            },
                        }
                    },
                }
            }
        },
    }
}

/// The first failure in loading `files` once the items and the shops
/// `shops`, among items keyed `item_keys` and defined as `items`, are
/// valid.
pub open spec fn parsed_problem_after_shops<E>(
    files: ParsedFiles<E>,
    item_keys: Seq<Seq<char>>,
    items: Seq<ItemDef>,
    shops: ShopsFile,
) -> Option<LoadFailure<E>> {
    match files.scenery {
        Err(error) => Some(LoadFailure::Unparsed { file: ContentFile::Scenery, error }),
        Ok(scenery) => if scenery_problem(item_keys, scenery) is Some {
            invalid_in(ContentFile::Scenery, scenery_problem(item_keys, scenery))
        } else {
            match files.palette {
                Err(error) => Some(LoadFailure::Unparsed { file: ContentFile::Palette, error }),
                Ok(palette) => if palette_problem(palette) is Some {
                    invalid_in(ContentFile::Palette, palette_problem(palette))
                } else {
                    match files.structures {
                        Err(error) => Some(LoadFailure::Unparsed { file: ContentFile::Structures, error }),
                        Ok(structures) => if structures_problem(item_keys, items, structures) is Some {
                            invalid_in(ContentFile::Structures, structures_problem(item_keys, items, structures))
                        } else {
                            match files.characters {
                                Err(error) => Some(LoadFailure::Unparsed { file: ContentFile::Characters, error }),
                                Ok(characters) => if characters_fault(characters) is Some {
                                    Some(LoadFailure::Invalid(ContentError {
                                        file: ContentFile::Characters,
                                        problem: Problem::InvalidCharacters(characters_fault(characters).unwrap()),
                                    }))
                                } else {
                                    match files.village {
                                        Err(error) => Some(LoadFailure::Unparsed { file: ContentFile::Village, error }),
                                        Ok(village) => invalid_in(
                                            ContentFile::Village,
                                            village_problem(
                                                shop_ids(shops.shops@),
                                                structure_ids(structures.structures@),
                                                village,
                                            ),
                                        ),
                                    }
                                },
                            }
                        },
                    }
                },
            }
        },
    }
}

/// Whether every file of `files` that was read stays within what ids can
/// count, as `ids_count` asks of all the files.
pub open spec fn parsed_countable<E>(files: ParsedFiles<E>) -> bool {
    &&& files.items matches Ok(items) ==> items.items@.len() <= MAX_DEFINITIONS
    &&& files.crops matches Ok(crops) ==> crops.crops@.len() <= MAX_DEFINITIONS
    &&& files.shops matches Ok(shops) ==> shops.shops@.len() <= MAX_DEFINITIONS
    &&& files.scenery matches Ok(scenery) ==> scenery.props@.len() <= MAX_DEFINITIONS && scenery.cover@.len()
        < usize::MAX
    &&& files.structures matches Ok(structures) ==> structures.structures@.len() <= MAX_DEFINITIONS
}

/// Reading every file fails to load exactly where checking the files does,
/// where checking the crops comes to no crop whose days run past what a
/// day count holds.
pub proof fn read_files_fail_alike<E>(files: ParsedFiles<E>)
    requires
        all_read(files),
        crops_fit(read_files(files)),
    ensures
        parsed_problem(files) is None <==> catalog_problem(read_files(files)) is None,
        catalog_problem(read_files(files)) matches Some(error) ==> parsed_problem(files) == Some(
            LoadFailure::<E>::Invalid(error),
        ),
{
}

/// Whether checking the crops of `files`, once the items are found valid,
/// comes to no crop whose days to ripen run past what a day count holds.
pub open spec fn crops_fit(files: ContentFiles) -> bool {
    let item_keys = entry_keys(files.items.items@);
    let items = file_items(files.items);
    items_problem(files.items) is None && digging_problem(items) is None ==> first_too_long(
        item_keys,
        items,
        files.crops.crops@,
    ) is None
}

/// Whether every content file stays within what ids can count.
pub open spec fn ids_count(files: ContentFiles) -> bool {
    &&& files.items.items@.len() <= MAX_DEFINITIONS
    &&& files.crops.crops@.len() <= MAX_DEFINITIONS
    &&& files.shops.shops@.len() <= MAX_DEFINITIONS
    &&& files.scenery.props@.len() <= MAX_DEFINITIONS
    &&& files.scenery.cover@.len() < usize::MAX
    &&& files.structures.structures@.len() <= MAX_DEFINITIONS
}

/// Whether every content file stays within what ids can count, and
/// checking the crops comes to no crop whose days to ripen run past what a
/// day count holds.
pub open spec fn countable(files: ContentFiles) -> bool {
    ids_count(files) && crops_fit(files)
}

/// Whether `catalog` holds what the valid content files `files` describe.
pub open spec fn loaded(catalog: CatalogView, files: ContentFiles) -> bool {
    let item_keys = entry_keys(files.items.items@);
    let items = file_items(files.items);
    &&& catalog.items == items
    &&& catalog.item_keys == item_keys
    &&& catalog.dug_items.len() == 4
    &&& forall|material: Material| #[trigger] catalog.dug_items[material_index(material) as int]
        == ItemId(owner(claims(items), material).unwrap() as u16)
    &&& catalog.starting_inventory == files.items.starting_inventory@.map_values(
        |stock: (String, u16)| (item_id_of(item_keys, stock.0@), stock.1),
    )
    &&& catalog.starting_money == files.items.starting_money
    &&& catalog.crops == files.crops.crops@.map_values(|entry: CropEntry| crop_def(item_keys, entry))
    &&& catalog.crop_keys == crop_keys(files.crops.crops@)
    &&& catalog.market == files.shops.market
    &&& catalog.shops.len() == files.shops.shops@.len()
    &&& forall|i: int| 0 <= i < catalog.shops.len() ==> resolved_shop(
        #[trigger] catalog.shops[i],
        item_keys,
        files.shops.shops@[i],
    )
    &&& catalog.shop_keys == shop_keys(files.shops.shops@)
    &&& catalog.props.len() == files.scenery.props@.len()
    &&& forall|i: int| 0 <= i < catalog.props.len() ==> resolved_prop(
        #[trigger] catalog.props[i],
        item_keys,
        files.scenery.props@[i],
    )
    &&& catalog.prop_keys == prop_keys(files.scenery.props@)
    &&& catalog.cover == files.scenery.cover@
    &&& catalog.palette.colors == files.palette.colors
    &&& catalog.palette.seasons == files.palette.seasons
    &&& catalog.structures.len() == files.structures.structures@.len()
    &&& forall|i: int| 0 <= i < catalog.structures.len() ==> resolved_structure(
        #[trigger] catalog.structures[i],
        item_keys,
        structure_keys(files.structures.structures@),
        files.structures.structures@[i],
    )
    &&& catalog.structure_keys == structure_keys(files.structures.structures@)
    &&& catalog.characters == files.characters
    &&& catalog.village.stalls@ == files.village.stalls@.map_values(|place: PlaceEntry| Stall {
        shop: ShopId(position_of(shop_keys(files.shops.shops@), place.id@).unwrap() as u16),
        at: place.at,
        turn: place.turn,
    })
    &&& catalog.village.structures@ == files.village.structures@.map_values(|place: PlaceEntry| Placement {
        structure: StructureId(
            position_of(structure_keys(files.structures.structures@), place.id@).unwrap() as u16,
        ),
        at: place.at,
        turn: place.turn,
    })
}

} // verus!
