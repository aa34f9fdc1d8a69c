//! Checking the content files against each other, and looking things up
//! in what they describe.

use vstd::prelude::*;

use crate::calendar::date::Season;
use crate::content::crop::{CropDef, CropId, CropsFile, CropsRejection, crop_keys};
use crate::content::dig::{dug_as, dug_items, material_index};
use crate::content::error::{ContentError, ContentFile, Problem};
use crate::content::item::{ItemDef, ItemId, ItemsFile, MAX_DEFINITIONS};
use crate::content::laws::{
    keys_name_definitions, loaded_shops_never_trade_for_nothing, pairings_hold, references_resolve,
    valid_files_pair,
    valid_files_resolve,
};
use crate::content::loading::{
    all_read, catalog_problem, countable, file_items, loaded, parsed_countable, parsed_problem,
    read_files, read_files_fail_alike,
};
use crate::content::lookup::{
    first_repeat, first_where, first_where_finds_the_first, first_where_prefix, first_where_step,
    position, position_of, texts,
};
use crate::content::material::Material;
use crate::content::palette::{Palette, PaletteFile, colors_ground};
use crate::content::people::{Characters, wardrobe_skins};
use crate::content::scenery::{CoverDef, PropDef, PropId, SceneryFile, models_of, prop_keys};
use crate::content::shop::{MarketRules, ShopDef, ShopId, ShopsFile, shop_keys};
use crate::content::structure::{Part, StructureDef, StructureId, StructuresFile, structure_keys};
use crate::content::village::{Village, VillageFile};

verus! {

/// The text of every content file.
#[derive(Clone, Copy, Debug)]
pub struct Sources<'a> {
    pub items: &'a str,
    pub crops: &'a str,
    pub shops: &'a str,
    pub scenery: &'a str,
    pub palette: &'a str,
    pub structures: &'a str,
    pub characters: &'a str,
    pub village: &'a str,
}

/// Every content file, as written.
#[derive(Debug, PartialEq, Eq)]
pub struct ContentFiles {
    pub items: ItemsFile,
    pub crops: CropsFile,
    pub shops: ShopsFile,
    pub scenery: SceneryFile,
    pub palette: PaletteFile,
    pub structures: StructuresFile,
    pub characters: Characters,
    pub village: VillageFile,
}

/// What a catalog holds, as values.
pub struct CatalogView {
    pub items: Seq<ItemDef>,
    pub item_keys: Seq<Seq<char>>,
    /// The item dug as each material, in the order of `material_index`.
    pub dug_items: Seq<ItemId>,
    pub starting_inventory: Seq<(ItemId, u16)>,
    pub starting_money: u32,
    pub crops: Seq<CropDef>,
    pub crop_keys: Seq<Seq<char>>,
    pub market: MarketRules,
    pub shops: Seq<ShopDef>,
    pub shop_keys: Seq<Seq<char>>,
    pub props: Seq<PropDef>,
    pub prop_keys: Seq<Seq<char>>,
    pub cover: Seq<CoverDef>,
    pub palette: Palette,
    pub structures: Seq<StructureDef>,
    pub structure_keys: Seq<Seq<char>>,
    pub characters: Characters,
    pub village: Village,
}

/// All loaded content, with every cross-reference checked.
#[derive(Debug)]
pub struct Catalog {
    items: Vec<ItemDef>,
    item_keys: Vec<String>,
    dug_items: Vec<ItemId>,
    starting_inventory: Vec<(ItemId, u16)>,
    starting_money: u32,
    crops: Vec<CropDef>,
    crop_keys: Vec<String>,
    market: MarketRules,
    shops: Vec<ShopDef>,
    shop_keys: Vec<String>,
    props: Vec<PropDef>,
    prop_keys: Vec<String>,
    cover: Vec<CoverDef>,
    palette: Palette,
    structures: Vec<StructureDef>,
    structure_keys: Vec<String>,
    characters: Characters,
    village: Village,
}

impl View for Catalog {
    type V = CatalogView;

    closed spec fn view(&self) -> CatalogView {
        CatalogView {
            items: self.items@,
            item_keys: texts(self.item_keys@),
            dug_items: self.dug_items@,
            starting_inventory: self.starting_inventory@,
            starting_money: self.starting_money,
            crops: self.crops@,
            crop_keys: texts(self.crop_keys@),
            market: self.market,
            shops: self.shops@,
            shop_keys: texts(self.shop_keys@),
            props: self.props@,
            prop_keys: texts(self.prop_keys@),
            cover: self.cover@,
            palette: self.palette,
            structures: self.structures@,
            structure_keys: texts(self.structure_keys@),
            characters: self.characters,
            village: self.village,
        }
    }
}

/// Every content file as read: the file, or why its text could not be read
/// as one.
pub struct ParsedFiles<E> {
    pub items: Result<ItemsFile, E>,
    pub crops: Result<CropsFile, E>,
    pub shops: Result<ShopsFile, E>,
    pub scenery: Result<SceneryFile, E>,
    pub palette: Result<PaletteFile, E>,
    pub structures: Result<StructuresFile, E>,
    pub characters: Result<Characters, E>,
    pub village: Result<VillageFile, E>,
}

/// Why content failed to load: a file whose text could not be read as one,
/// a crop whose stages take more days to ripen than a day count holds, or
/// a problem with what the files say.
#[derive(Debug)]
pub enum LoadFailure<E> {
    Unparsed { file: ContentFile, error: E },
    TooLong { crop: String },
    Invalid(ContentError),
}

impl Catalog {
    /// Every list of definitions is as long as its keys and within what
    /// ids count, the items' keys are theirs and distinct, every material
    /// is dug as one of the items, and the palette colors the ground.
    #[verifier::type_invariant]
    closed spec fn wf(self) -> bool {
        &&& self.items@.len() <= MAX_DEFINITIONS
        &&& self.item_keys@.len() == self.items@.len()
        &&& forall|i: int| 0 <= i < self.items@.len() ==> #[trigger] self.item_keys@[i]@ == self.items@[i].key@
        &&& first_repeat(texts(self.item_keys@)) is None
        &&& self.dug_items@.len() == 4
        &&& forall|material: Material| dug_as(self.items@, #[trigger] self.dug_items@[material_index(material) as int], material)
        &&& self.crops@.len() <= MAX_DEFINITIONS
        &&& self.crop_keys@.len() == self.crops@.len()
        &&& self.shops@.len() <= MAX_DEFINITIONS
        &&& self.shop_keys@.len() == self.shops@.len()
        &&& self.props@.len() <= MAX_DEFINITIONS
        &&& self.prop_keys@.len() == self.props@.len()
        &&& self.structures@.len() <= MAX_DEFINITIONS
        &&& self.structure_keys@.len() == self.structures@.len()
        &&& colors_ground(self.palette)
        &&& references_resolve(self@)
        &&& keys_name_definitions(self@)
        &&& pairings_hold(self@)
    }

    /// Checks the content files read, one at a time in order, each against
    /// the ones before it, and builds the catalog they describe; or names
    /// the first file that was not read or has a problem, and the problem.
    pub fn from_parsed<E>(files: ParsedFiles<E>) -> (catalog: Result<Catalog, LoadFailure<E>>)
        requires
            parsed_countable(files),
        ensures
            catalog is Err <==> parsed_problem(files) is Some,
            catalog matches Err(failure) ==> parsed_problem(files) == Some(failure),
            catalog matches Ok(catalog) ==> all_read(files) && loaded(catalog@, read_files(files)),
            catalog matches Ok(catalog) ==> references_resolve(catalog@) && keys_name_definitions(catalog@)
                && pairings_hold(catalog@),
            catalog matches Ok(catalog) ==> forall|i: int, k: int| 0 <= i < catalog@.shops.len() && 0 <= k
                < catalog@.shops[i].sells@.len() ==> (#[trigger] catalog@.shops[i].sells@[k]).price > 0,
            catalog matches Ok(catalog) ==> forall|i: int, k: int| 0 <= i < catalog@.shops.len() && 0 <= k
                < catalog@.shops[i].buys@.len() ==> (#[trigger] catalog@.shops[i].buys@[k]).base_price > 0,
    {
        let ghost parsed = files;
        let ParsedFiles { items, crops, shops, scenery, palette, structures, characters, village } = files;
        let items = match items {
            Ok(file) => file,
            Err(error) => return Err(LoadFailure::Unparsed { file: ContentFile::Items, error }),
        };
        let ghost items_file = items;
        let items = match items.resolve() {
            Ok(items) => items,
            Err(problem) => return Err(LoadFailure::Invalid(ContentError { file: ContentFile::Items, problem })),
        };
        proof {
            assert(items.definitions@ == file_items(items_file));
        }
        let dug = match dug_items(&items.definitions) {
            Ok(dug) => dug,
            Err(problem) => return Err(LoadFailure::Invalid(ContentError { file: ContentFile::Items, problem })),
        };
        let crops = match crops {
            Ok(file) => file,
            Err(error) => return Err(LoadFailure::Unparsed { file: ContentFile::Crops, error }),
        };
        let crops = match crops.resolve(&items) {
            Ok(crops) => crops,
            Err(CropsRejection::TooLong(crop)) => return Err(LoadFailure::TooLong { crop }),
            Err(CropsRejection::Problem(problem)) => return Err(
                LoadFailure::Invalid(ContentError { file: ContentFile::Crops, problem }),
            ),
        };
        let shops = match shops {
            Ok(file) => file,
            Err(error) => return Err(LoadFailure::Unparsed { file: ContentFile::Shops, error }),
        };
        let shops = match shops.resolve(&items) {
            Ok(shops) => shops,
            Err(problem) => return Err(LoadFailure::Invalid(ContentError { file: ContentFile::Shops, problem })),
        };
        let scenery = match scenery {
            Ok(file) => file,
            Err(error) => return Err(LoadFailure::Unparsed { file: ContentFile::Scenery, error }),
        };
        let scenery = match scenery.resolve(&items) {
            Ok(scenery) => scenery,
            Err(problem) => return Err(LoadFailure::Invalid(ContentError { file: ContentFile::Scenery, problem })),
        };
        let palette = match palette {
            Ok(file) => file,
            Err(error) => return Err(LoadFailure::Unparsed { file: ContentFile::Palette, error }),
        };
        let palette = match palette.resolve() {
            Ok(palette) => palette,
            Err(problem) => return Err(LoadFailure::Invalid(ContentError { file: ContentFile::Palette, problem })),
        };
        let structures = match structures {
            Ok(file) => file,
            Err(error) => return Err(LoadFailure::Unparsed { file: ContentFile::Structures, error }),
        };
        let structures = match structures.resolve(&items) {
            Ok(structures) => structures,
            Err(problem) => return Err(LoadFailure::Invalid(ContentError { file: ContentFile::Structures, problem })),
        };
        let characters = match characters {
            Ok(file) => file,
            Err(error) => return Err(LoadFailure::Unparsed { file: ContentFile::Characters, error }),
        };
        if let Err(fault) = characters.validate() {
            return Err(
                LoadFailure::Invalid(
                    ContentError { file: ContentFile::Characters, problem: Problem::InvalidCharacters(fault) },
                ),
            );
        }
        let village = match village {
            Ok(file) => file,
            Err(error) => return Err(LoadFailure::Unparsed { file: ContentFile::Village, error }),
        };
        let village = match village.resolve(&shops.keys, &structures.keys) {
            Ok(village) => village,
            Err(problem) => return Err(LoadFailure::Invalid(ContentError { file: ContentFile::Village, problem })),
        };
        proof {
            assert(items.keys@.len() == texts(items.keys@).len());
            assert(crops.keys@.len() == texts(crops.keys@).len());
            assert(shops.keys@.len() == texts(shops.keys@).len());
            assert(scenery.keys@.len() == texts(scenery.keys@).len());
            assert(structures.keys@.len() == texts(structures.keys@).len());
            assert(crops.keys@.len() == crops.definitions@.len());
            assert(shops.keys@.len() == shops.definitions@.len());
            assert(scenery.keys@.len() == scenery.props@.len());
            assert(structures.keys@.len() == structures.definitions@.len());
            assert(colors_ground(palette));
            let view = CatalogView {
                items: items.definitions@,
                item_keys: texts(items.keys@),
                dug_items: dug@,
                starting_inventory: items.starting_inventory@,
                starting_money: items.starting_money,
                crops: crops.definitions@,
                crop_keys: texts(crops.keys@),
                market: shops.market,
                shops: shops.definitions@,
                shop_keys: texts(shops.keys@),
                props: scenery.props@,
                prop_keys: texts(scenery.keys@),
                cover: scenery.cover@,
                palette: palette,
                structures: structures.definitions@,
                structure_keys: texts(structures.keys@),
                characters: characters,
                village: village,
            };
            assert(all_read(parsed));
            let given = read_files(parsed);
            read_files_fail_alike(parsed);
            assert(parsed_problem(parsed) is None);
            assert(catalog_problem(given) is None);
            assert(loaded(view, given));
            valid_files_resolve(view, given);
            valid_files_pair(view, given);
            loaded_shops_never_trade_for_nothing(view, given);
        }
        let catalog = Catalog {
            items: items.definitions,
            item_keys: items.keys,
            dug_items: dug,
            starting_inventory: items.starting_inventory,
            starting_money: items.starting_money,
            crops: crops.definitions,
            crop_keys: crops.keys,
            market: shops.market,
            shops: shops.definitions,
            shop_keys: shops.keys,
            props: scenery.props,
            prop_keys: scenery.keys,
            cover: scenery.cover,
            palette,
            structures: structures.definitions,
            structure_keys: structures.keys,
            characters,
            village,
        };
        proof {
            use_type_invariant(&catalog);
        }
        Ok(catalog)
    }

    /// Checks the content files against each other and builds the catalog
    /// they describe, or names the first file with a problem and the
    /// problem.
    pub fn from_files(files: ContentFiles) -> (catalog: Result<Catalog, ContentError>)
        requires
            countable(files),
        ensures
            catalog is Err <==> catalog_problem(files) is Some,
            catalog matches Err(error) ==> catalog_problem(files) == Some(error),
            catalog matches Ok(catalog) ==> loaded(catalog@, files),
            catalog matches Ok(catalog) ==> references_resolve(catalog@) && keys_name_definitions(catalog@)
                && pairings_hold(catalog@),
            catalog matches Ok(catalog) ==> forall|i: int, k: int| 0 <= i < catalog@.shops.len() && 0 <= k
                < catalog@.shops[i].sells@.len() ==> (#[trigger] catalog@.shops[i].sells@[k]).price > 0,
            catalog matches Ok(catalog) ==> forall|i: int, k: int| 0 <= i < catalog@.shops.len() && 0 <= k
                < catalog@.shops[i].buys@.len() ==> (#[trigger] catalog@.shops[i].buys@[k]).base_price > 0,
    {
        let ghost given = files;
        let ContentFiles { items, crops, shops, scenery, palette, structures, characters, village } = files;
        let parsed: ParsedFiles<()> = ParsedFiles {
            items: Ok(items),
            crops: Ok(crops),
            shops: Ok(shops),
            scenery: Ok(scenery),
            palette: Ok(palette),
            structures: Ok(structures),
            characters: Ok(characters),
            village: Ok(village),
        };
        proof {
            assert(read_files(parsed) == given);
            read_files_fail_alike(parsed);
        }
        match Catalog::from_parsed(parsed) {
            Ok(catalog) => Ok(catalog),
            Err(LoadFailure::Invalid(error)) => Err(error),
            Err(LoadFailure::Unparsed { file, error: _ }) => {
                proof {
                    // Every file was read, so none fails to be.
                    assert(false);
                }
                Err(ContentError { file, problem: Problem::SecondHome })
            },
            Err(LoadFailure::TooLong { crop: _ }) => {
                proof {
                    // The crops fit, so checking them comes to no crop that runs long.
                    assert(false);
                }
                Err(ContentError { file: ContentFile::Crops, problem: Problem::SecondHome })
            },
        }
    }
}

/// `seen`, followed by each season of `more` that is not already among
/// what comes before it.
pub open spec fn with_new(seen: Seq<Season>, more: Seq<Season>) -> Seq<Season>
    decreases more.len(),
{
    if more.len() == 0 {
        seen
    } else {
        let before = with_new(seen, more.drop_last());
        if before.contains(more.last()) {
            before
        } else {
            before.push(more.last())
        }
    }
}

/// The seasons in which the crops among `crops` that yield `item` grow,
/// each once, in the order the crops and their seasons first list them.
pub open spec fn harvest_season_list(crops: Seq<CropDef>, item: ItemId) -> Seq<Season>
    decreases crops.len(),
{
    if crops.len() == 0 {
        Seq::empty()
    } else {
        let before = harvest_season_list(crops.drop_last(), item);
        if crops.last().produce == item {
            with_new(before, crops.last().seasons@)
        } else {
            before
        }
    }
}

/// Whether some crop among `crops` yields `item`.
pub open spec fn is_produce(crops: Seq<CropDef>, item: ItemId) -> bool {
    exists|i: int| 0 <= i < crops.len() && (#[trigger] crops[i]).produce == item
}

/// `models`, each with the file `file` that refers to it.
pub open spec fn tagged(models: Seq<String>, file: ContentFile) -> Seq<(String, ContentFile)> {
    models.map_values(|model: String| (model, file))
}

/// The model of each item among `items` that is drawn with one.
pub open spec fn item_models(items: Seq<ItemDef>) -> Seq<String> {
    items.map_values(
        |item: ItemDef| match item.model {
            Some(model) => seq![model],
            None => Seq::empty(),
        },
    ).flatten()
}

/// Every model the catalog `c` draws something with, each with the file
/// that refers to it: the props' and the ground cover's, the structures'
/// parts', the items', the crops' and the shops' stalls, in that order.
pub open spec fn models_in_use(c: CatalogView) -> Seq<(String, ContentFile)> {
    tagged(
        c.props.map_values(|prop: PropDef| models_of(prop)).flatten() + c.cover.map_values(
            |cover: CoverDef| cover.models@,
        ).flatten(),
        ContentFile::Scenery,
    ) + tagged(
        c.structures.map_values(
            |structure: StructureDef| structure.parts@.map_values(|part: Part| part.model),
        ).flatten(),
        ContentFile::Structures,
    ) + tagged(item_models(c.items), ContentFile::Items) + tagged(
        c.crops.map_values(|crop: CropDef| crop.models@).flatten(),
        ContentFile::Crops,
    ) + tagged(c.shops.map_values(|shop: ShopDef| shop.stall), ContentFile::Shops)
}

/// Every skin the catalog `c` dresses someone in, each with the file that
/// names it: the characters' wardrobe, then the layers of each shop's
/// keeper, in order.
pub open spec fn skins_in_use(c: CatalogView) -> Seq<(String, ContentFile)> {
    tagged(wardrobe_skins(c.characters.wardrobe), ContentFile::Characters) + tagged(
        c.shops.map_values(|shop: ShopDef| seq![shop.keeper.body, shop.keeper.outfit, shop.keeper.hair]).flatten(),
        ContentFile::Shops,
    )
}

/// Appends each of `models` to `out`, with `file`.
fn push_tagged(out: &mut Vec<(String, ContentFile)>, models: &Vec<String>, file: ContentFile)
    ensures
        final(out)@ == old(out)@ + tagged(models@, file),
{
    let ghost start = out@;
    let mut i: usize = 0;
    while i < models.len()
        invariant
            i <= models@.len(),
            out@ == start + tagged(models@.take(i as int), file),
        decreases models@.len() - i,
    {
        proof {
            assert(tagged(models@.take(i + 1), file) =~= tagged(models@.take(i as int), file).push(
                (models@[i as int], file),
            ));
        }
        out.push((models[i].clone(), file));
        i = i + 1;
    }
    proof {
        assert(models@.take(i as int) =~= models@);
    }
}

/// Whether `seasons` holds `season`.
fn holds(seasons: &Vec<Season>, season: Season) -> (held: bool)
    ensures
        held == seasons@.contains(season),
{
    let mut i: usize = 0;
    while i < seasons.len()
        invariant
            i <= seasons@.len(),
            forall|j: int| 0 <= j < i ==> seasons@[j] != season,
        decreases seasons@.len() - i,
    {
        if seasons[i] == season {
            return true;
        }
        i = i + 1;
    }
    false
}

impl Catalog {
    /// The definition of `id`.
    pub fn item(&self, id: ItemId) -> (item: &ItemDef)
        requires
            (id.0 as int) < self@.items.len(),
        ensures
            *item == self@.items[id.0 as int],
    {
        &self.items[id.0 as usize]
    }

    /// The item a data file calls `key`.
    pub fn id(&self, key: &str) -> (id: Option<ItemId>)
        ensures
            id is None <==> position_of(self@.item_keys, key@) is None,
            id matches Some(id) ==> position_of(self@.item_keys, key@) == Some(id.0 as nat),
    {
        proof {
            use_type_invariant(self);
        }
        match position(&self.item_keys, key) {
            Some(i) => Some(ItemId(i as u16)),
            None => None,
        }
    }

    /// Every item, with its id.
    pub fn items(&self) -> (items: Vec<(ItemId, &ItemDef)>)
        ensures
            items@.len() == self@.items.len(),
            forall|i: int| 0 <= i < items@.len() ==> (#[trigger] items@[i]).0 == ItemId(i as u16)
                && *items@[i].1 == self@.items[i],
    {
        proof {
            use_type_invariant(self);
        }
        let mut all: Vec<(ItemId, &ItemDef)> = Vec::new();
        let mut i: usize = 0;
        while i < self.items.len()
            invariant
                i <= self.items@.len() <= MAX_DEFINITIONS,
                all@.len() == i,
                forall|j: int| 0 <= j < i ==> (#[trigger] all@[j]).0 == ItemId(j as u16) && *all@[j].1
                    == self.items@[j],
            decreases self.items@.len() - i,
        {
            all.push((ItemId(i as u16), &self.items[i]));
            i = i + 1;
        }
        all
    }

    /// The item digging `material` yields: the one terrain item that lists
    /// it, for no other item does. Every material has one.
    pub fn dug_item(&self, material: Material) -> (id: ItemId)
        ensures
            id == self@.dug_items[material_index(material) as int],
            dug_as(self@.items, id, material),
    {
        proof {
            use_type_invariant(self);
        }
        let slot: usize = match material {
            Material::Grass => 0,
            Material::Soil => 1,
            Material::Stone => 2,
            Material::Sand => 3,
        };
        assert(slot == material_index(material));
        assert(dug_as(self.items@, self.dug_items@[material_index(material) as int], material));
        self.dug_items[slot]
    }

    /// What every new player starts with.
    pub fn starting_inventory(&self) -> (stock: &[(ItemId, u16)])
        ensures
            stock@ == self@.starting_inventory,
    {
        self.starting_inventory.as_slice()
    }

    /// The money every new player starts with.
    pub fn starting_money(&self) -> (money: u32)
        ensures
            money == self@.starting_money,
    {
        self.starting_money
    }

    /// The definition of `id`.
    pub fn crop(&self, id: CropId) -> (crop: &CropDef)
        requires
            (id.0 as int) < self@.crops.len(),
        ensures
            *crop == self@.crops[id.0 as int],
    {
        &self.crops[id.0 as usize]
    }

    /// Every crop, with its id.
    pub fn crops(&self) -> (crops: Vec<(CropId, &CropDef)>)
        ensures
            crops@.len() == self@.crops.len(),
            forall|i: int| 0 <= i < crops@.len() ==> (#[trigger] crops@[i]).0 == CropId(i as u16)
                && *crops@[i].1 == self@.crops[i],
    {
        proof {
            use_type_invariant(self);
        }
        let mut all: Vec<(CropId, &CropDef)> = Vec::new();
        let mut i: usize = 0;
        while i < self.crops.len()
            invariant
                i <= self.crops@.len() <= MAX_DEFINITIONS,
                all@.len() == i,
                forall|j: int| 0 <= j < i ==> (#[trigger] all@[j]).0 == CropId(j as u16) && *all@[j].1
                    == self.crops@[j],
            decreases self.crops@.len() - i,
        {
            all.push((CropId(i as u16), &self.crops[i]));
            i = i + 1;
        }
        all
    }

    /// The crop a data file calls `key`.
    pub fn crop_id(&self, key: &str) -> (id: Option<CropId>)
        ensures
            id is None <==> position_of(self@.crop_keys, key@) is None,
            id matches Some(id) ==> position_of(self@.crop_keys, key@) == Some(id.0 as nat),
    {
        proof {
            use_type_invariant(self);
        }
        match position(&self.crop_keys, key) {
            Some(i) => Some(CropId(i as u16)),
            None => None,
        }
    }

    /// The crop that grows from the seed item `seeds`: the first one
    /// listed, the only one in a checked catalog.
    pub fn crop_grown_from(&self, seeds: ItemId) -> (id: Option<CropId>)
        ensures
            id is None <==> first_where(self@.crops, |crop: CropDef| crop.seeds == seeds) is None,
            id matches Some(id) ==> first_where(self@.crops, |crop: CropDef| crop.seeds == seeds) == Some(id.0 as nat),
            (seeds.0 as int) < self@.items.len() && self@.items[seeds.0 as int].kind is Seed ==> id is Some,
    {
        proof {
            use_type_invariant(self);
        }
        let ghost test = |crop: CropDef| crop.seeds == seeds;
        let mut i: usize = 0;
        while i < self.crops.len()
            invariant
                i <= self.crops@.len() <= MAX_DEFINITIONS,
                test == |crop: CropDef| crop.seeds == seeds,
                first_where(self.crops@.take(i as int), test) is None,
            decreases self.crops@.len() - i,
        {
            proof {
                first_where_step(self.crops@, test, i as nat);
            }
            if self.crops[i].seeds == seeds {
                proof {
                    first_where_prefix(self.crops@, test, (i + 1) as nat);
                }
                return Some(CropId(i as u16));
            }
            i = i + 1;
        }
        proof {
            first_where_prefix(self.crops@, test, i as nat);
            first_where_finds_the_first(self.crops@, test);
            if (seeds.0 as int) < self.items@.len() && self.items@[seeds.0 as int].kind is Seed {
                assert(self@.items[seeds.0 as int].kind is Seed);
                let j = choose|j: int| 0 <= j < self@.crops.len() && (#[trigger] self@.crops[j]).seeds
                    == ItemId(seeds.0 as int as u16);
                assert(test(self.crops@[j]));
            }
        }
        None
    }

    /// The seasons in which `item` is harvested, if it is a crop's produce:
    /// those of every crop yielding it, each once.
    pub fn harvest_seasons(&self, item: ItemId) -> (seasons: Option<Vec<Season>>)
        ensures
            seasons is Some <==> is_produce(self@.crops, item),
            seasons matches Some(list) ==> list@ == harvest_season_list(self@.crops, item),
    {
        let mut found = false;
        let mut list: Vec<Season> = Vec::new();
        let mut i: usize = 0;
        while i < self.crops.len()
            invariant
                i <= self.crops@.len(),
                list@ == harvest_season_list(self.crops@.take(i as int), item),
                found <==> is_produce(self.crops@.take(i as int), item),
            decreases self.crops@.len() - i,
        {
            let ghost prefix = self.crops@.take(i + 1);
            proof {
                assert(prefix.drop_last() =~= self.crops@.take(i as int));
                assert(prefix.last() == self.crops@[i as int]);
            }
            let crop = &self.crops[i];
            if crop.produce == item {
                let ghost before = list@;
                let mut j: usize = 0;
                while j < crop.seasons.len()
                    invariant
                        j <= crop.seasons@.len(),
                        list@ == with_new(before, crop.seasons@.take(j as int)),
                    decreases crop.seasons@.len() - j,
                {
                    proof {
                        assert(crop.seasons@.take(j + 1).drop_last() =~= crop.seasons@.take(j as int));
                    }
                    let season = crop.seasons[j];
                    if !holds(&list, season) {
                        list.push(season);
                    }
                    j = j + 1;
                }
                proof {
                    assert(crop.seasons@.take(j as int) =~= crop.seasons@);
                    assert(prefix[i as int].produce == item);
                }
                found = true;
            } else {
                proof {
                    if is_produce(prefix, item) {
                        let k = choose|k: int| 0 <= k < prefix.len() && (#[trigger] prefix[k]).produce == item;
                        assert(k < i);
                        assert(self.crops@.take(i as int)[k] == prefix[k]);
                    }
                }
            }
            proof {
                if is_produce(self.crops@.take(i as int), item) {
                    let k = choose|k: int| 0 <= k < i && (#[trigger] self.crops@.take(i as int)[k]).produce == item;
                    assert(prefix[k] == self.crops@.take(i as int)[k]);
                }
            }
            i = i + 1;
        }
        proof {
            assert(self.crops@.take(i as int) =~= self.crops@);
        }
        if found {
            Some(list)
        } else {
            None
        }
    }

    /// The rules market prices follow.
    pub fn market(&self) -> (market: &MarketRules)
        ensures
            *market == self@.market,
    {
        &self.market
    }

    /// The definition of `id`.
    pub fn shop(&self, id: ShopId) -> (shop: &ShopDef)
        requires
            (id.0 as int) < self@.shops.len(),
        ensures
            *shop == self@.shops[id.0 as int],
    {
        &self.shops[id.0 as usize]
    }

    /// Every shop, with its id.
    pub fn shops(&self) -> (shops: Vec<(ShopId, &ShopDef)>)
        ensures
            shops@.len() == self@.shops.len(),
            forall|i: int| 0 <= i < shops@.len() ==> (#[trigger] shops@[i]).0 == ShopId(i as u16)
                && *shops@[i].1 == self@.shops[i],
    {
        proof {
            use_type_invariant(self);
        }
        let mut all: Vec<(ShopId, &ShopDef)> = Vec::new();
        let mut i: usize = 0;
        while i < self.shops.len()
            invariant
                i <= self.shops@.len() <= MAX_DEFINITIONS,
                all@.len() == i,
                forall|j: int| 0 <= j < i ==> (#[trigger] all@[j]).0 == ShopId(j as u16) && *all@[j].1
                    == self.shops@[j],
            decreases self.shops@.len() - i,
        {
            all.push((ShopId(i as u16), &self.shops[i]));
            i = i + 1;
        }
        all
    }

    /// The shop a data file calls `key`.
    pub fn shop_id(&self, key: &str) -> (id: Option<ShopId>)
        ensures
            id is None <==> position_of(self@.shop_keys, key@) is None,
            id matches Some(id) ==> position_of(self@.shop_keys, key@) == Some(id.0 as nat),
    {
        proof {
            use_type_invariant(self);
        }
        match position(&self.shop_keys, key) {
            Some(i) => Some(ShopId(i as u16)),
            None => None,
        }
    }

    /// The definition of `id`.
    pub fn prop(&self, id: PropId) -> (prop: &PropDef)
        requires
            (id.0 as int) < self@.props.len(),
        ensures
            *prop == self@.props[id.0 as int],
    {
        &self.props[id.0 as usize]
    }

    /// Every prop, with its id.
    pub fn props(&self) -> (props: Vec<(PropId, &PropDef)>)
        ensures
            props@.len() == self@.props.len(),
            forall|i: int| 0 <= i < props@.len() ==> (#[trigger] props@[i]).0 == PropId(i as u16)
                && *props@[i].1 == self@.props[i],
    {
        proof {
            use_type_invariant(self);
        }
        let mut all: Vec<(PropId, &PropDef)> = Vec::new();
        let mut i: usize = 0;
        while i < self.props.len()
            invariant
                i <= self.props@.len() <= MAX_DEFINITIONS,
                all@.len() == i,
                forall|j: int| 0 <= j < i ==> (#[trigger] all@[j]).0 == PropId(j as u16) && *all@[j].1
                    == self.props@[j],
            decreases self.props@.len() - i,
        {
            all.push((PropId(i as u16), &self.props[i]));
            i = i + 1;
        }
        all
    }

    /// The prop a data file calls `key`.
    pub fn prop_id(&self, key: &str) -> (id: Option<PropId>)
        ensures
            id is None <==> position_of(self@.prop_keys, key@) is None,
            id matches Some(id) ==> position_of(self@.prop_keys, key@) == Some(id.0 as nat),
    {
        proof {
            use_type_invariant(self);
        }
        match position(&self.prop_keys, key) {
            Some(i) => Some(PropId(i as u16)),
            None => None,
        }
    }

    /// The definition of structure `id`.
    pub fn structure(&self, id: StructureId) -> (structure: &StructureDef)
        requires
            (id.0 as int) < self@.structures.len(),
        ensures
            *structure == self@.structures[id.0 as int],
    {
        &self.structures[id.0 as usize]
    }

    /// Every structure, with its id.
    pub fn structures(&self) -> (structures: Vec<(StructureId, &StructureDef)>)
        ensures
            structures@.len() == self@.structures.len(),
            forall|i: int| 0 <= i < structures@.len() ==> (#[trigger] structures@[i]).0 == StructureId(i as u16)
                && *structures@[i].1 == self@.structures[i],
    {
        proof {
            use_type_invariant(self);
        }
        let mut all: Vec<(StructureId, &StructureDef)> = Vec::new();
        let mut i: usize = 0;
        while i < self.structures.len()
            invariant
                i <= self.structures@.len() <= MAX_DEFINITIONS,
                all@.len() == i,
                forall|j: int| 0 <= j < i ==> (#[trigger] all@[j]).0 == StructureId(j as u16)
                    && *all@[j].1 == self.structures@[j],
            decreases self.structures@.len() - i,
        {
            all.push((StructureId(i as u16), &self.structures[i]));
            i = i + 1;
        }
        all
    }

    /// The structure a data file calls `key`.
    pub fn structure_id(&self, key: &str) -> (id: Option<StructureId>)
        ensures
            id is None <==> position_of(self@.structure_keys, key@) is None,
            id matches Some(id) ==> position_of(self@.structure_keys, key@) == Some(id.0 as nat),
    {
        proof {
            use_type_invariant(self);
        }
        match position(&self.structure_keys, key) {
            Some(i) => Some(StructureId(i as u16)),
            None => None,
        }
    }

    /// The structure placing `item` builds, if it builds one: the first one
    /// listed, the only one in a checked catalog.
    pub fn structure_built_from(&self, item: ItemId) -> (id: Option<StructureId>)
        ensures
            id is None <==> first_where(self@.structures, |structure: StructureDef| structure.built_from == Some(item)) is None,
            id matches Some(id) ==> first_where(self@.structures, |structure: StructureDef| structure.built_from == Some(item))
                == Some(id.0 as nat),
            (item.0 as int) < self@.items.len() && self@.items[item.0 as int].kind is Structure ==> id is Some,
    {
        proof {
            use_type_invariant(self);
        }
        let ghost test = |structure: StructureDef| structure.built_from == Some(item);
        let mut i: usize = 0;
        while i < self.structures.len()
            invariant
                i <= self.structures@.len() <= MAX_DEFINITIONS,
                test == |structure: StructureDef| structure.built_from == Some(item),
                first_where(self.structures@.take(i as int), test) is None,
            decreases self.structures@.len() - i,
        {
            proof {
                first_where_step(self.structures@, test, i as nat);
            }
            let builds = match self.structures[i].built_from {
                Some(built) => built == item,
                None => false,
            };
            if builds {
                proof {
                    first_where_prefix(self.structures@, test, (i + 1) as nat);
                }
                return Some(StructureId(i as u16));
            }
            i = i + 1;
        }
        proof {
            first_where_prefix(self.structures@, test, i as nat);
            first_where_finds_the_first(self.structures@, test);
            if (item.0 as int) < self.items@.len() && self.items@[item.0 as int].kind is Structure {
                assert(self@.items[item.0 as int].kind is Structure);
                let j = choose|j: int| 0 <= j < self@.structures.len() && (#[trigger] self@.structures[j]).built_from
                    == Some(ItemId(item.0 as int as u16));
                assert(test(self.structures@[j]));
            }
        }
        None
    }

    /// The structure that is every player's home, if there is one.
    pub fn home(&self) -> (id: Option<StructureId>)
        ensures
            id is None <==> first_where(self@.structures, |structure: StructureDef| structure.home) is None,
            id matches Some(id) ==> first_where(self@.structures, |structure: StructureDef| structure.home)
                == Some(id.0 as nat),
    {
        proof {
            use_type_invariant(self);
        }
        let ghost test = |structure: StructureDef| structure.home;
        let mut i: usize = 0;
        while i < self.structures.len()
            invariant
                i <= self.structures@.len() <= MAX_DEFINITIONS,
                test == |structure: StructureDef| structure.home,
                first_where(self.structures@.take(i as int), test) is None,
            decreases self.structures@.len() - i,
        {
            proof {
                first_where_step(self.structures@, test, i as nat);
            }
            if self.structures[i].home {
                proof {
                    first_where_prefix(self.structures@, test, (i + 1) as nat);
                }
                return Some(StructureId(i as u16));
            }
            i = i + 1;
        }
        proof {
            first_where_prefix(self.structures@, test, i as nat);
        }
        None
    }

    /// How characters look and move.
    pub fn characters(&self) -> (characters: &Characters)
        ensures
            *characters == self@.characters,
    {
        &self.characters
    }

    /// Where the village's stalls and buildings stand.
    pub fn village(&self) -> (village: &Village)
        ensures
            *village == self@.village,
    {
        &self.village
    }

    /// The plants covering grassy ground.
    pub fn cover(&self) -> (cover: &[CoverDef])
        ensures
            cover@ == self@.cover,
    {
        self.cover.as_slice()
    }

    /// Every model the catalog draws something with, and the file that
    /// refers to it.
    pub fn models_used(&self) -> (models: Vec<(String, ContentFile)>)
        ensures
            models@ == models_in_use(self@),
    {
        let mut models: Vec<(String, ContentFile)> = Vec::new();
        let ghost props = self.props@.map_values(|prop: PropDef| models_of(prop));
        let mut i: usize = 0;
        while i < self.props.len()
            invariant
                i <= self.props@.len(),
                props == self.props@.map_values(|prop: PropDef| models_of(prop)),
                models@ == tagged(props.take(i as int).flatten(), ContentFile::Scenery),
            decreases self.props@.len() - i,
        {
            let used = self.props[i].models_used();
            let ghost before = models@;
            let mut j: usize = 0;
            while j < used.len()
                invariant
                    j <= used@.len(),
                    used@.len() == models_of(self.props@[i as int]).len(),
                    forall|k: int| 0 <= k < used@.len() ==> *(#[trigger] used@[k]) == models_of(self.props@[i as int])[k],
                    models@ == before + tagged(models_of(self.props@[i as int]).take(j as int), ContentFile::Scenery),
                decreases used@.len() - j,
            {
                proof {
                    assert(tagged(models_of(self.props@[i as int]).take(j + 1), ContentFile::Scenery) =~= tagged(
                        models_of(self.props@[i as int]).take(j as int),
                        ContentFile::Scenery,
                    ).push((models_of(self.props@[i as int])[j as int], ContentFile::Scenery)));
                }
                models.push((used[j].clone(), ContentFile::Scenery));
                j = j + 1;
            }
            proof {
                assert(models_of(self.props@[i as int]).take(j as int) =~= models_of(self.props@[i as int]));
                assert(props.take(i + 1) =~= props.take(i as int).push(props[i as int]));
                props.take(i as int).lemma_flatten_push(props[i as int]);
                assert(tagged(props.take(i + 1).flatten(), ContentFile::Scenery) =~= tagged(
                    props.take(i as int).flatten(),
                    ContentFile::Scenery,
                ) + tagged(models_of(self.props@[i as int]), ContentFile::Scenery));
            }
            i = i + 1;
        }
        proof {
            assert(props.take(i as int) =~= props);
        }
        let ghost covers = self.cover@.map_values(|cover: CoverDef| cover.models@);
        let ghost after_props = models@;
        let mut i: usize = 0;
        while i < self.cover.len()
            invariant
                i <= self.cover@.len(),
                covers == self.cover@.map_values(|cover: CoverDef| cover.models@),
                models@ == after_props + tagged(covers.take(i as int).flatten(), ContentFile::Scenery),
            decreases self.cover@.len() - i,
        {
            push_tagged(&mut models, &self.cover[i].models, ContentFile::Scenery);
            proof {
                assert(covers.take(i + 1) =~= covers.take(i as int).push(covers[i as int]));
                covers.take(i as int).lemma_flatten_push(covers[i as int]);
                assert(tagged(covers.take(i + 1).flatten(), ContentFile::Scenery) =~= tagged(
                    covers.take(i as int).flatten(),
                    ContentFile::Scenery,
                ) + tagged(covers[i as int], ContentFile::Scenery));
            }
            i = i + 1;
        }
        proof {
            assert(covers.take(i as int) =~= covers);
            assert(models@ =~= tagged(props.flatten() + covers.flatten(), ContentFile::Scenery));
        }
        let ghost parts = self.structures@.map_values(
            |structure: StructureDef| structure.parts@.map_values(|part: Part| part.model),
        );
        let ghost scenery = models@;
        let mut i: usize = 0;
        while i < self.structures.len()
            invariant
                i <= self.structures@.len(),
                parts == self.structures@.map_values(
                    |structure: StructureDef| structure.parts@.map_values(|part: Part| part.model),
                ),
                models@ == scenery + tagged(parts.take(i as int).flatten(), ContentFile::Structures),
            decreases self.structures@.len() - i,
        {
            let structure = &self.structures[i];
            let ghost before = models@;
            let ghost these = structure.parts@.map_values(|part: Part| part.model);
            let mut j: usize = 0;
            while j < structure.parts.len()
                invariant
                    j <= structure.parts@.len(),
                    these == structure.parts@.map_values(|part: Part| part.model),
                    models@ == before + tagged(these.take(j as int), ContentFile::Structures),
                decreases structure.parts@.len() - j,
            {
                proof {
                    assert(tagged(these.take(j + 1), ContentFile::Structures) =~= tagged(
                        these.take(j as int),
                        ContentFile::Structures,
                    ).push((these[j as int], ContentFile::Structures)));
                }
                models.push((structure.parts[j].model.clone(), ContentFile::Structures));
                j = j + 1;
            }
            proof {
                assert(these.take(j as int) =~= these);
                assert(parts[i as int] == these);
                assert(parts.take(i + 1) =~= parts.take(i as int).push(parts[i as int]));
                parts.take(i as int).lemma_flatten_push(parts[i as int]);
                assert(tagged(parts.take(i + 1).flatten(), ContentFile::Structures) =~= tagged(
                    parts.take(i as int).flatten(),
                    ContentFile::Structures,
                ) + tagged(these, ContentFile::Structures));
            }
            i = i + 1;
        }
        proof {
            assert(parts.take(i as int) =~= parts);
        }
        let ghost item_lists = self.items@.map_values(
            |item: ItemDef| match item.model {
                Some(model) => seq![model],
                None => Seq::empty(),
            },
        );
        let ghost built = models@;
        let mut i: usize = 0;
        while i < self.items.len()
            invariant
                i <= self.items@.len(),
                item_lists == self.items@.map_values(
                    |item: ItemDef| match item.model {
                        Some(model) => seq![model],
                        None => Seq::empty(),
                    },
                ),
                models@ == built + tagged(item_lists.take(i as int).flatten(), ContentFile::Items),
            decreases self.items@.len() - i,
        {
            if let Some(model) = &self.items[i].model {
                models.push((model.clone(), ContentFile::Items));
            }
            proof {
                assert(item_lists.take(i + 1) =~= item_lists.take(i as int).push(item_lists[i as int]));
                item_lists.take(i as int).lemma_flatten_push(item_lists[i as int]);
                assert(tagged(item_lists.take(i + 1).flatten(), ContentFile::Items) =~= tagged(
                    item_lists.take(i as int).flatten(),
                    ContentFile::Items,
                ) + tagged(item_lists[i as int], ContentFile::Items));
            }
            i = i + 1;
        }
        proof {
            assert(item_lists.take(i as int) =~= item_lists);
        }
        let ghost crop_lists = self.crops@.map_values(|crop: CropDef| crop.models@);
        let ghost with_items = models@;
        let mut i: usize = 0;
        while i < self.crops.len()
            invariant
                i <= self.crops@.len(),
                crop_lists == self.crops@.map_values(|crop: CropDef| crop.models@),
                models@ == with_items + tagged(crop_lists.take(i as int).flatten(), ContentFile::Crops),
            decreases self.crops@.len() - i,
        {
            push_tagged(&mut models, &self.crops[i].models, ContentFile::Crops);
            proof {
                assert(crop_lists.take(i + 1) =~= crop_lists.take(i as int).push(crop_lists[i as int]));
                crop_lists.take(i as int).lemma_flatten_push(crop_lists[i as int]);
                assert(tagged(crop_lists.take(i + 1).flatten(), ContentFile::Crops) =~= tagged(
                    crop_lists.take(i as int).flatten(),
                    ContentFile::Crops,
                ) + tagged(crop_lists[i as int], ContentFile::Crops));
            }
            i = i + 1;
        }
        proof {
            assert(crop_lists.take(i as int) =~= crop_lists);
        }
        let ghost with_crops = models@;
        let mut i: usize = 0;
        while i < self.shops.len()
            invariant
                i <= self.shops@.len(),
                models@ == with_crops + tagged(
                    self.shops@.take(i as int).map_values(|shop: ShopDef| shop.stall),
                    ContentFile::Shops,
                ),
            decreases self.shops@.len() - i,
        {
            proof {
                assert(tagged(self.shops@.take(i + 1).map_values(|shop: ShopDef| shop.stall), ContentFile::Shops)
                    =~= tagged(self.shops@.take(i as int).map_values(|shop: ShopDef| shop.stall), ContentFile::Shops).push(
                    (self.shops@[i as int].stall, ContentFile::Shops),
                ));
            }
            models.push((self.shops[i].stall.clone(), ContentFile::Shops));
            i = i + 1;
        }
        proof {
            assert(self.shops@.take(i as int) =~= self.shops@);
            assert(models@ =~= models_in_use(self@));
        }
        models
    }

    /// Every skin the catalog dresses someone in, and the file that names
    /// it.
    pub fn skins_used(&self) -> (skins: Vec<(String, ContentFile)>)
        ensures
            skins@ == skins_in_use(self@),
    {
        let mut skins: Vec<(String, ContentFile)> = Vec::new();
        push_tagged(&mut skins, &self.characters.wardrobe.bodies, ContentFile::Characters);
        push_tagged(&mut skins, &self.characters.wardrobe.outfits, ContentFile::Characters);
        push_tagged(&mut skins, &self.characters.wardrobe.hair, ContentFile::Characters);
        let ghost worn = skins@;
        proof {
            let w = self.characters.wardrobe;
            assert(worn =~= tagged(wardrobe_skins(w), ContentFile::Characters));
        }
        let ghost lists = self.shops@.map_values(
            |shop: ShopDef| seq![shop.keeper.body, shop.keeper.outfit, shop.keeper.hair],
        );
        let mut i: usize = 0;
        while i < self.shops.len()
            invariant
                i <= self.shops@.len(),
                lists == self.shops@.map_values(
                    |shop: ShopDef| seq![shop.keeper.body, shop.keeper.outfit, shop.keeper.hair],
                ),
                skins@ == worn + tagged(lists.take(i as int).flatten(), ContentFile::Shops),
            decreases self.shops@.len() - i,
        {
            let keeper = &self.shops[i].keeper;
            let ghost before = skins@;
            skins.push((keeper.body.clone(), ContentFile::Shops));
            skins.push((keeper.outfit.clone(), ContentFile::Shops));
            skins.push((keeper.hair.clone(), ContentFile::Shops));
            proof {
                assert(lists.take(i + 1) =~= lists.take(i as int).push(lists[i as int]));
                lists.take(i as int).lemma_flatten_push(lists[i as int]);
                assert(tagged(lists.take(i + 1).flatten(), ContentFile::Shops) =~= tagged(
                    lists.take(i as int).flatten(),
                    ContentFile::Shops,
                ) + tagged(lists[i as int], ContentFile::Shops));
                assert(skins@ =~= before + tagged(lists[i as int], ContentFile::Shops));
            }
            i = i + 1;
        }
        proof {
            assert(lists.take(i as int) =~= lists);
        }
        skins
    }

    /// The colors everything is drawn in; they color the ground.
    pub fn palette(&self) -> (palette: &Palette)
        ensures
            *palette == self@.palette,
            colors_ground(*palette),
    {
        proof {
            use_type_invariant(self);
        }
        &self.palette
    }
}

} // verus!
