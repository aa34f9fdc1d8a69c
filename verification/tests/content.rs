use messoria::content::crop::{CropEntry, CropsFile};
use messoria::content::item::{ItemEntry, ItemsFile};
use messoria::content::palette::PaletteFile;
use messoria::content::scenery::{PropEntry, SceneryFile};
use messoria::content::shop::{ListingEntry, ShopEntry, ShopsFile};
use messoria::content::structure::StructuresFile;
use messoria::content::village::{PlaceEntry, VillageFile};
use messoria::{
    Catalog, ClockTime, ContentError, ContentFiles, CoverDef, Characters, Cube, Expressions, Grip,
    Limb, Limbs, Wardrobe,
    ItemKind, Look, MarketRules, Material, Number, Rgb, Season, Tool, Weekday, WorldTime,
};

fn n(value: f32) -> Number {
    Number::from_bits(value.to_bits())
}

fn f(number: Number) -> f32 {
    f32::from_bits(number.bits)
}

fn rgb(red: f32, green: f32, blue: f32) -> Rgb {
    [n(red), n(green), n(blue)]
}

fn text(value: &str) -> String {
    value.to_owned()
}

fn texts(values: &[&str]) -> Vec<String> {
    values.iter().map(|value| text(value)).collect()
}

fn item(id: &str, name: &str, kind: ItemKind, stack: u16) -> ItemEntry {
    ItemEntry {
        id: text(id),
        name: text(name),
        kind,
        stack,
        shelf_life: None,
        spoils_into: None,
        model: None,
    }
}

fn items() -> ItemsFile {
    let mut berries = item("berries", "Berries", ItemKind::Food { energy: 5 }, 20);
    berries.shelf_life = Some(3);
    berries.spoils_into = Some(text("compost"));
    ItemsFile {
        items: vec![
            item("shovel", "Shovel", ItemKind::Tool(Tool::Shovel), 1),
            item(
                "soil",
                "Soil",
                ItemKind::Terrain { materials: vec![Material::Grass, Material::Soil] },
                99,
            ),
            item(
                "stone",
                "Stone",
                ItemKind::Terrain { materials: vec![Material::Stone, Material::Sand] },
                99,
            ),
            berries,
            item("compost", "Compost", ItemKind::Fertilizer, 99),
            item("turnip_seeds", "Turnip seeds", ItemKind::Seed, 99),
            item("turnip", "Turnip", ItemKind::Food { energy: 10 }, 99),
        ],
        starting_inventory: vec![(text("shovel"), 1), (text("berries"), 4)],
        starting_money: 150,
    }
}

fn turnip() -> CropEntry {
    CropEntry {
        id: text("turnip"),
        name: text("Turnip"),
        seeds: text("turnip_seeds"),
        produce: text("turnip"),
        seasons: vec![Season::Spring],
        stages: vec![1, 1, 2],
        regrows_after: None,
        harvest: 1,
        color: rgb(0.9, 0.8, 0.9),
        models: texts(&["crops/a.glb", "crops/b.glb", "crops/c.glb", "crops/d.glb"]),
        produce_shown: false,
    }
}

fn crops() -> CropsFile {
    CropsFile { crops: vec![turnip()] }
}

fn market() -> MarketRules {
    MarketRules {
        off_season_markup: n(1.5),
        halves_after: n(100.0),
        daily_recovery: n(0.25),
        silver_bonus: n(1.25),
        gold_bonus: n(1.5),
    }
}

fn grocer() -> ShopEntry {
    ShopEntry {
        id: text("grocer"),
        name: text("Grocer"),
        opens: text("09:00"),
        closes: text("17:00"),
        closed_on: vec![Weekday::Sunday],
        daily_limit: 20,
        buys: vec![(text("turnip"), 30), (text("berries"), 8)],
        sells: vec![
            ListingEntry {
                item: text("turnip_seeds"),
                price: 10,
                seasons: Some(vec![Season::Spring]),
            },
            ListingEntry { item: text("compost"), price: 5, seasons: None },
        ],
        stall: text("town/stall.glb"),
        keeper: Look {
            body: text("b.png"),
            outfit: text("o.png"),
            hair: text("h.png"),
            hair_color: rgb(0.2, 0.1, 0.1),
        },
    }
}

fn shops() -> ShopsFile {
    ShopsFile { market: market(), shops: vec![grocer()] }
}

fn oak() -> PropEntry {
    PropEntry {
        id: text("oak"),
        name: text("Oak"),
        models: texts(&["nature/oak.glb"]),
        scale: (n(3.0), n(4.0)),
        radius: n(0.2),
        spacing: n(10.0),
        density: n(0.5),
        clustering: n(0.5),
        max_slope: n(0.6),
        grows_on: vec![Material::Grass],
        blocks: true,
        gather: None,
    }
}

fn grass() -> CoverDef {
    CoverDef {
        models: texts(&["nature/grass.glb"]),
        per_square_meter: n(0.2),
        scale: (n(1.0), n(1.5)),
        seasons: vec![Season::Spring],
    }
}

fn scenery() -> SceneryFile {
    SceneryFile { props: vec![oak()], cover: vec![grass()] }
}

fn palette() -> PaletteFile {
    PaletteFile {
        colors: vec![
            (text("terrain_grass"), rgb(0.3, 0.5, 0.2)),
            (text("terrain_soil"), rgb(0.4, 0.3, 0.2)),
            (text("terrain_stone"), rgb(0.5, 0.5, 0.5)),
            (text("terrain_sand"), rgb(0.8, 0.7, 0.5)),
            (text("leaves"), rgb(0.2, 0.5, 0.2)),
        ],
        seasons: vec![(Season::Autumn, vec![(text("leaves"), rgb(0.8, 0.4, 0.1))])],
    }
}

fn limb(joint: (f32, f32, f32)) -> Limb {
    Limb {
        joint: (n(joint.0), n(joint.1), n(joint.2)),
        boxes: vec![Cube {
            from: (n(0.0), n(0.0), n(0.0)),
            size: (n(1.0), n(1.0), n(1.0)),
            uv: (0, 0),
        }],
    }
}

fn characters() -> Characters {
    Characters {
        pixel: n(0.1),
        texels: 1,
        skin_size: (8, 8),
        limbs: Limbs {
            body: limb((0.0, 1.0, 0.0)),
            head: limb((0.0, 1.0, 0.0)),
            right_arm: limb((1.0, 1.0, 0.0)),
            left_arm: limb((-1.0, 1.0, 0.0)),
            right_leg: limb((0.5, 1.0, 0.0)),
            left_leg: limb((-0.5, 1.0, 0.0)),
            right_forearm: limb((0.0, -1.0, 0.0)),
            left_forearm: limb((0.0, -1.0, 0.0)),
            right_shin: limb((0.0, -1.0, 0.0)),
            left_shin: limb((0.0, -1.0, 0.0)),
        },
        expressions: Expressions { blink: (0, 0), smile: (0, 0), surprise: (0, 0), effort: (0, 0) },
        grip: Grip {
            at: (n(0.0), n(0.0), n(0.0)),
            turn: (n(0.0), n(0.0), n(0.0)),
            tool_size: n(1.0),
            item_size: n(0.5),
        },
        wardrobe: Wardrobe {
            bodies: texts(&["b.png"]),
            outfits: texts(&["o.png"]),
            hair: texts(&["h.png"]),
            hair_colors: vec![rgb(0.2, 0.1, 0.1)],
        },
    }
}

fn village() -> VillageFile {
    VillageFile {
        stalls: vec![PlaceEntry {
            id: text("grocer"),
            at: (n(0.0), n(-3.0)),
            turn: n(std::f32::consts::PI),
        }],
        structures: vec![],
    }
}

fn files() -> ContentFiles {
    ContentFiles {
        items: items(),
        crops: crops(),
        shops: shops(),
        scenery: scenery(),
        palette: palette(),
        structures: StructuresFile { structures: vec![] },
        characters: characters(),
        village: village(),
    }
}

fn catalog(files: ContentFiles) -> Result<Catalog, ContentError> {
    Catalog::from_files(files)
}

fn valid() -> Catalog {
    catalog(files()).expect("the test content is valid")
}

fn rejection(result: Result<Catalog, ContentError>) -> String {
    result.expect_err("content should be rejected").message()
}

fn problem_with_items(items: ItemsFile) -> String {
    rejection(catalog(ContentFiles { items, ..files() }))
}

fn problem_with_crops(crops: CropsFile) -> String {
    rejection(catalog(ContentFiles { crops, ..files() }))
}

fn problem_with_shops(shops: ShopsFile) -> String {
    rejection(catalog(ContentFiles { shops, ..files() }))
}

fn problem_with_scenery(scenery: SceneryFile) -> String {
    rejection(catalog(ContentFiles { scenery, ..files() }))
}

fn problem_with_palette(palette: PaletteFile) -> String {
    rejection(catalog(ContentFiles { palette, ..files() }))
}

fn near(color: Option<Rgb>, expected: [f32; 3]) -> bool {
    color.is_some_and(|color| {
        color
            .iter()
            .zip(expected)
            .all(|(&channel, expected)| (f(channel) - expected).abs() < 1e-6)
    })
}

#[test]
fn scenery_and_palette_load() {
    let catalog = valid();
    let oak = catalog.prop(catalog.prop_id("oak").unwrap());
    assert_eq!(oak.models, ["nature/oak.glb"]);
    assert_eq!(oak.grows_on, [Material::Grass]);
    assert!(catalog.cover()[0].shows_in(Season::Spring));
    assert!(!catalog.cover()[0].shows_in(Season::Winter));

    let palette = catalog.palette();
    assert!(near(palette.color("leaves", Season::Spring), [0.2, 0.5, 0.2]));
    assert!(near(palette.color("leaves", Season::Autumn), [0.8, 0.4, 0.1]));
    assert_eq!(palette.color("bark", Season::Spring), None);
    assert!(near(
        Some(palette.ground(Material::Soil, Season::Winter)),
        [0.4, 0.3, 0.2]
    ));
}

#[test]
fn inconsistent_scenery_is_rejected() {
    let mut twice = scenery();
    let mut again = oak();
    again.models = texts(&["a.glb"]);
    again.scale = (n(1.0), n(1.0));
    again.radius = n(0.1);
    again.spacing = n(1.0);
    again.density = n(1.0);
    again.clustering = n(0.0);
    again.max_slope = n(1.0);
    twice.props.insert(0, again);

    let mut outside = scenery();
    outside.props[0].models = texts(&["../oak.glb"]);
    let mut no_model = scenery();
    no_model.props[0].models = vec![];
    let mut upside_down = scenery();
    upside_down.props[0].scale = (n(4.0), n(3.0));
    let mut dense = scenery();
    dense.props[0].density = n(1.5);
    let mut rootless = scenery();
    rootless.props[0].grows_on = vec![];
    let mut bare = scenery();
    bare.cover[0].per_square_meter = n(0.0);

    let cases = [
        (twice, "prop `oak` is defined more than once"),
        (
            outside,
            "prop `oak` is invalid: `../oak.glb` is not a .glb file inside the models folder",
        ),
        (no_model, "prop `oak` is invalid: it lists no model"),
        (
            upside_down,
            "prop `oak` is invalid: its scale must be a positive range, smallest first",
        ),
        (dense, "prop `oak` is invalid: its density must be above 0 and at most 1"),
        (rootless, "prop `oak` is invalid: it grows on no ground"),
        (
            bare,
            "ground cover 1 is invalid: it must grow somewhere: plants per square meter must be above 0",
        ),
    ];
    for (source, expected) in cases {
        assert_eq!(problem_with_scenery(source), format!("scenery.ron: {expected}"));
    }
}

#[test]
fn inconsistent_palettes_are_rejected() {
    let mut sandless = palette();
    sandless.colors.retain(|(name, _)| name != "terrain_sand");
    let mut bright = palette();
    bright.colors[4].1 = rgb(0.2, 1.5, 0.2);
    let mut misspelt = palette();
    misspelt.seasons[0].1[0].0 = text("leafs");

    let cases = [
        (sandless, "the palette has no color for `terrain_sand`"),
        (bright, "color `leaves` has a channel outside 0 to 1"),
        (misspelt, "Autumn changes color `leafs`, which the palette does not define"),
    ];
    for (source, expected) in cases {
        assert_eq!(problem_with_palette(source), format!("palette.ron: {expected}"));
    }
}

#[test]
fn valid_content_loads_with_every_reference_resolved() {
    let catalog = valid();
    let berries = catalog.id("berries").unwrap();

    assert_eq!(catalog.item(berries).name, "Berries");
    assert_eq!(catalog.item(berries).shelf_life, Some(3));
    assert_eq!(catalog.item(berries).spoils_into, catalog.id("compost"));
    assert_eq!(catalog.item(catalog.id("shovel").unwrap()).max_stack, 1);
    assert_eq!(
        catalog.dug_item(Material::Grass),
        catalog.id("soil").unwrap()
    );
    assert_eq!(
        catalog.starting_inventory(),
        [(catalog.id("shovel").unwrap(), 1), (berries, 4)]
    );
    assert_eq!(catalog.starting_money(), 150);
}

#[test]
fn crops_link_their_seeds_and_produce() {
    let catalog = valid();
    let turnip = catalog.crop_id("turnip").unwrap();
    let seeds = catalog.id("turnip_seeds").unwrap();

    assert_eq!(catalog.crop_grown_from(seeds), Some(turnip));
    assert_eq!(catalog.crop(turnip).produce, catalog.id("turnip").unwrap());
    assert_eq!(catalog.crop(turnip).seasons, [Season::Spring]);
    assert_eq!(catalog.crop(turnip).days_to_ripen(), 4);
    assert_eq!(catalog.crop(turnip).regrows_after, None);
}

#[test]
fn shops_trade_on_their_days_and_hours() {
    let catalog = valid();
    let grocer = catalog.shop(catalog.shop_id("grocer").unwrap());
    let at = |day, clock: &str| WorldTime::at(day, clock.parse().unwrap()).unwrap();

    // Day 0 is a Monday and day 6 a Sunday.
    assert!(!grocer.is_open(at(0, "08:59")));
    assert!(grocer.is_open(at(0, "09:00")));
    assert!(grocer.is_open(at(0, "16:59")));
    assert!(!grocer.is_open(at(0, "17:00")));
    assert!(!grocer.is_open(at(6, "12:00")));
}

#[test]
fn shops_link_what_they_buy_and_sell() {
    let catalog = valid();
    let grocer = catalog.shop(catalog.shop_id("grocer").unwrap());
    let (turnip, seeds, compost) = (
        catalog.id("turnip").unwrap(),
        catalog.id("turnip_seeds").unwrap(),
        catalog.id("compost").unwrap(),
    );

    assert_eq!(grocer.offer(turnip).map(|offer| offer.base_price), Some(30));
    assert_eq!(grocer.offer(seeds), None);
    assert!(grocer.listing(seeds).unwrap().on_sale_in(Season::Spring));
    assert!(!grocer.listing(seeds).unwrap().on_sale_in(Season::Summer));
    assert!(grocer.listing(compost).unwrap().on_sale_in(Season::Winter));
    assert_eq!(catalog.harvest_seasons(turnip), Some(vec![Season::Spring]));
    assert_eq!(catalog.harvest_seasons(compost), None);
}

#[test]
fn inconsistent_shops_are_rejected() {
    let mut twice = shops();
    twice.shops.insert(
        0,
        ShopEntry {
            id: text("grocer"),
            name: text("Again"),
            opens: text("09:00"),
            closes: text("10:00"),
            closed_on: vec![],
            daily_limit: 1,
            buys: vec![],
            sells: vec![],
            stall: text("s.glb"),
            keeper: Look {
                body: text("b.png"),
                outfit: text("o.png"),
                hair: text("h.png"),
                hair_color: rgb(0.0, 0.0, 0.0),
            },
        },
    );
    let mut unknown = shops();
    unknown.shops[0].buys[0].0 = text("turnips");
    let mut not_a_time = shops();
    not_a_time.shops[0].opens = text("9 am");
    let mut early = shops();
    early.shops[0].opens = text("05:00");
    let mut backwards = shops();
    backwards.shops[0].closes = text("08:00");
    let mut no_limit = shops();
    no_limit.shops[0].daily_limit = 0;
    let mut free = shops();
    free.shops[0].buys[0].1 = 0;
    let mut doubled = shops();
    doubled.shops[0].buys[1] = (text("turnip"), 8);
    let mut never = shops();
    never.shops[0].sells[0].seasons = Some(vec![]);
    let mut recovering = shops();
    recovering.market.daily_recovery = n(1.5);
    let mut bonuses = shops();
    bonuses.market.gold_bonus = n(1.1);
    let mut halving = shops();
    halving.market.halves_after = n(0.0);

    let cases = [
        (twice, "shop `grocer` is defined more than once"),
        (unknown, "shop `grocer` refers to unknown item `turnips`"),
        (not_a_time, "shop `grocer` is invalid: `9 am` is not a time such as 09:30"),
        (
            early,
            "shop `grocer` is invalid: it must open after 06:00 and close later the same day",
        ),
        (
            backwards,
            "shop `grocer` is invalid: it must open after 06:00 and close later the same day",
        ),
        (no_limit, "shop `grocer` is invalid: its daily limit must allow selling something"),
        (free, "shop `grocer` is invalid: every price must be above 0"),
        (doubled, "shop `grocer` is invalid: it lists an item twice"),
        (
            never,
            "shop `grocer` is invalid: an item on sale in no season should not be listed",
        ),
        (
            recovering,
            "the market rules are invalid: the daily recovery must be between 0 and 1",
        ),
        (
            bonuses,
            "the market rules are invalid: quality bonuses must be at least 1 and grow with quality",
        ),
        (
            halving,
            "the market rules are invalid: prices must take a positive number of sales to halve",
        ),
    ];
    for (source, expected) in cases {
        assert_eq!(problem_with_shops(source), format!("shops.ron: {expected}"));
    }
}

#[test]
fn unknown_references_are_named() {
    let mut compot = items();
    compot.items[3].spoils_into = Some(text("compot"));
    assert_eq!(
        problem_with_items(compot),
        "items.ron: item `berries` refers to unknown item `compot`"
    );

    let mut beries = items();
    beries.starting_inventory[1].0 = text("beries");
    assert_eq!(
        problem_with_items(beries),
        "items.ron: the starting inventory refers to unknown item `beries`"
    );

    let mut tunrip = crops();
    tunrip.crops[0].produce = text("tunrip");
    assert_eq!(
        problem_with_crops(tunrip),
        "crops.ron: crop `turnip` refers to unknown item `tunrip`"
    );
}

#[test]
fn inconsistent_items_are_rejected() {
    let mut twice = items();
    twice.items[4].id = text("soil");
    let mut stacked_tool = items();
    stacked_tool.items[0].stack = 5;
    let mut empty_stack = items();
    empty_stack.items[4].stack = 0;
    let mut nowhere = items();
    nowhere.items[3].spoils_into = None;
    let mut itself = items();
    itself.items[3].spoils_into = Some(text("berries"));
    let mut sandless = items();
    sandless.items[2].kind = ItemKind::Terrain { materials: vec![Material::Stone] };
    let mut shared = items();
    shared.items[2].kind = ItemKind::Terrain {
        materials: vec![Material::Stone, Material::Sand, Material::Soil],
    };
    let mut none_to_start = items();
    none_to_start.starting_inventory[1].1 = 0;

    let cases = [
        (twice, "item `soil` is defined more than once"),
        (stacked_tool, "item `shovel` is a tool, and tools do not stack"),
        (empty_stack, "item `compost` has a stack size of 0"),
        (
            nowhere,
            "item `berries` has a shelf life but does not say what it spoils into",
        ),
        (itself, "item `berries` spoils into itself"),
        (sandless, "no item is dug from Sand"),
        (shared, "Soil is dug as both `soil` and `stone`"),
        (
            none_to_start,
            "the starting inventory lists `berries` with a count of 0",
        ),
    ];
    for (source, expected) in cases {
        assert_eq!(problem_with_items(source), format!("items.ron: {expected}"));
    }
}

#[test]
fn inconsistent_crops_are_rejected() {
    let mut duplicate = crops();
    let mut again = turnip();
    again.name = text("Again");
    again.stages = vec![1];
    again.color = rgb(0.0, 0.0, 0.0);
    again.models = texts(&["a.glb", "b.glb"]);
    duplicate.crops.insert(0, again);
    let mut not_a_seed = crops();
    not_a_seed.crops[0].seeds = text("berries");
    let mut seasonless = crops();
    seasonless.crops[0].seasons = vec![];
    let mut stageless = crops();
    stageless.crops[0].stages = vec![1, 0];
    let mut slow = crops();
    slow.crops[0].regrows_after = Some(9);
    let mut fruitless = crops();
    fruitless.crops[0].harvest = 0;

    let cases = [
        (duplicate, "crop `turnip` is defined more than once"),
        (not_a_seed, "crop `turnip` grows from `berries`, which is not a seed"),
        (seasonless, "crop `turnip` is invalid: it grows in no season"),
        (
            stageless,
            "crop `turnip` is invalid: every crop needs at least one stage, and every stage at least one day",
        ),
        (
            slow,
            "crop `turnip` is invalid: it must take between one day and its full growth to regrow",
        ),
        (fruitless, "crop `turnip` is invalid: a harvest must yield something"),
        (CropsFile { crops: vec![] }, "seed `turnip_seeds` does not grow any crop"),
    ];
    for (source, expected) in cases {
        assert_eq!(problem_with_crops(source), format!("crops.ron: {expected}"));
    }
}

use messoria::content::catalog::{LoadFailure, ParsedFiles};
use messoria::content::error::ContentFile;
use messoria::content::scenery::GatherEntry;
use messoria::content::structure::{PlacementEntry, StructureEntry};
use messoria::{Part, Purpose, Remains, Solid};

fn structure_part(model: &str) -> Part {
    Part {
        model: text(model),
        at: (n(0.0), n(0.0), n(0.0)),
        turn: n(0.0),
        scale: n(1.0),
    }
}

fn cabin(id: &str, kit: &str) -> StructureEntry {
    StructureEntry {
        id: text(id),
        name: text("Cabin"),
        built_from: Some(text(kit)),
        size: (n(4.0), n(4.0)),
        levels_ground: true,
        home: true,
        purpose: Purpose::Nothing,
        parts: vec![structure_part("town/cabin.glb")],
        solids: vec![Solid { at: (n(0.0), n(0.0)), size: (n(4.0), n(4.0)), height: n(3.0) }],
        lamps: vec![(n(0.0), n(2.0), n(0.0))],
        contains: vec![PlacementEntry {
            structure: text("bed"),
            at: (n(1.0), n(1.0)),
            turn: n(0.0),
        }],
    }
}

fn bed() -> StructureEntry {
    StructureEntry {
        id: text("bed"),
        name: text("Bed"),
        built_from: None,
        size: (n(1.0), n(2.0)),
        levels_ground: false,
        home: false,
        purpose: Purpose::Bed,
        parts: vec![structure_part("furniture/bed.glb")],
        solids: vec![],
        lamps: vec![],
        contains: vec![],
    }
}

fn items_with_kits(kits: &[&str]) -> ItemsFile {
    let mut file = items();
    for kit in kits {
        file.items.push(item(kit, "Kit", ItemKind::Structure, 1));
    }
    file
}

fn built_files() -> ContentFiles {
    let mut village = village();
    village.structures.push(PlaceEntry { id: text("cabin"), at: (n(5.0), n(5.0)), turn: n(0.0) });
    ContentFiles {
        items: items_with_kits(&["cabin_kit"]),
        structures: StructuresFile { structures: vec![cabin("cabin", "cabin_kit"), bed()] },
        village,
        ..files()
    }
}

fn problem_with_structures(kits: &[&str], structures: Vec<StructureEntry>) -> String {
    rejection(catalog(ContentFiles {
        items: items_with_kits(kits),
        structures: StructuresFile { structures },
        ..files()
    }))
}

#[test]
fn structures_link_their_items_and_contents() {
    let catalog = catalog(built_files()).expect("the test content is valid");
    let cabin = catalog.structure_id("cabin").unwrap();
    let bed = catalog.structure_id("bed").unwrap();
    let kit = catalog.id("cabin_kit").unwrap();

    assert_eq!(catalog.structure_built_from(kit), Some(cabin));
    assert_eq!(catalog.structure_built_from(catalog.id("berries").unwrap()), None);
    assert_eq!(catalog.home(), Some(cabin));
    assert_eq!(catalog.structure(cabin).contains[0].structure, bed);
    assert_eq!(catalog.structure(bed).purpose, Purpose::Bed);
    assert_eq!(catalog.structures().len(), 2);
    assert_eq!(catalog.village().structures[0].structure, cabin);
    assert_eq!(
        catalog.village().stalls[0].shop,
        catalog.shop_id("grocer").unwrap()
    );
    assert_eq!(catalog.home().map(|id| catalog.structure(id).key.clone()), Some(text("cabin")));
}

#[test]
fn inconsistent_structures_are_rejected() {
    let mut unknown_kit = cabin("cabin", "cabin_kot");
    unknown_kit.contains.clear();
    let mut unknown_contents = cabin("cabin", "cabin_kit");
    unknown_contents.contains[0].structure = text("bunk");
    let mut nested = cabin("cabin", "cabin_kit");
    nested.home = false;
    nested.contains[0].structure = text("shed");
    let mut shed = bed();
    shed.id = text("shed");
    shed.contains = vec![PlacementEntry { structure: text("bed"), at: (n(0.0), n(0.0)), turn: n(0.0) }];
    let mut bedless = cabin("cabin", "cabin_kit");
    bedless.contains.clear();
    let mut flat = cabin("cabin", "cabin_kit");
    flat.size = (n(0.0), n(4.0));
    let mut tiny = cabin("cabin", "cabin_kit");
    tiny.parts[0].scale = n(0.0);
    let mut hollow = cabin("cabin", "cabin_kit");
    hollow.solids[0].height = n(0.0);
    let mut pictured = cabin("cabin", "cabin_kit");
    pictured.parts[0].model = text("town/cabin.png");
    let mut homeless_bed = bed();
    homeless_bed.home = true;

    let cases = [
        (vec!["cabin_kit"], vec![bed(), bed()], "structure `bed` is defined more than once"),
        (
            vec!["cabin_kit"],
            vec![unknown_kit, bed()],
            "structure `cabin` refers to unknown item `cabin_kot`",
        ),
        (
            vec!["cabin_kit"],
            vec![unknown_contents, bed()],
            "structure `cabin` is invalid: it contains unknown structure `bunk`",
        ),
        (
            vec![],
            vec![cabin("cabin", "berries"), bed()],
            "structure `cabin` is invalid: it is built from an item that is not a structure",
        ),
        (
            vec!["cabin_kit"],
            vec![cabin("cabin", "cabin_kit"), cabin("lodge", "cabin_kit"), bed()],
            "structure `lodge` is invalid: another structure is built from the same item",
        ),
        (
            vec!["cabin_kit"],
            vec![nested, shed, bed()],
            "structure `cabin` is invalid: what it contains cannot contain structures in turn",
        ),
        (
            vec!["cabin_kit"],
            vec![bedless, bed()],
            "structure `cabin` is invalid: it is every player's home, so it must contain a bed",
        ),
        (
            vec!["cabin_kit"],
            vec![cabin("cabin", "cabin_kit"), homeless_bed],
            "structure `bed` is invalid: it is every player's home, so players must be able to build it",
        ),
        (vec!["cabin_kit"], vec![flat, bed()], "structure `cabin` is invalid: its size must be above 0 both ways"),
        (
            vec!["cabin_kit"],
            vec![tiny, bed()],
            "structure `cabin` is invalid: its parts must be drawn at a scale above 0",
        ),
        (
            vec!["cabin_kit"],
            vec![hollow, bed()],
            "structure `cabin` is invalid: its solids must have a size and height above 0",
        ),
        (
            vec!["cabin_kit"],
            vec![pictured, bed()],
            "structure `cabin` is invalid: `town/cabin.png` is not a .glb file inside the models folder",
        ),
        (
            vec!["cabin_kit", "lodge_kit"],
            vec![cabin("cabin", "cabin_kit"), cabin("lodge", "lodge_kit"), bed()],
            "structure `home` is invalid: only one structure can be every player's home",
        ),
        (
            vec!["cabin_kit", "shed_kit"],
            vec![cabin("cabin", "cabin_kit"), bed()],
            "item `shed_kit` is a structure, but no structure is built from it",
        ),
    ];
    for (kits, structures, expected) in cases {
        assert_eq!(
            problem_with_structures(&kits, structures),
            format!("structures.ron: {expected}")
        );
    }
}

#[test]
fn inconsistent_villages_are_rejected() {
    let mut unknown_shop = village();
    unknown_shop.stalls[0].id = text("baker");
    let mut unknown_structure = built_files().village;
    unknown_structure.structures[0].id = text("castle");
    let mut twice = village();
    twice.stalls.push(PlaceEntry { id: text("grocer"), at: (n(3.0), n(0.0)), turn: n(0.0) });
    let mut none = village();
    none.stalls.clear();

    let cases = [
        (unknown_shop, "the village is invalid: it places unknown shop `baker`"),
        (unknown_structure, "the village is invalid: it places unknown structure `castle`"),
        (twice, "the village is invalid: shop `grocer` must have exactly one stall"),
        (none, "the village is invalid: shop `grocer` must have exactly one stall"),
    ];
    for (village, expected) in cases {
        let message = rejection(catalog(ContentFiles { village, ..built_files() }));
        assert_eq!(message, format!("village.ron: {expected}"));
    }
}

#[test]
fn inconsistent_characters_are_rejected() {
    let mut flat = characters();
    flat.grip.item_size = n(0.0);
    let mut tiny = characters();
    tiny.pixel = n(-0.1);
    let mut coarse = characters();
    coarse.texels = 0;
    let mut bare = characters();
    bare.wardrobe.outfits.clear();
    let mut outside = characters();
    outside.wardrobe.hair = texts(&["h.png", "../hair.png"]);
    let mut drawn = characters();
    drawn.wardrobe.bodies = texts(&["body.jpg"]);
    let mut dyed = characters();
    dyed.wardrobe.hair_colors.push(rgb(1.2, 0.0, 0.0));

    let cases = [
        (flat, "the characters are invalid: scales must be above 0"),
        (tiny, "the characters are invalid: scales must be above 0"),
        (coarse, "the characters are invalid: scales must be above 0"),
        (bare, "the characters are invalid: its wardrobe must offer at least one of each"),
        (
            outside,
            "the characters are invalid: `../hair.png` is not a .png file inside the skins folder",
        ),
        (
            drawn,
            "the characters are invalid: `body.jpg` is not a .png file inside the skins folder",
        ),
        (dyed, "the characters are invalid: a hair color has a channel outside 0 to 1"),
    ];
    for (characters, expected) in cases {
        let message = rejection(catalog(ContentFiles { characters, ..files() }));
        assert_eq!(message, format!("characters.ron: {expected}"));
    }
}

#[test]
fn wardrobe_skins_are_listed_in_order() {
    let mut dressy = characters();
    dressy.wardrobe.bodies.push(text("b2.png"));
    let skins: Vec<String> = dressy.skins_used().into_iter().cloned().collect();
    assert_eq!(skins, texts(&["b.png", "b2.png", "o.png", "h.png"]));
}

fn berry_bush() -> PropEntry {
    let mut bush = oak();
    bush.id = text("bush");
    bush.name = text("Bush");
    bush.models = texts(&["nature/bush.glb"]);
    bush.gather = Some(GatherEntry {
        tool: None,
        strikes: 1,
        yields: vec![(text("berries"), 3)],
        remains: Remains::Itself,
        regrows_after: Some(4),
        fruit: Some(rgb(0.6, 0.1, 0.2)),
    });
    bush
}

fn felled_oak() -> PropEntry {
    let mut tree = oak();
    tree.gather = Some(GatherEntry {
        tool: Some(Tool::Axe),
        strikes: 3,
        yields: vec![(text("compost"), 2)],
        remains: Remains::Model { model: text("nature/stump.glb"), scale: n(1.0) },
        regrows_after: None,
        fruit: None,
    });
    tree
}

#[test]
fn props_give_what_they_are_gathered_for() {
    let scenery = SceneryFile { props: vec![felled_oak(), berry_bush()], cover: vec![grass()] };
    let catalog = catalog(ContentFiles { scenery, ..files() }).expect("the test content is valid");
    let oak = catalog.prop(catalog.prop_id("oak").unwrap());
    let bush = catalog.prop(catalog.prop_id("bush").unwrap());
    let gathering = oak.gather.as_ref().unwrap();

    assert_eq!(gathering.yields, [(catalog.id("compost").unwrap(), 2)]);
    assert_eq!(gathering.tool, Some(Tool::Axe));
    assert!(oak.stands_when_gathered());
    assert!(bush.stands_when_gathered());
    assert!(!catalog.prop(catalog.prop_id("oak").unwrap()).models_used().is_empty());
    assert_eq!(
        oak.models_used(),
        [&text("nature/oak.glb"), &text("nature/stump.glb")]
    );
    assert_eq!(bush.models_used(), [&text("nature/bush.glb")]);
    assert_eq!(catalog.props().len(), 2);
}

#[test]
fn inconsistent_gathering_is_rejected() {
    let with_gather = |change: &dyn Fn(&mut GatherEntry)| {
        let mut bush = berry_bush();
        change(bush.gather.as_mut().unwrap());
        bush
    };
    let mut unknown = berry_bush();
    unknown.gather.as_mut().unwrap().yields[0].0 = text("berrys");
    let mut dull = berry_bush();
    dull.gather.as_mut().unwrap().fruit = Some(rgb(0.6, 1.1, 0.2));
    let mut passable = berry_bush();
    passable.blocks = false;

    let cases = [
        (unknown, "prop `bush` refers to unknown item `berrys`"),
        (dull, "prop `bush` is invalid: its fruit has a color channel outside 0 to 1"),
        (
            with_gather(&|gather| gather.yields[0].1 = 0),
            "prop `bush` is invalid: gathering it must yield at least one of each item it lists",
        ),
        (
            with_gather(&|gather| gather.tool = Some(Tool::Shovel)),
            "prop `bush` is invalid: only the axe and the pickaxe gather scenery",
        ),
        (
            with_gather(&|gather| gather.strikes = 2),
            "prop `bush` is invalid: it takes one strike by hand, and at least one with a tool",
        ),
        (
            with_gather(&|gather| gather.remains = Remains::Nothing),
            "prop `bush` is invalid: only what leaves something standing can grow back",
        ),
        (
            with_gather(&|gather| gather.regrows_after = Some(0)),
            "prop `bush` is invalid: it cannot grow back in 0 days",
        ),
        (passable, "prop `bush` is invalid: it can be gathered, so it must block"),
        (
            with_gather(&|gather| {
                gather.remains = Remains::Model { model: text("stump.obj"), scale: n(1.0) }
            }),
            "prop `bush` is invalid: what remains of it must be a .glb file inside the models folder",
        ),
        (
            with_gather(&|gather| {
                gather.remains = Remains::Model { model: text("stump.glb"), scale: n(0.0) }
            }),
            "prop `bush` is invalid: what remains of it must be drawn at a scale above 0",
        ),
    ];
    for (prop, expected) in cases {
        let scenery = SceneryFile { props: vec![prop], cover: vec![grass()] };
        assert_eq!(problem_with_scenery(scenery), format!("scenery.ron: {expected}"));
    }
}

#[test]
fn props_must_measure_sensibly() {
    let mut wide = scenery();
    wide.props[0].radius = n(-1.0);
    let mut crowded = scenery();
    crowded.props[0].spacing = n(0.0);
    let mut clustered = scenery();
    clustered.props[0].clustering = n(2.0);
    let mut sloped = scenery();
    sloped.props[0].max_slope = n(-0.5);
    let mut unknown = scenery();
    unknown.props[0].density = n(f32::NAN);
    let mut upside_down = scenery();
    upside_down.cover[0].scale = (n(2.0), n(1.0));
    let mut unmodelled = scenery();
    unmodelled.cover[0].models.clear();

    let cases = [
        (wide, "prop `oak` is invalid: its radius cannot be negative"),
        (crowded, "prop `oak` is invalid: its spacing must be above 0"),
        (clustered, "prop `oak` is invalid: its clustering must be between 0 and 1"),
        (sloped, "prop `oak` is invalid: its steepest slope cannot be negative"),
        (unknown, "prop `oak` is invalid: its density must be above 0 and at most 1"),
        (
            upside_down,
            "ground cover 1 is invalid: its scale must be a positive range, smallest first",
        ),
        (unmodelled, "ground cover 1 is invalid: it lists no model"),
    ];
    for (source, expected) in cases {
        assert_eq!(problem_with_scenery(source), format!("scenery.ron: {expected}"));
    }
}

#[test]
fn shops_must_be_drawn_and_kept() {
    let mut flat_stall = shops();
    flat_stall.shops[0].stall = text("town/stall.png");
    let mut bodiless = shops();
    bodiless.shops[0].keeper.body = text("../b.png");
    let mut dyed = shops();
    dyed.shops[0].keeper.hair_color = rgb(0.2, -0.1, 0.1);
    let mut cheap = shops();
    cheap.market.off_season_markup = n(0.5);
    let mut unknown = shops();
    unknown.market.daily_recovery = n(f32::NAN);

    let cases = [
        (
            flat_stall,
            "shop `grocer` is invalid: its stall must be a .glb file inside the models folder",
        ),
        (
            bodiless,
            "shop `grocer` is invalid: its keeper's look is invalid: `../b.png` is not a .png file inside the skins folder",
        ),
        (
            dyed,
            "shop `grocer` is invalid: its keeper's look is invalid: its hair color has a channel outside 0 to 1",
        ),
        (
            cheap,
            "the market rules are invalid: the off-season markup must be at least 1",
        ),
        (
            unknown,
            "the market rules are invalid: the daily recovery must be between 0 and 1",
        ),
    ];
    for (source, expected) in cases {
        assert_eq!(problem_with_shops(source), format!("shops.ron: {expected}"));
    }
}

#[test]
fn crops_must_be_drawn_for_every_stage() {
    let mut short = crops();
    short.crops[0].models.pop();
    let mut flat = crops();
    flat.crops[0].models[0] = text("crops/a.png");
    let mut shared = crops();
    let mut other = turnip();
    other.id = text("swede");
    shared.crops.push(other);

    let cases = [
        (
            short,
            "crop `turnip` is invalid: it needs a model for each stage, and one for when it is ripe",
        ),
        (
            flat,
            "crop `turnip` is invalid: its models must be .glb files inside the models folder",
        ),
        (shared, "seed `turnip_seeds` grows both `turnip` and `swede`"),
    ];
    for (source, expected) in cases {
        assert_eq!(problem_with_crops(source), format!("crops.ron: {expected}"));
    }
}

#[test]
fn regrowing_crops_ripen_again() {
    let mut regrowing = crops();
    regrowing.crops[0].regrows_after = Some(2);
    let catalog = catalog(ContentFiles { crops: regrowing, ..files() }).expect("valid");
    let turnip = catalog.crop(catalog.crop_id("turnip").unwrap());
    assert_eq!(turnip.regrows_after, Some(2));
    assert_eq!(turnip.days_to_ripen(), 4);
}

#[test]
fn every_key_finds_its_own_definition() {
    let catalog = catalog(built_files()).expect("the test content is valid");
    for (id, item) in catalog.items() {
        assert_eq!(catalog.id(&item.key), Some(id));
    }
    for (id, crop) in catalog.crops() {
        assert_eq!(catalog.crop_id(&crop.key), Some(id));
    }
    for (id, shop) in catalog.shops() {
        assert_eq!(catalog.shop_id(&shop.key), Some(id));
    }
    for (id, prop) in catalog.props() {
        assert_eq!(catalog.prop_id(&prop.key), Some(id));
    }
    for (id, structure) in catalog.structures() {
        assert_eq!(catalog.structure_id(&structure.key), Some(id));
    }
    assert_eq!(catalog.id("nothing"), None);
    assert_eq!(catalog.crop_id("berries"), None);
}

#[test]
fn every_material_is_dug_as_a_terrain_item() {
    let catalog = valid();
    for material in Material::all() {
        let dug = catalog.item(catalog.dug_item(material));
        match &dug.kind {
            ItemKind::Terrain { materials } => assert!(materials.contains(&material)),
            other => panic!("{material:?} is dug as {other:?}"),
        }
    }
    assert_eq!(catalog.dug_item(Material::Sand), catalog.id("stone").unwrap());
    assert_eq!(catalog.dug_item(Material::Soil), catalog.id("soil").unwrap());
    for material in Material::all() {
        let dug = catalog.dug_item(material);
        for (id, item) in catalog.items() {
            if let ItemKind::Terrain { materials } = &item.kind {
                if materials.contains(&material) {
                    assert_eq!(id, dug, "{material:?} is listed by another item");
                }
            }
        }
    }
}

#[test]
fn every_seed_grows_its_crop() {
    let catalog = valid();
    for (id, item) in catalog.items() {
        let grown = catalog.crop_grown_from(id);
        assert_eq!(grown.is_some(), item.kind == ItemKind::Seed);
    }
}

#[test]
fn models_and_skins_are_listed_with_their_files() {
    let catalog = catalog(built_files()).expect("the test content is valid");
    let models = catalog.models_used();
    assert_eq!(
        models,
        [
            (text("nature/oak.glb"), ContentFile::Scenery),
            (text("nature/grass.glb"), ContentFile::Scenery),
            (text("town/cabin.glb"), ContentFile::Structures),
            (text("furniture/bed.glb"), ContentFile::Structures),
            (text("crops/a.glb"), ContentFile::Crops),
            (text("crops/b.glb"), ContentFile::Crops),
            (text("crops/c.glb"), ContentFile::Crops),
            (text("crops/d.glb"), ContentFile::Crops),
            (text("town/stall.glb"), ContentFile::Shops),
        ]
    );
    assert_eq!(
        catalog.skins_used(),
        [
            (text("b.png"), ContentFile::Characters),
            (text("o.png"), ContentFile::Characters),
            (text("h.png"), ContentFile::Characters),
            (text("b.png"), ContentFile::Shops),
            (text("o.png"), ContentFile::Shops),
            (text("h.png"), ContentFile::Shops),
        ]
    );
}

#[test]
fn held_items_are_drawn_with_their_models() {
    let mut with_model = items();
    with_model.items[0].model = Some(text("tools/shovel.glb"));
    let catalog = catalog(ContentFiles { items: with_model, ..files() }).expect("valid");
    assert!(catalog
        .models_used()
        .contains(&(text("tools/shovel.glb"), ContentFile::Items)));
    let shovel = catalog.item(catalog.id("shovel").unwrap());
    assert_eq!(shovel.model.as_deref(), Some("tools/shovel.glb"));
}

fn parsed(files: ContentFiles) -> ParsedFiles<String> {
    ParsedFiles {
        items: Ok(files.items),
        crops: Ok(files.crops),
        shops: Ok(files.shops),
        scenery: Ok(files.scenery),
        palette: Ok(files.palette),
        structures: Ok(files.structures),
        characters: Ok(files.characters),
        village: Ok(files.village),
    }
}

#[test]
fn the_first_file_that_fails_is_named() {
    let mut unread_crops = parsed(files());
    unread_crops.crops = Err(text("1:3: Expected struct"));
    match Catalog::from_parsed(unread_crops) {
        Err(LoadFailure::Unparsed { file, error }) => {
            assert_eq!(file, ContentFile::Crops);
            assert_eq!(error, "1:3: Expected struct");
        }
        other => panic!("unexpected {other:?}"),
    }

    let mut broken_items = items();
    broken_items.items[0].stack = 0;
    let mut both = parsed(ContentFiles { items: broken_items, ..files() });
    both.crops = Err(text("1:3: Expected struct"));
    match Catalog::from_parsed(both) {
        Err(LoadFailure::Invalid(error)) => {
            assert_eq!(error.message(), "items.ron: item `shovel` has a stack size of 0");
        }
        other => panic!("unexpected {other:?}"),
    }

    let mut unread_village = parsed(files());
    unread_village.village = Err(text("oops"));
    assert!(matches!(
        Catalog::from_parsed(unread_village),
        Err(LoadFailure::Unparsed { file: ContentFile::Village, .. })
    ));
    assert!(Catalog::from_parsed(parsed(files())).is_ok());
}

#[test]
fn errors_name_their_files() {
    assert_eq!(ContentFile::Items.name(), "items.ron");
    assert_eq!(ContentFile::Village.name(), "village.ron");
    let error = catalog(ContentFiles { crops: CropsFile { crops: vec![] }, ..files() }).unwrap_err();
    assert_eq!(error.file, ContentFile::Crops);
    assert_eq!(error.problem.message(), "seed `turnip_seeds` does not grow any crop");
}

#[test]
fn quality_raises_the_price() {
    let catalog = valid();
    let market = catalog.market();
    assert_eq!(f(market.quality_bonus(messoria::Quality::Normal)), 1.0);
    assert_eq!(f(market.quality_bonus(messoria::Quality::Silver)), 1.25);
    assert_eq!(f(market.quality_bonus(messoria::Quality::Gold)), 1.5);
}

#[test]
fn a_crop_that_takes_too_long_to_ripen_stops_loading() {
    let mut long = crops();
    long.crops[0].stages = vec![255; 300];
    long.crops[0].regrows_after = Some(1);
    match Catalog::from_parsed(parsed(ContentFiles { crops: long, ..files() })) {
        Err(LoadFailure::TooLong { crop }) => assert_eq!(crop, "turnip"),
        other => panic!("unexpected {other:?}"),
    }

    let mut just_fits = crops();
    just_fits.crops[0].stages = vec![255; 257];
    just_fits.crops[0].regrows_after = Some(1);
    let error = catalog(ContentFiles { crops: just_fits, ..files() }).unwrap_err();
    assert_eq!(
        error.message(),
        "crops.ron: crop `turnip` is invalid: it needs a model for each stage, and one for when it is ripe"
    );
}

#[test]
fn only_a_crop_that_is_reached_can_take_too_long() {
    let mut long = turnip();
    long.id = text("swede");
    long.stages = vec![255; 300];
    long.regrows_after = Some(1);
    let mut seasonless = turnip();
    seasonless.seasons = vec![];
    let after_a_problem = CropsFile { crops: vec![seasonless, long] };
    match Catalog::from_parsed(parsed(ContentFiles { crops: after_a_problem, ..files() })) {
        Err(LoadFailure::Invalid(error)) => {
            assert_eq!(error.message(), "crops.ron: crop `turnip` is invalid: it grows in no season");
        }
        other => panic!("unexpected {other:?}"),
    }

    let mut broken_items = items();
    broken_items.items[0].stack = 0;
    let mut long_crops = crops();
    long_crops.crops[0].stages = vec![255; 300];
    long_crops.crops[0].regrows_after = Some(1);
    match Catalog::from_parsed(parsed(ContentFiles { items: broken_items, crops: long_crops, ..files() })) {
        Err(LoadFailure::Invalid(error)) => {
            assert_eq!(error.message(), "items.ron: item `shovel` has a stack size of 0");
        }
        other => panic!("unexpected {other:?}"),
    }
}
