//! What content errors say.

use vstd::prelude::*;

use crate::calendar::date::season_name;
use crate::content::error::{
    CharactersFault, ContentError, ContentFile, Context, CoverFault, CropFault, GatherFault,
    LookFault, MarketFault, Problem, PropFault, ShopFault, StructureFault, VillageFault,
};
use crate::content::material::{ground_name, material_name};
use crate::content::paths::ModelFault;
use crate::text::{decimal, push_decimal};

verus! {

/// `word` between backticks, as messages quote names.
pub open spec fn quoted(word: Seq<char>) -> Seq<char> {
    "`"@ + word + "`"@
}

/// What an unknown item was referred to from, as a message names it.
pub open spec fn context_text(context: Context) -> Seq<char> {
    match context {
        Context::Item(key) => "item "@ + quoted(key@),
        Context::StartingInventory => "the starting inventory"@,
        Context::Crop(key) => "crop "@ + quoted(key@),
        Context::Shop(key) => "shop "@ + quoted(key@),
        Context::Prop(key) => "prop "@ + quoted(key@),
        Context::Structure(key) => "structure "@ + quoted(key@),
    }
}

/// What is wrong with a list of models, as a message says it.
pub open spec fn model_fault_text(fault: ModelFault) -> Seq<char> {
    match fault {
        ModelFault::NoModel => "it lists no model"@,
        ModelFault::Outside(model) => quoted(model@) + " is not a .glb file inside the models folder"@,
    }
}

/// Why a crop is invalid, as a message says it.
pub open spec fn crop_fault_text(fault: CropFault) -> Seq<char> {
    match fault {
        CropFault::NoSeason => "it grows in no season"@,
        CropFault::NoStage => "every crop needs at least one stage, and every stage at least one day"@,
        CropFault::NoHarvest => "a harvest must yield something"@,
        CropFault::Regrowth => "it must take between one day and its full growth to regrow"@,
        CropFault::ModelCount => "it needs a model for each stage, and one for when it is ripe"@,
        CropFault::ModelFiles => "its models must be .glb files inside the models folder"@,
    }
}

/// Why the market rules are invalid, as a message says it.
pub open spec fn market_fault_text(fault: MarketFault) -> Seq<char> {
    match fault {
        MarketFault::Markup => "the off-season markup must be at least 1"@,
        MarketFault::Halving => "prices must take a positive number of sales to halve"@,
        MarketFault::Recovery => "the daily recovery must be between 0 and 1"@,
        MarketFault::Bonuses => "quality bonuses must be at least 1 and grow with quality"@,
    }
}

/// Why a look is invalid, as a message says it.
pub open spec fn look_fault_text(fault: LookFault) -> Seq<char> {
    match fault {
        LookFault::Skin(skin) => quoted(skin@) + " is not a .png file inside the skins folder"@,
        LookFault::HairColor => "its hair color has a channel outside 0 to 1"@,
    }
}

/// Why a shop is invalid, as a message says it.
pub open spec fn shop_fault_text(fault: ShopFault) -> Seq<char> {
    match fault {
        ShopFault::NotATime(text) => quoted(text@) + " is not a time such as 09:30"@,
        ShopFault::Hours => "it must open after 06:00 and close later the same day"@,
        ShopFault::DailyLimit => "its daily limit must allow selling something"@,
        ShopFault::Stall => "its stall must be a .glb file inside the models folder"@,
        ShopFault::Keeper(look) => "its keeper's look is invalid: "@ + look_fault_text(look),
        ShopFault::Price => "every price must be above 0"@,
        ShopFault::NoSeason => "an item on sale in no season should not be listed"@,
        ShopFault::Twice => "it lists an item twice"@,
    }
}

/// Why gathering a prop is invalid, as a message says it.
pub open spec fn gather_fault_text(fault: GatherFault) -> Seq<char> {
    match fault {
        GatherFault::Yield => "gathering it must yield at least one of each item it lists"@,
        GatherFault::Tool => "only the axe and the pickaxe gather scenery"@,
        GatherFault::Strikes => "it takes one strike by hand, and at least one with a tool"@,
        GatherFault::RegrowsFromNothing => "only what leaves something standing can grow back"@,
        GatherFault::RegrowsAtOnce => "it cannot grow back in 0 days"@,
        GatherFault::NotBlocking => "it can be gathered, so it must block"@,
        GatherFault::RemainsModel => "what remains of it must be a .glb file inside the models folder"@,
        GatherFault::RemainsScale => "what remains of it must be drawn at a scale above 0"@,
    }
}

/// Why a prop is invalid, as a message says it.
pub open spec fn prop_fault_text(fault: PropFault) -> Seq<char> {
    match fault {
        PropFault::Models(models) => model_fault_text(models),
        PropFault::Scale => "its scale must be a positive range, smallest first"@,
        PropFault::Radius => "its radius cannot be negative"@,
        PropFault::Spacing => "its spacing must be above 0"@,
        PropFault::Density => "its density must be above 0 and at most 1"@,
        PropFault::Clustering => "its clustering must be between 0 and 1"@,
        PropFault::Slope => "its steepest slope cannot be negative"@,
        PropFault::NoGround => "it grows on no ground"@,
        PropFault::FruitColor => "its fruit has a color channel outside 0 to 1"@,
        PropFault::Gathering(gather) => gather_fault_text(gather),
    }
}

/// Why a ground cover is invalid, as a message says it.
pub open spec fn cover_fault_text(fault: CoverFault) -> Seq<char> {
    match fault {
        CoverFault::Models(models) => model_fault_text(models),
        CoverFault::Scale => "its scale must be a positive range, smallest first"@,
        CoverFault::Density => "it must grow somewhere: plants per square meter must be above 0"@,
    }
}

/// Why a structure is invalid, as a message says it.
pub open spec fn structure_fault_text(fault: StructureFault) -> Seq<char> {
    match fault {
        StructureFault::Size => "its size must be above 0 both ways"@,
        StructureFault::Models(models) => model_fault_text(models),
        StructureFault::PartScale => "its parts must be drawn at a scale above 0"@,
        StructureFault::Solids => "its solids must have a size and height above 0"@,
        StructureFault::Nested => "what it contains cannot contain structures in turn"@,
        StructureFault::HomeUnbuildable => "it is every player's home, so players must be able to build it"@,
        StructureFault::HomeWithoutBed => "it is every player's home, so it must contain a bed"@,
        StructureFault::NotAStructureItem => "it is built from an item that is not a structure"@,
        StructureFault::SharedItem => "another structure is built from the same item"@,
        StructureFault::UnknownContained(name) => "it contains unknown structure "@ + quoted(name@),
    }
}

/// Why the characters are invalid, as a message says it.
pub open spec fn characters_fault_text(fault: CharactersFault) -> Seq<char> {
    match fault {
        CharactersFault::Scales => "scales must be above 0"@,
        CharactersFault::EmptyWardrobe => "its wardrobe must offer at least one of each"@,
        CharactersFault::Skin(skin) => quoted(skin@) + " is not a .png file inside the skins folder"@,
        CharactersFault::HairColor => "a hair color has a channel outside 0 to 1"@,
    }
}

/// Why the village is invalid, as a message says it.
pub open spec fn village_fault_text(fault: VillageFault) -> Seq<char> {
    match fault {
        VillageFault::UnknownShop(id) => "it places unknown shop "@ + quoted(id@),
        VillageFault::UnknownStructure(id) => "it places unknown structure "@ + quoted(id@),
        VillageFault::StallCount(key) => "shop "@ + quoted(key@) + " must have exactly one stall"@,
    }
}

/// What a problem says.
pub open spec fn problem_text(problem: Problem) -> Seq<char> {
    match problem {
        Problem::DuplicateItem(key) => "item "@ + quoted(key@) + " is defined more than once"@,
        Problem::UnknownItem { context, item } => context_text(context) + " refers to unknown item "@ + quoted(item@),
        Problem::EmptyStack(key) => "item "@ + quoted(key@) + " has a stack size of 0"@,
        Problem::StackedTool(key) => "item "@ + quoted(key@) + " is a tool, and tools do not stack"@,
        Problem::SpoilsIntoNothing(key) => "item "@ + quoted(key@) + " has a shelf life but does not say what it spoils into"@,
        Problem::SpoilsIntoItself(key) => "item "@ + quoted(key@) + " spoils into itself"@,
        Problem::UndiggableMaterial(material) => "no item is dug from "@ + material_name(material),
        Problem::AmbiguousMaterial { material, first, second } => material_name(material) + " is dug as both "@ + quoted(first@) + " and "@ + quoted(second@),
        Problem::EmptyStartingStack(key) => "the starting inventory lists "@ + quoted(key@) + " with a count of 0"@,
        Problem::DuplicateCrop(key) => "crop "@ + quoted(key@) + " is defined more than once"@,
        Problem::NotASeed { crop, item } => "crop "@ + quoted(crop@) + " grows from "@ + quoted(item@) + ", which is not a seed"@,
        Problem::SharedSeed { seed, first, second } => "seed "@ + quoted(seed@) + " grows both "@ + quoted(first@) + " and "@ + quoted(second@),
        Problem::UnplantedSeed(key) => "seed "@ + quoted(key@) + " does not grow any crop"@,
        Problem::InvalidCrop { crop, fault } => "crop "@ + quoted(crop@) + " is invalid: "@ + crop_fault_text(fault),
        Problem::InvalidMarket(fault) => "the market rules are invalid: "@ + market_fault_text(fault),
        Problem::DuplicateShop(key) => "shop "@ + quoted(key@) + " is defined more than once"@,
        Problem::InvalidShop { shop, fault } => "shop "@ + quoted(shop@) + " is invalid: "@ + shop_fault_text(fault),
        Problem::DuplicateProp(key) => "prop "@ + quoted(key@) + " is defined more than once"@,
        Problem::InvalidProp { prop, fault } => "prop "@ + quoted(prop@) + " is invalid: "@ + prop_fault_text(fault),
        Problem::InvalidCover { index, fault } => "ground cover "@ + decimal(index as nat) + " is invalid: "@ + cover_fault_text(fault),
        Problem::InvalidColor(name) => "color "@ + quoted(name@) + " has a channel outside 0 to 1"@,
        Problem::UncoloredGround(material) => "the palette has no color for "@ + quoted(ground_name(material)),
        Problem::UnknownColor { season, name } => season_name(season) + " changes color "@ + quoted(name@) + ", which the palette does not define"@,
        Problem::DuplicateStructure(key) => "structure "@ + quoted(key@) + " is defined more than once"@,
        Problem::InvalidStructure { structure, fault } => "structure "@ + quoted(structure@) + " is invalid: "@ + structure_fault_text(fault),
        Problem::SecondHome => "structure `home` is invalid: only one structure can be every player's home"@,
        Problem::UnbuiltStructureItem(key) => "item "@ + quoted(key@) + " is a structure, but no structure is built from it"@,
        Problem::InvalidCharacters(fault) => "the characters are invalid: "@ + characters_fault_text(fault),
        Problem::InvalidVillage(fault) => "the village is invalid: "@ + village_fault_text(fault),
    }
}

/// What a content error says: the file, then the problem.
pub open spec fn error_text(error: ContentError) -> Seq<char> {
    file_name(error.file) + ": "@ + problem_text(error.problem)
}

/// The name of a content file within the data folder.
pub open spec fn file_name(file: ContentFile) -> Seq<char> {
    match file {
        ContentFile::Items => "items.ron"@,
        ContentFile::Crops => "crops.ron"@,
        ContentFile::Shops => "shops.ron"@,
        ContentFile::Scenery => "scenery.ron"@,
        ContentFile::Palette => "palette.ron"@,
        ContentFile::Structures => "structures.ron"@,
        ContentFile::Characters => "characters.ron"@,
        ContentFile::Village => "village.ron"@,
    }
}

/// Appends `word` between backticks.
fn push_quoted(text: &mut String, word: &str)
    ensures
        final(text)@ == old(text)@ + quoted(word@),
{
    text.append("`");
    text.append(word);
    text.append("`");
    assert(final(text)@ =~= old(text)@ + quoted(word@));
}

/// Appends what `context` names.
fn push_context(text: &mut String, context: &Context)
    ensures
        final(text)@ == old(text)@ + context_text(*context),
{
    let ghost start = text@;
    match context {
        Context::Item(key) => {
            text.append("item ");
            push_quoted(text, key.as_str());
        },
        Context::StartingInventory => text.append("the starting inventory"),
        Context::Crop(key) => {
            text.append("crop ");
            push_quoted(text, key.as_str());
        },
        Context::Shop(key) => {
            text.append("shop ");
            push_quoted(text, key.as_str());
        },
        Context::Prop(key) => {
            text.append("prop ");
            push_quoted(text, key.as_str());
        },
        Context::Structure(key) => {
            text.append("structure ");
            push_quoted(text, key.as_str());
        },
    }
    assert(text@ =~= start + context_text(*context));
}

/// Appends what is wrong with a list of models.
fn push_model_fault(text: &mut String, fault: &ModelFault)
    ensures
        final(text)@ == old(text)@ + model_fault_text(*fault),
{
    let ghost start = text@;
    match fault {
        ModelFault::NoModel => text.append("it lists no model"),
        ModelFault::Outside(model) => {
            push_quoted(text, model.as_str());
            text.append(" is not a .glb file inside the models folder");
        },
    }
    assert(text@ =~= start + model_fault_text(*fault));
}

/// Why a crop is invalid, in words.
fn crop_fault_str(fault: CropFault) -> (words: &'static str)
    ensures
        words@ == crop_fault_text(fault),
{
    match fault {
        CropFault::NoSeason => "it grows in no season",
        CropFault::NoStage => "every crop needs at least one stage, and every stage at least one day",
        CropFault::NoHarvest => "a harvest must yield something",
        CropFault::Regrowth => "it must take between one day and its full growth to regrow",
        CropFault::ModelCount => "it needs a model for each stage, and one for when it is ripe",
        CropFault::ModelFiles => "its models must be .glb files inside the models folder",
    }
}

/// Why the market rules are invalid, in words.
fn market_fault_str(fault: MarketFault) -> (words: &'static str)
    ensures
        words@ == market_fault_text(fault),
{
    match fault {
        MarketFault::Markup => "the off-season markup must be at least 1",
        MarketFault::Halving => "prices must take a positive number of sales to halve",
        MarketFault::Recovery => "the daily recovery must be between 0 and 1",
        MarketFault::Bonuses => "quality bonuses must be at least 1 and grow with quality",
    }
}

/// Appends why a shop is invalid.
fn push_shop_fault(text: &mut String, fault: &ShopFault)
    ensures
        final(text)@ == old(text)@ + shop_fault_text(*fault),
{
    let ghost start = text@;
    match fault {
        ShopFault::NotATime(time) => {
            push_quoted(text, time.as_str());
            text.append(" is not a time such as 09:30");
        },
        ShopFault::Hours => text.append("it must open after 06:00 and close later the same day"),
        ShopFault::DailyLimit => text.append("its daily limit must allow selling something"),
        ShopFault::Stall => text.append("its stall must be a .glb file inside the models folder"),
        ShopFault::Keeper(look) => {
            text.append("its keeper's look is invalid: ");
            let ghost middle = text@;
            match look {
                LookFault::Skin(skin) => {
                    push_quoted(text, skin.as_str());
                    text.append(" is not a .png file inside the skins folder");
                },
                LookFault::HairColor => text.append("its hair color has a channel outside 0 to 1"),
            }
            assert(text@ =~= middle + look_fault_text(*look));
        },
        ShopFault::Price => text.append("every price must be above 0"),
        ShopFault::NoSeason => text.append("an item on sale in no season should not be listed"),
        ShopFault::Twice => text.append("it lists an item twice"),
    }
    assert(text@ =~= start + shop_fault_text(*fault));
}

/// Why gathering a prop is invalid, in words.
fn gather_fault_str(fault: GatherFault) -> (words: &'static str)
    ensures
        words@ == gather_fault_text(fault),
{
    match fault {
        GatherFault::Yield => "gathering it must yield at least one of each item it lists",
        GatherFault::Tool => "only the axe and the pickaxe gather scenery",
        GatherFault::Strikes => "it takes one strike by hand, and at least one with a tool",
        GatherFault::RegrowsFromNothing => "only what leaves something standing can grow back",
        GatherFault::RegrowsAtOnce => "it cannot grow back in 0 days",
        GatherFault::NotBlocking => "it can be gathered, so it must block",
        GatherFault::RemainsModel => "what remains of it must be a .glb file inside the models folder",
        GatherFault::RemainsScale => "what remains of it must be drawn at a scale above 0",
    }
}

/// Appends why a prop is invalid.
fn push_prop_fault(text: &mut String, fault: &PropFault)
    ensures
        final(text)@ == old(text)@ + prop_fault_text(*fault),
{
    match fault {
        PropFault::Models(models) => push_model_fault(text, models),
        PropFault::Scale => text.append("its scale must be a positive range, smallest first"),
        PropFault::Radius => text.append("its radius cannot be negative"),
        PropFault::Spacing => text.append("its spacing must be above 0"),
        PropFault::Density => text.append("its density must be above 0 and at most 1"),
        PropFault::Clustering => text.append("its clustering must be between 0 and 1"),
        PropFault::Slope => text.append("its steepest slope cannot be negative"),
        PropFault::NoGround => text.append("it grows on no ground"),
        PropFault::FruitColor => text.append("its fruit has a color channel outside 0 to 1"),
        PropFault::Gathering(gather) => text.append(gather_fault_str(*gather)),
    }
}

/// Appends why a ground cover is invalid.
fn push_cover_fault(text: &mut String, fault: &CoverFault)
    ensures
        final(text)@ == old(text)@ + cover_fault_text(*fault),
{
    match fault {
        CoverFault::Models(models) => push_model_fault(text, models),
        CoverFault::Scale => text.append("its scale must be a positive range, smallest first"),
        CoverFault::Density => text.append("it must grow somewhere: plants per square meter must be above 0"),
    }
}

/// Appends why a structure is invalid.
fn push_structure_fault(text: &mut String, fault: &StructureFault)
    ensures
        final(text)@ == old(text)@ + structure_fault_text(*fault),
{
    let ghost start = text@;
    match fault {
        StructureFault::Size => text.append("its size must be above 0 both ways"),
        StructureFault::Models(models) => push_model_fault(text, models),
        StructureFault::PartScale => text.append("its parts must be drawn at a scale above 0"),
        StructureFault::Solids => text.append("its solids must have a size and height above 0"),
        StructureFault::Nested => text.append("what it contains cannot contain structures in turn"),
        StructureFault::HomeUnbuildable => text.append("it is every player's home, so players must be able to build it"),
        StructureFault::HomeWithoutBed => text.append("it is every player's home, so it must contain a bed"),
        StructureFault::NotAStructureItem => text.append("it is built from an item that is not a structure"),
        StructureFault::SharedItem => text.append("another structure is built from the same item"),
        StructureFault::UnknownContained(name) => {
            text.append("it contains unknown structure ");
            push_quoted(text, name.as_str());
        },
    }
    assert(text@ =~= start + structure_fault_text(*fault));
}

/// Appends why the characters are invalid.
fn push_characters_fault(text: &mut String, fault: &CharactersFault)
    ensures
        final(text)@ == old(text)@ + characters_fault_text(*fault),
{
    let ghost start = text@;
    match fault {
        CharactersFault::Scales => text.append("scales must be above 0"),
        CharactersFault::EmptyWardrobe => text.append("its wardrobe must offer at least one of each"),
        CharactersFault::Skin(skin) => {
            push_quoted(text, skin.as_str());
            text.append(" is not a .png file inside the skins folder");
        },
        CharactersFault::HairColor => text.append("a hair color has a channel outside 0 to 1"),
    }
    assert(text@ =~= start + characters_fault_text(*fault));
}

/// Appends why the village is invalid.
fn push_village_fault(text: &mut String, fault: &VillageFault)
    ensures
        final(text)@ == old(text)@ + village_fault_text(*fault),
{
    let ghost start = text@;
    match fault {
        VillageFault::UnknownShop(id) => {
            text.append("it places unknown shop ");
            push_quoted(text, id.as_str());
        },
        VillageFault::UnknownStructure(id) => {
            text.append("it places unknown structure ");
            push_quoted(text, id.as_str());
        },
        VillageFault::StallCount(key) => {
            text.append("shop ");
            push_quoted(text, key.as_str());
            text.append(" must have exactly one stall");
        },
    }
    assert(text@ =~= start + village_fault_text(*fault));
}

/// Appends `before`, the quoted `key`, then `after`.
fn push_about(text: &mut String, before: &str, key: &String, after: &str)
    ensures
        final(text)@ == old(text)@ + before@ + quoted(key@) + after@,
{
    let ghost start = text@;
    text.append(before);
    push_quoted(text, key.as_str());
    text.append(after);
    assert(text@ =~= start + before@ + quoted(key@) + after@);
}

/// Appends what `problem` says to `text`.
pub fn push_problem(text: &mut String, problem: &Problem)
    ensures
        final(text)@ == old(text)@ + problem_text(*problem),
{
    let ghost start = text@;
    match problem {
        Problem::DuplicateItem(key) => push_about(text, "item ", key, " is defined more than once"),
        Problem::UnknownItem { context, item } => {
            push_context(text, context);
            push_about(text, " refers to unknown item ", item, "");
            proof { reveal_strlit(""); }
        },
        Problem::EmptyStack(key) => push_about(text, "item ", key, " has a stack size of 0"),
        Problem::StackedTool(key) => push_about(text, "item ", key, " is a tool, and tools do not stack"),
        Problem::SpoilsIntoNothing(key) => push_about(text, "item ", key, " has a shelf life but does not say what it spoils into"),
        Problem::SpoilsIntoItself(key) => push_about(text, "item ", key, " spoils into itself"),
        Problem::UndiggableMaterial(material) => {
            text.append("no item is dug from ");
            text.append(material.name());
        },
        Problem::AmbiguousMaterial { material, first, second } => {
            text.append(material.name());
            push_about(text, " is dug as both ", first, " and ");
            push_quoted(text, second.as_str());
        },
        Problem::EmptyStartingStack(key) => push_about(text, "the starting inventory lists ", key, " with a count of 0"),
        Problem::DuplicateCrop(key) => push_about(text, "crop ", key, " is defined more than once"),
        Problem::NotASeed { crop, item } => {
            push_about(text, "crop ", crop, " grows from ");
            push_quoted(text, item.as_str());
            text.append(", which is not a seed");
        },
        Problem::SharedSeed { seed, first, second } => {
            push_about(text, "seed ", seed, " grows both ");
            push_about(text, "", first, " and ");
            push_quoted(text, second.as_str());
            proof { reveal_strlit(""); }
        },
        Problem::UnplantedSeed(key) => push_about(text, "seed ", key, " does not grow any crop"),
        Problem::InvalidCrop { crop, fault } => {
            push_about(text, "crop ", crop, " is invalid: ");
            text.append(crop_fault_str(*fault));
        },
        Problem::InvalidMarket(fault) => {
            text.append("the market rules are invalid: ");
            text.append(market_fault_str(*fault));
        },
        Problem::DuplicateShop(key) => push_about(text, "shop ", key, " is defined more than once"),
        Problem::InvalidShop { shop, fault } => {
            push_about(text, "shop ", shop, " is invalid: ");
            push_shop_fault(text, fault);
        },
        Problem::DuplicateProp(key) => push_about(text, "prop ", key, " is defined more than once"),
        Problem::InvalidProp { prop, fault } => {
            push_about(text, "prop ", prop, " is invalid: ");
            push_prop_fault(text, fault);
        },
        Problem::InvalidCover { index, fault } => {
            text.append("ground cover ");
            push_decimal_usize(text, *index);
            text.append(" is invalid: ");
            push_cover_fault(text, fault);
        },
        Problem::InvalidColor(name) => push_about(text, "color ", name, " has a channel outside 0 to 1"),
        Problem::UncoloredGround(material) => {
            text.append("the palette has no color for ");
            push_quoted(text, material.ground_name());
        },
        Problem::UnknownColor { season, name } => {
            text.append(season.name());
            push_about(text, " changes color ", name, ", which the palette does not define");
        },
        Problem::DuplicateStructure(key) => push_about(text, "structure ", key, " is defined more than once"),
        Problem::InvalidStructure { structure, fault } => {
            push_about(text, "structure ", structure, " is invalid: ");
            push_structure_fault(text, fault);
        },
        Problem::SecondHome => text.append("structure `home` is invalid: only one structure can be every player's home"),
        Problem::UnbuiltStructureItem(key) => push_about(text, "item ", key, " is a structure, but no structure is built from it"),
        Problem::InvalidCharacters(fault) => {
            text.append("the characters are invalid: ");
            push_characters_fault(text, fault);
        },
        Problem::InvalidVillage(fault) => {
            text.append("the village is invalid: ");
            push_village_fault(text, fault);
        },
    }
    assert(text@ =~= start + problem_text(*problem));
}

/// Appends the decimal digits of `n` to `text`.
fn push_decimal_usize(text: &mut String, n: usize)
    ensures
        final(text)@ == old(text)@ + decimal(n as nat),
    decreases n,
{
    if n >= 10 {
        push_decimal_usize(text, n / 10);
    }
    push_decimal(text, (n % 10) as u32);
    proof {
        reveal_with_fuel(decimal, 2);
        if n >= 10 {
            assert(decimal(n as nat) == decimal((n / 10) as nat).push(crate::text::digit_char((n % 10) as nat)));
            assert(decimal((n % 10) as nat) == seq![crate::text::digit_char((n % 10) as nat)]);
            assert(old(text)@ + decimal((n / 10) as nat) + decimal((n % 10) as nat) =~= old(text)@ + decimal(n as nat));
        }
    }
}

/// The name of `file` within the data folder.
fn file_str(file: ContentFile) -> (name: &'static str)
    ensures
        name@ == file_name(file),
{
    match file {
        ContentFile::Items => "items.ron",
        ContentFile::Crops => "crops.ron",
        ContentFile::Shops => "shops.ron",
        ContentFile::Scenery => "scenery.ron",
        ContentFile::Palette => "palette.ron",
        ContentFile::Structures => "structures.ron",
        ContentFile::Characters => "characters.ron",
        ContentFile::Village => "village.ron",
    }
}

impl Problem {
    /// What the problem says.
    pub fn message(&self) -> (message: String)
        ensures
            message@ == problem_text(*self),
    {
        let mut text = String::new();
        push_problem(&mut text, self);
        assert(text@ =~= problem_text(*self));
        text
    }
}

impl ContentFile {
    /// The file's name within the data folder.
    pub fn name(self) -> (name: &'static str)
        ensures
            name@ == file_name(self),
    {
        file_str(self)
    }
}

impl ContentError {
    /// What the error says: the file, then the problem, such as
    /// `items.ron: item `soil` is defined more than once`.
    pub fn message(&self) -> (message: String)
        ensures
            message@ == error_text(*self),
    {
        let mut text = String::from_str(file_str(self.file));
        text.append(": ");
        push_problem(&mut text, &self.problem);
        assert(text@ =~= error_text(*self));
        text
    }
}

} // verus!
