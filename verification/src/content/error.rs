//! Why content failed to load.

use vstd::prelude::*;

use crate::calendar::date::Season;
use crate::content::material::Material;
use crate::content::paths::ModelFault;

verus! {

/// Where an unknown item was referred to from.
#[derive(Debug, PartialEq, Eq)]
pub enum Context {
    Item(String),
    StartingInventory,
    Crop(String),
    Shop(String),
    Prop(String),
    Structure(String),
}

/// Why a crop is invalid.
#[derive(Clone, Copy, Debug, PartialEq, Eq, Structural)]
pub enum CropFault {
    NoSeason,
    NoStage,
    NoHarvest,
    Regrowth,
    ModelCount,
    ModelFiles,
}

/// Why the market rules are invalid.
#[derive(Clone, Copy, Debug, PartialEq, Eq, Structural)]
pub enum MarketFault {
    Markup,
    Halving,
    Recovery,
    Bonuses,
}

/// Why a look is invalid.
#[derive(Debug, PartialEq, Eq)]
pub enum LookFault {
    /// This layer is not a `.png` file inside the skins folder.
    Skin(String),
    HairColor,
}

/// Why a shop is invalid.
#[derive(Debug, PartialEq, Eq)]
pub enum ShopFault {
    /// This opening or closing time is not a clock time.
    NotATime(String),
    Hours,
    DailyLimit,
    Stall,
    Keeper(LookFault),
    Price,
    NoSeason,
    Twice,
}

/// Why gathering a prop is invalid.
#[derive(Clone, Copy, Debug, PartialEq, Eq, Structural)]
pub enum GatherFault {
    Yield,
    Tool,
    Strikes,
    RegrowsFromNothing,
    RegrowsAtOnce,
    NotBlocking,
    RemainsModel,
    RemainsScale,
}

/// Why a prop is invalid.
#[derive(Debug, PartialEq, Eq)]
pub enum PropFault {
    Models(ModelFault),
    Scale,
    Radius,
    Spacing,
    Density,
    Clustering,
    Slope,
    NoGround,
    FruitColor,
    Gathering(GatherFault),
}

/// Why a ground cover is invalid.
#[derive(Debug, PartialEq, Eq)]
pub enum CoverFault {
    Models(ModelFault),
    Scale,
    Density,
}

/// Why a structure is invalid.
#[derive(Debug, PartialEq, Eq)]
pub enum StructureFault {
    Size,
    Models(ModelFault),
    PartScale,
    Solids,
    Nested,
    HomeUnbuildable,
    HomeWithoutBed,
    NotAStructureItem,
    SharedItem,
    /// It contains this structure, which is not defined.
    UnknownContained(String),
}

/// Why the characters are invalid.
#[derive(Debug, PartialEq, Eq)]
pub enum CharactersFault {
    Scales,
    EmptyWardrobe,
    /// This skin of the wardrobe is not a `.png` file inside the skins folder.
    Skin(String),
    HairColor,
}

/// Why the village is invalid.
#[derive(Debug, PartialEq, Eq)]
pub enum VillageFault {
    UnknownShop(String),
    UnknownStructure(String),
    /// This shop does not have exactly one stall.
    StallCount(String),
}

/// What is wrong with a content file.
#[allow(inconsistent_fields)]
#[derive(Debug, PartialEq, Eq)]
pub enum Problem {
    DuplicateItem(String),
    UnknownItem { context: Context, item: String },
    EmptyStack(String),
    StackedTool(String),
    SpoilsIntoNothing(String),
    SpoilsIntoItself(String),
    UndiggableMaterial(Material),
    AmbiguousMaterial { material: Material, first: String, second: String },
    EmptyStartingStack(String),
    DuplicateCrop(String),
    NotASeed { crop: String, item: String },
    SharedSeed { seed: String, first: String, second: String },
    UnplantedSeed(String),
    InvalidCrop { crop: String, fault: CropFault },
    InvalidMarket(MarketFault),
    DuplicateShop(String),
    InvalidShop { shop: String, fault: ShopFault },
    DuplicateProp(String),
    InvalidProp { prop: String, fault: PropFault },
    InvalidCover { index: usize, fault: CoverFault },
    InvalidColor(String),
    UncoloredGround(Material),
    UnknownColor { season: Season, name: String },
    DuplicateStructure(String),
    InvalidStructure { structure: String, fault: StructureFault },
    SecondHome,
    UnbuiltStructureItem(String),
    InvalidCharacters(CharactersFault),
    InvalidVillage(VillageFault),
}

/// A content file within the data folder.
#[derive(Clone, Copy, Debug, PartialEq, Eq, Structural)]
pub enum ContentFile {
    Items,
    Crops,
    Shops,
    Scenery,
    Palette,
    Structures,
    Characters,
    Village,
}

/// A content file that could not be loaded, and why.
#[derive(Debug, PartialEq, Eq)]
pub struct ContentError {
    pub file: ContentFile,
    pub problem: Problem,
}

} // verus!
