//! The rules of a cooperative farming world: its calendar, clock and
//! weather, and the content that describes what exists in it.

pub mod calendar;
pub mod content;
pub mod controls;
pub mod noise;
pub mod text;

pub use calendar::{
    ClockTime, DAYS_PER_YEAR, Date, MINUTES_PER_DAY, ParseClockTimeError, Season, SleepRule,
    Weather, Weekday, WorldTime,
};

pub use content::catalog::{Catalog, CatalogView, ContentFiles, LoadFailure, ParsedFiles, Sources};
pub use content::crop::{CropDef, CropId};
pub use content::error::{ContentError, Problem};
pub use content::item::{ItemDef, ItemId, ItemKind, Quality, Tool};
pub use content::material::Material;
pub use content::number::{Number, Rgb};
pub use content::palette::Palette;
pub use content::people::{Animations, Characters, Cube, Expressions, Grip, Limb, Limbs, Look, Wardrobe};
pub use content::scenery::{CoverDef, Gathering, PropDef, PropId, Remains};
pub use content::shop::{Listing, MarketRules, Offer, ShopDef, ShopId};
pub use content::structure::{Part, Placement, Purpose, Solid, StructureDef, StructureId};
pub use content::village::{Stall, Village};
