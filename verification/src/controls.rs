//! How a player acts on the world: what holding an item lets them do, and
//! where their view is from.

use vstd::prelude::*;

use crate::content::item::{ItemKind, Tool};

verus! {

/// How the held item acts on the world, which decides how aiming looks and
/// whether holding the button repeats the use.
#[derive(Clone, Copy, Debug, PartialEq, Eq, Structural)]
pub enum Handling {
    /// Digs or raises ground around the aimed point, repeatedly.
    Shovel,
    /// Works the aimed field square, repeatedly.
    FieldTool,
    /// Goes into the aimed field square, once per click.
    FieldSupply,
    /// Used on oneself, once per click.
    Consumable,
    /// Strikes the aimed tree or rock, repeatedly.
    Gatherer,
    /// Builds a structure on the aimed ground, once per click.
    Builder,
}

/// How an item of kind `kind` acts on the world when held, if it does.
pub open spec fn handling_of(kind: ItemKind) -> Option<Handling> {
    match kind {
        ItemKind::Tool(Tool::Shovel) => Some(Handling::Shovel),
        ItemKind::Tool(Tool::Hoe) | ItemKind::Tool(Tool::WateringCan) => Some(Handling::FieldTool),
        ItemKind::Tool(Tool::Axe) | ItemKind::Tool(Tool::Pickaxe) => Some(Handling::Gatherer),
        ItemKind::Seed | ItemKind::Fertilizer => Some(Handling::FieldSupply),
        ItemKind::Structure => Some(Handling::Builder),
        ItemKind::Food { .. } => Some(Handling::Consumable),
        ItemKind::Terrain { .. } | ItemKind::Goods => None,
    }
}

/// How an item of kind `kind` acts on the world when held: ground carried
/// and goods do nothing in the hand.
pub fn handling(kind: &ItemKind) -> (handling: Option<Handling>)
    ensures
        handling == handling_of(*kind),
{
    match kind {
        ItemKind::Tool(Tool::Shovel) => Some(Handling::Shovel),
        ItemKind::Tool(Tool::Hoe) | ItemKind::Tool(Tool::WateringCan) => Some(Handling::FieldTool),
        ItemKind::Tool(Tool::Axe) | ItemKind::Tool(Tool::Pickaxe) => Some(Handling::Gatherer),
        ItemKind::Seed | ItemKind::Fertilizer => Some(Handling::FieldSupply),
        ItemKind::Structure => Some(Handling::Builder),
        ItemKind::Food { .. } => Some(Handling::Consumable),
        ItemKind::Terrain { .. } | ItemKind::Goods => None,
    }
}

/// Tools that gather scenery are exactly those held as gatherers.
pub proof fn gathering_tools_are_gatherers(tool: Tool)
    ensures
        (handling_of(ItemKind::Tool(tool)) == Some(Handling::Gatherer)) == (tool == Tool::Axe || tool
            == Tool::Pickaxe),
{
}

/// Where the view is from: the character's eyes, or behind or ahead of the
/// character, looking at it.
#[derive(Clone, Copy, Debug, PartialEq, Eq, Structural)]
pub enum Perspective {
    FirstPerson,
    Behind,
    Front,
}

impl Default for Perspective {
    fn default() -> (perspective: Self)
        ensures
            perspective == Perspective::FirstPerson,
    {
        Perspective::FirstPerson
    }
}

/// The perspective after `perspective`, as the key cycles through them.
pub open spec fn following(perspective: Perspective) -> Perspective {
    match perspective {
        Perspective::FirstPerson => Perspective::Behind,
        Perspective::Behind => Perspective::Front,
        Perspective::Front => Perspective::FirstPerson,
    }
}

impl Perspective {
    /// The next one, as the key cycles through them.
    pub fn next(self) -> (next: Self)
        ensures
            next == following(self),
    {
        match self {
            Perspective::FirstPerson => Perspective::Behind,
            Perspective::Behind => Perspective::Front,
            Perspective::Front => Perspective::FirstPerson,
        }
    }
}

/// Pressing the key three times comes back to the same view, and every view
/// is reached from every other.
pub proof fn perspectives_cycle(perspective: Perspective)
    ensures
        following(following(following(perspective))) == perspective,
        following(perspective) != perspective,
        following(following(perspective)) != perspective,
{
}

} // verus!
