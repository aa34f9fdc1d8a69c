//! Scenery definitions and the scenery file: the props scattered across the
//! valley, and the ground cover growing on grass.

use vstd::prelude::*;

use crate::calendar::date::Season;
use crate::content::error::{Context, CoverFault, GatherFault, Problem, PropFault};
use crate::content::item::{ItemId, Items, MAX_DEFINITIONS, Tool, item_id_of};
use crate::content::lookup::{
    first_index, first_index_facts, first_where, first_where_finds_the_first, first_where_prefix,
    first_where_step, position, position_of, texts,
};
use crate::content::material::Material;
use crate::content::number::{
    Number, Rgb, at_least, between, channels_in_range, is_color, one, positive, zero,
};
use crate::content::paths::{ModelFault, check_models, models_fault};

verus! {

/// Refers to a prop definition within a catalog, like [`ItemId`] does for
/// items.
#[derive(Clone, Copy, Debug, PartialEq, Eq, Hash, PartialOrd, Ord, Structural)]
pub struct PropId(pub u16);

/// What stands where a prop was gathered.
#[derive(Debug, PartialEq, Eq)]
pub enum Remains {
    /// Nothing: the ground is free.
    Nothing,
    /// The prop itself, without its fruit.
    Itself,
    /// Another model, such as a tree's stump, drawn at `scale` times the
    /// prop's.
    Model { model: String, scale: Number },
}

/// How a prop is gathered, and what it gives.
#[derive(Debug, PartialEq, Eq)]
pub struct Gathering {
    /// The tool it is gathered with; by hand if none.
    pub tool: Option<Tool>,
    /// Uses of the tool it takes to gather.
    pub strikes: u8,
    /// Items it gives when gathered.
    pub yields: Vec<(ItemId, u16)>,
    /// What stands where it was gathered.
    pub remains: Remains,
    /// Days after being gathered that it stands as before, if it grows back.
    pub regrows_after: Option<u16>,
    /// Color of the fruit drawn on it while it can be gathered.
    pub fruit: Option<Rgb>,
}

/// A kind of object standing in the valley, such as a tree or a rock.
#[derive(Debug, PartialEq, Eq)]
pub struct PropDef {
    /// The id used in data files, such as `"oak"`.
    pub key: String,
    pub name: String,
    /// Models, relative to the models folder; each prop uses one of them.
    pub models: Vec<String>,
    /// Smallest and largest scale the models are drawn at.
    pub scale: (Number, Number),
    /// Radius of the ground the prop stands on, in meters at scale 1.
    pub radius: Number,
    /// Size of the grid cells props are scattered in, in meters.
    pub spacing: Number,
    /// Share of cells that have one, where it grows best.
    pub density: Number,
    /// How much props gather into groves, from 0 to 1.
    pub clustering: Number,
    /// Steepest ground it grows on, as rise over run.
    pub max_slope: Number,
    /// Ground it grows on.
    pub grows_on: Vec<Material>,
    /// Whether characters walk into it rather than through it.
    pub blocks: bool,
    /// What players get from it, if anything.
    pub gather: Option<Gathering>,
}

/// How a prop is gathered, as written in the scenery file.
#[derive(Debug, PartialEq, Eq)]
pub struct GatherEntry {
    pub tool: Option<Tool>,
    /// 1 when left out.
    pub strikes: u8,
    pub yields: Vec<(String, u16)>,
    pub remains: Remains,
    pub regrows_after: Option<u16>,
    pub fruit: Option<Rgb>,
}

/// A prop as written in the scenery file.
#[derive(Debug, PartialEq, Eq)]
pub struct PropEntry {
    pub id: String,
    pub name: String,
    pub models: Vec<String>,
    pub scale: (Number, Number),
    pub radius: Number,
    pub spacing: Number,
    pub density: Number,
    /// 0 when left out.
    pub clustering: Number,
    pub max_slope: Number,
    pub grows_on: Vec<Material>,
    /// True when left out.
    pub blocks: bool,
    pub gather: Option<GatherEntry>,
}

/// Small plants covering grassy ground, drawn by clients only.
#[derive(Debug, PartialEq, Eq)]
pub struct CoverDef {
    /// Models, relative to the models folder; each plant uses one of them.
    pub models: Vec<String>,
    /// Plants per square meter of grass.
    pub per_square_meter: Number,
    /// Smallest and largest scale the models are drawn at.
    pub scale: (Number, Number),
    /// Seasons it shows in; all year if empty.
    pub seasons: Vec<Season>,
}

/// The scenery file as written.
#[derive(Debug, PartialEq, Eq)]
pub struct SceneryFile {
    pub props: Vec<PropEntry>,
    pub cover: Vec<CoverDef>,
}

/// Scenery, checked.
#[derive(Debug, PartialEq, Eq)]
pub struct Scenery {
    pub props: Vec<PropDef>,
    /// The key of each prop, in the same order.
    pub keys: Vec<String>,
    pub cover: Vec<CoverDef>,
}

/// Whether `cover` shows in `season`.
pub open spec fn shows(cover: CoverDef, season: Season) -> bool {
    cover.seasons@.len() == 0 || cover.seasons@.contains(season)
}

/// Ground cover that lists no seasons shows all year; one that lists some
/// shows in a season exactly when the season is one of them.
pub proof fn cover_shows_in_its_seasons(cover: CoverDef, season: Season)
    ensures
        cover.seasons@.len() == 0 ==> shows(cover, season),
        cover.seasons@.len() > 0 ==> (shows(cover, season) <==> exists|i: int|
            0 <= i < cover.seasons@.len() && cover.seasons@[i] == season),
        forall|i: int| 0 <= i < cover.seasons@.len() && #[trigger] cover.seasons@[i] == season ==> shows(
            cover,
            season,
        ),
{
    assert forall|i: int| 0 <= i < cover.seasons@.len() && #[trigger] cover.seasons@[i] == season implies shows(
        cover,
        season,
    ) by {
        assert(cover.seasons@.contains(season));
    }
}

/// Whether a prop still stands, and keeps its ground, once gathered.
pub open spec fn stands(prop: PropDef) -> bool {
    match prop.gather {
        None => true,
        Some(gather) => !(gather.remains is Nothing),
    }
}

/// Every model `prop` may be drawn with: its own, then what remains of it.
pub open spec fn models_of(prop: PropDef) -> Seq<String> {
    match prop.gather {
        Some(gather) => match gather.remains {
            Remains::Model { model, scale: _ } => prop.models@.push(model),
            _ => prop.models@,
        },
        None => prop.models@,
    }
}

/// Whether `scale` is a positive range, smallest first.
pub open spec fn valid_scale(scale: (Number, Number)) -> bool {
    positive(scale.0) && at_least(scale.1, scale.0)
}

/// What is wrong with how a prop is gathered, if anything.
pub open spec fn gather_fault(blocks: bool, gather: GatherEntry) -> Option<GatherFault> {
    if gather.yields@.len() == 0 || exists|i: int| 0 <= i < gather.yields@.len() && (#[trigger] gather.yields@[i]).1 == 0 {
        Some(GatherFault::Yield)
    } else if gather.tool matches Some(tool) && !(tool == Tool::Axe || tool == Tool::Pickaxe) {
        Some(GatherFault::Tool)
    } else if gather.strikes == 0 || (gather.tool is None && gather.strikes != 1) {
        Some(GatherFault::Strikes)
    } else if gather.regrows_after is Some && gather.remains is Nothing {
        Some(GatherFault::RegrowsFromNothing)
    } else if gather.regrows_after == Some(0u16) {
        Some(GatherFault::RegrowsAtOnce)
    } else if !blocks {
        Some(GatherFault::NotBlocking)
    } else if gather.remains is Model && models_fault(seq![gather.remains->model]) is Some {
        Some(GatherFault::RemainsModel)
    } else if gather.remains is Model && !positive(gather.remains->Model_scale) {
        Some(GatherFault::RemainsScale)
    } else {
        None
    }
}

/// What is wrong with the prop `entry` on its own, if anything. A missing
/// number (NaN) fails every check on numbers.
pub open spec fn prop_fault(entry: PropEntry) -> Option<PropFault> {
    if models_fault(entry.models@) is Some {
        Some(PropFault::Models(models_fault(entry.models@).unwrap()))
    } else if !valid_scale(entry.scale) {
        Some(PropFault::Scale)
    } else if !at_least(entry.radius, zero()) {
        Some(PropFault::Radius)
    } else if !positive(entry.spacing) {
        Some(PropFault::Spacing)
    } else if !(positive(entry.density) && at_least(one(), entry.density)) {
        Some(PropFault::Density)
    } else if !between(entry.clustering, zero(), one()) {
        Some(PropFault::Clustering)
    } else if !at_least(entry.max_slope, zero()) {
        Some(PropFault::Slope)
    } else if entry.grows_on@.len() == 0 {
        Some(PropFault::NoGround)
    } else if entry.gather is Some && gather_fault(entry.blocks, entry.gather.unwrap()) is Some {
        Some(PropFault::Gathering(gather_fault(entry.blocks, entry.gather.unwrap()).unwrap()))
    } else {
        None
    }
}

/// Whether the yield `stock` names an unknown item among items keyed
/// `keys`.
pub open spec fn unknown_yield(keys: Seq<Seq<char>>) -> spec_fn((String, u16)) -> bool {
    |stock: (String, u16)| position_of(keys, stock.0@) is None
}

/// The keys of the props `entries`, in order.
pub open spec fn prop_keys(entries: Seq<PropEntry>) -> Seq<Seq<char>> {
    entries.map_values(|entry: PropEntry| entry.id@)
}

/// What is wrong with the `i`th prop of `entries` among items keyed
/// `keys`, if anything: its key defined before, an unknown item it yields,
/// a fruit color channel outside 0 to 1, or a fault of its own.
pub open spec fn prop_problem(keys: Seq<Seq<char>>, entries: Seq<PropEntry>, i: int) -> Option<Problem> {
    let entry = entries[i];
    if position_of(prop_keys(entries.take(i)), entry.id@) is Some {
        Some(Problem::DuplicateProp(entry.id))
    } else if entry.gather is Some && first_where(entry.gather.unwrap().yields@, unknown_yield(keys)) is Some {
        Some(Problem::UnknownItem {
            context: Context::Prop(entry.id),
            item: entry.gather.unwrap().yields@[first_where(entry.gather.unwrap().yields@, unknown_yield(keys)).unwrap() as int].0,
        })
    } else if entry.gather is Some && entry.gather.unwrap().fruit is Some && !is_color(entry.gather.unwrap().fruit.unwrap()) {
        Some(Problem::InvalidProp { prop: entry.id, fault: PropFault::FruitColor })
    } else if prop_fault(entry) is Some {
        Some(Problem::InvalidProp { prop: entry.id, fault: prop_fault(entry).unwrap() })
    } else {
        None
    }
}

/// What is wrong with the ground cover `cover`, if anything.
pub open spec fn cover_fault(cover: CoverDef) -> Option<CoverFault> {
    if models_fault(cover.models@) is Some {
        Some(CoverFault::Models(models_fault(cover.models@).unwrap()))
    } else if !valid_scale(cover.scale) {
        Some(CoverFault::Scale)
    } else if !positive(cover.per_square_meter) {
        Some(CoverFault::Density)
    } else {
        None
    }
}

/// Whether the prop at position `i` has a problem.
pub open spec fn faulty_prop(keys: Seq<Seq<char>>, entries: Seq<PropEntry>) -> spec_fn(nat) -> bool {
    |i: nat| prop_problem(keys, entries, i as int) is Some
}

/// Whether the ground cover `cover` has a fault.
pub open spec fn faulty_cover() -> spec_fn(CoverDef) -> bool {
    |cover: CoverDef| cover_fault(cover) is Some
}

/// The first problem of the scenery file `file` among the items keyed
/// `keys`: the first prop with a problem, then the first invalid ground
/// cover, counting from 1.
pub open spec fn scenery_problem(keys: Seq<Seq<char>>, file: SceneryFile) -> Option<Problem> {
    if first_index(file.props@.len(), faulty_prop(keys, file.props@)) is Some {
        prop_problem(keys, file.props@, first_index(file.props@.len(), faulty_prop(keys, file.props@)).unwrap() as int)
    } else if first_where(file.cover@, faulty_cover()) is Some {
        let index = first_where(file.cover@, faulty_cover()).unwrap();
        Some(Problem::InvalidCover {
            index: (index + 1) as usize,
            fault: cover_fault(file.cover@[index as int]).unwrap(),
        })
    } else {
        None
    }
}

/// Whether `gathering` is what the valid `entry` resolves to among items
/// keyed `keys`.
pub open spec fn resolved_gathering(gathering: Gathering, keys: Seq<Seq<char>>, entry: GatherEntry) -> bool {
    &&& gathering.tool == entry.tool
    &&& gathering.strikes == entry.strikes
    &&& gathering.yields@ == entry.yields@.map_values(|stock: (String, u16)| (item_id_of(keys, stock.0@), stock.1))
    &&& gathering.remains == entry.remains
    &&& gathering.regrows_after == entry.regrows_after
    &&& gathering.fruit == entry.fruit
}

/// Whether `prop` is what the valid `entry` resolves to among items keyed
/// `keys`.
pub open spec fn resolved_prop(prop: PropDef, keys: Seq<Seq<char>>, entry: PropEntry) -> bool {
    &&& prop.key == entry.id
    &&& prop.name == entry.name
    &&& prop.models == entry.models
    &&& prop.scale == entry.scale
    &&& prop.radius == entry.radius
    &&& prop.spacing == entry.spacing
    &&& prop.density == entry.density
    &&& prop.clustering == entry.clustering
    &&& prop.max_slope == entry.max_slope
    &&& prop.grows_on == entry.grows_on
    &&& prop.blocks == entry.blocks
    &&& match (prop.gather, entry.gather) {
        (None, None) => true,
        (Some(gathering), Some(gather)) => resolved_gathering(gathering, keys, gather),
        _ => false,
    }
}

impl PropDef {
    /// Every model the prop may be drawn with, standing or gathered.
    pub fn models_used(&self) -> (models: Vec<&String>)
        ensures
            models@.len() == models_of(*self).len(),
            forall|i: int| 0 <= i < models@.len() ==> *(#[trigger] models@[i]) == models_of(*self)[i],
    {
        let mut models: Vec<&String> = Vec::new();
        let mut i: usize = 0;
        while i < self.models.len()
            invariant
                i <= self.models@.len(),
                models@.len() == i,
                forall|j: int| 0 <= j < i ==> *(#[trigger] models@[j]) == self.models@[j],
            decreases self.models@.len() - i,
        {
            models.push(&self.models[i]);
            i = i + 1;
        }
        if let Some(gather) = &self.gather {
            if let Remains::Model { model, scale: _ } = &gather.remains {
                models.push(model);
            }
        }
        models
    }

    /// Whether the prop still stands in the way, and keeps the ground under
    /// it, once gathered.
    pub fn stands_when_gathered(&self) -> (standing: bool)
        ensures
            standing == stands(*self),
    {
        match &self.gather {
            None => true,
            Some(gather) => match gather.remains {
                Remains::Nothing => false,
                _ => true,
            },
        }
    }
}

impl CoverDef {
    /// Whether the cover shows in `season`.
    pub fn shows_in(&self, season: Season) -> (showing: bool)
        ensures
            showing == shows(*self, season),
    {
        if self.seasons.len() == 0 {
            return true;
        }
        let mut i: usize = 0;
        while i < self.seasons.len()
            invariant
                i <= self.seasons@.len(),
                forall|j: int| 0 <= j < i ==> self.seasons@[j] != season,
            decreases self.seasons@.len() - i,
        {
            if self.seasons[i] == season {
                assert(self.seasons@[i as int] == season);
                assert(self.seasons@.contains(season));
                return true;
            }
            i = i + 1;
        }
        false
    }
}

/// Whether `scale` is a positive range, smallest first.
fn scale_is_valid(scale: (Number, Number)) -> (valid: bool)
    ensures
        valid == valid_scale(scale),
{
    scale.0.positive() && scale.1.at_least(scale.0)
}

/// What is wrong with how a prop is gathered.
#[verifier::loop_isolation(false)]
fn check_gathering(blocks: bool, gather: &GatherEntry) -> (fault: Option<GatherFault>)
    ensures
        fault == gather_fault(blocks, *gather),
{
    if gather.yields.len() == 0 {
        return Some(GatherFault::Yield);
    }
    let mut i: usize = 0;
    while i < gather.yields.len()
        invariant
            i <= gather.yields@.len(),
            forall|j: int| 0 <= j < i ==> (#[trigger] gather.yields@[j]).1 != 0,
        decreases gather.yields@.len() - i,
    {
        if gather.yields[i].1 == 0 {
            return Some(GatherFault::Yield);
        }
        i = i + 1;
    }
    if let Some(tool) = gather.tool {
        if !tool.gathers() {
            return Some(GatherFault::Tool);
        }
    }
    if gather.strikes == 0 || (gather.tool.is_none() && gather.strikes != 1) {
        return Some(GatherFault::Strikes);
    }
    let nothing = match gather.remains {
        Remains::Nothing => true,
        _ => false,
    };
    if gather.regrows_after.is_some() && nothing {
        return Some(GatherFault::RegrowsFromNothing);
    }
    if gather.regrows_after == Some(0u16) {
        return Some(GatherFault::RegrowsAtOnce);
    }
    if !blocks {
        return Some(GatherFault::NotBlocking);
    }
    if let Remains::Model { model, scale } = &gather.remains {
        let models = vec![model.clone()];
        assert(models@ =~= seq![*model]);
        if check_models(&models).is_err() {
            return Some(GatherFault::RemainsModel);
        }
        if !scale.positive() {
            return Some(GatherFault::RemainsScale);
        }
    }
    None
}

/// What is wrong with the prop `entry` on its own.
fn check_prop(entry: &PropEntry) -> (fault: Option<PropFault>)
    ensures
        fault == prop_fault(*entry),
{
    if let Err(fault) = check_models(&entry.models) {
        return Some(PropFault::Models(fault));
    }
    if !scale_is_valid(entry.scale) {
        return Some(PropFault::Scale);
    }
    if !entry.radius.at_least(Number::zero()) {
        return Some(PropFault::Radius);
    }
    if !entry.spacing.positive() {
        return Some(PropFault::Spacing);
    }
    if !(entry.density.positive() && Number::one().at_least(entry.density)) {
        return Some(PropFault::Density);
    }
    if !entry.clustering.between(Number::zero(), Number::one()) {
        return Some(PropFault::Clustering);
    }
    if !entry.max_slope.at_least(Number::zero()) {
        return Some(PropFault::Slope);
    }
    if entry.grows_on.len() == 0 {
        return Some(PropFault::NoGround);
    }
    if let Some(gather) = &entry.gather {
        if let Some(fault) = check_gathering(entry.blocks, gather) {
            return Some(PropFault::Gathering(fault));
        }
    }
    None
}

/// The first item that `gather` yields and no item of `items` is.
fn unknown_yield_of(items: &Items, gather: &GatherEntry) -> (unknown: Option<String>)
    requires
        items.keys@.len() <= MAX_DEFINITIONS,
    ensures
        unknown is None <==> first_where(gather.yields@, unknown_yield(texts(items.keys@))) is None,
        unknown matches Some(key) ==> key == gather.yields@[first_where(gather.yields@, unknown_yield(texts(items.keys@))).unwrap() as int].0,
{
    let ghost keys = texts(items.keys@);
    let mut i: usize = 0;
    while i < gather.yields.len()
        invariant
            i <= gather.yields@.len(),
            keys == texts(items.keys@),
            first_where(gather.yields@.take(i as int), unknown_yield(keys)) is None,
        decreases gather.yields@.len() - i,
    {
        proof {
            first_where_step(gather.yields@, unknown_yield(keys), i as nat);
        }
        if position(&items.keys, gather.yields[i].0.as_str()).is_none() {
            proof {
                first_where_prefix(gather.yields@, unknown_yield(keys), (i + 1) as nat);
            }
            return Some(gather.yields[i].0.clone());
        }
        i = i + 1;
    }
    proof {
        first_where_prefix(gather.yields@, unknown_yield(keys), i as nat);
    }
    None
}

/// What is wrong with the `i`th prop of `entries` among `items`, given the
/// keys of the props before it.
fn check_prop_entry(items: &Items, entries: &Vec<PropEntry>, keys: &Vec<String>, i: usize) -> (problem: Option<Problem>)
    requires
        items.keys@.len() <= MAX_DEFINITIONS,
        i < entries@.len(),
        texts(keys@) == prop_keys(entries@.take(i as int)),
    ensures
        problem == prop_problem(texts(items.keys@), entries@, i as int),
{
    let entry = &entries[i];
    if position(keys, entry.id.as_str()).is_some() {
        return Some(Problem::DuplicateProp(entry.id.clone()));
    }
    if let Some(gather) = &entry.gather {
        if let Some(item) = unknown_yield_of(items, gather) {
            return Some(Problem::UnknownItem { context: Context::Prop(entry.id.clone()), item });
        }
        if let Some(fruit) = &gather.fruit {
            if !channels_in_range(fruit) {
                return Some(Problem::InvalidProp { prop: entry.id.clone(), fault: PropFault::FruitColor });
            }
        }
    }
    match check_prop(entry) {
        Some(fault) => Some(Problem::InvalidProp { prop: entry.id.clone(), fault }),
        None => None,
    }
}

/// How the valid `gather` resolves among `items`.
fn resolve_gathering(items: &Items, gather: GatherEntry) -> (gathering: Gathering)
    requires
        items.keys@.len() <= MAX_DEFINITIONS,
        first_where(gather.yields@, unknown_yield(texts(items.keys@))) is None,
    ensures
        resolved_gathering(gathering, texts(items.keys@), gather),
{
    let ghost keys = texts(items.keys@);
    proof {
        first_where_finds_the_first(gather.yields@, unknown_yield(keys));
    }
    let mut yields: Vec<(ItemId, u16)> = Vec::new();
    let mut i: usize = 0;
    while i < gather.yields.len()
        invariant
            i <= gather.yields@.len(),
            keys == texts(items.keys@),
            items.keys@.len() <= MAX_DEFINITIONS,
            forall|j: int| 0 <= j < gather.yields@.len() ==> !unknown_yield(keys)(#[trigger] gather.yields@[j]),
            yields@ == gather.yields@.take(i as int).map_values(|stock: (String, u16)| (item_id_of(keys, stock.0@), stock.1)),
        decreases gather.yields@.len() - i,
    {
        assert(!unknown_yield(keys)(gather.yields@[i as int]));
        let found = position(&items.keys, gather.yields[i].0.as_str());
        let item = ItemId(found.unwrap() as u16);
        yields.push((item, gather.yields[i].1));
        assert(gather.yields@.take(i + 1).map_values(|stock: (String, u16)| (item_id_of(keys, stock.0@), stock.1))
            =~= gather.yields@.take(i as int).map_values(|stock: (String, u16)| (item_id_of(keys, stock.0@), stock.1)).push(
            (item_id_of(keys, gather.yields@[i as int].0@), gather.yields@[i as int].1)));
        i = i + 1;
    }
    assert(gather.yields@.take(i as int) =~= gather.yields@);
    Gathering {
        tool: gather.tool,
        strikes: gather.strikes,
        yields,
        remains: gather.remains,
        regrows_after: gather.regrows_after,
        fruit: gather.fruit,
    }
}

/// The prop that the valid `entry` resolves to among `items`.
fn resolve_prop(items: &Items, entry: PropEntry) -> (prop: PropDef)
    requires
        items.keys@.len() <= MAX_DEFINITIONS,
        entry.gather is Some ==> first_where(entry.gather.unwrap().yields@, unknown_yield(texts(items.keys@))) is None,
    ensures
        resolved_prop(prop, texts(items.keys@), entry),
{
    let gather = match entry.gather {
        Some(gather) => Some(resolve_gathering(items, gather)),
        None => None,
    };
    PropDef {
        key: entry.id,
        name: entry.name,
        models: entry.models,
        scale: entry.scale,
        radius: entry.radius,
        spacing: entry.spacing,
        density: entry.density,
        clustering: entry.clustering,
        max_slope: entry.max_slope,
        grows_on: entry.grows_on,
        blocks: entry.blocks,
        gather,
    }
}

/// What is wrong with the ground cover `cover`.
fn check_cover(cover: &CoverDef) -> (fault: Option<CoverFault>)
    ensures
        fault == cover_fault(*cover),
{
    if let Err(fault) = check_models(&cover.models) {
        return Some(CoverFault::Models(fault));
    }
    if !scale_is_valid(cover.scale) {
        return Some(CoverFault::Scale);
    }
    if !cover.per_square_meter.positive() {
        return Some(CoverFault::Density);
    }
    None
}

/// Whether a prop whose entry leaves it out blocks characters: it does.
pub fn solid() -> (blocks: bool)
    ensures
        blocks,
{
    true
}

/// The strikes gathering a prop takes when its entry leaves them out.
pub fn one_strike() -> (strikes: u8)
    ensures
        strikes == 1,
{
    1
}

impl SceneryFile {
    /// Resolves the items each prop yields and checks every prop and every
    /// ground cover.
    pub fn resolve(self, items: &Items) -> (resolved: Result<Scenery, Problem>)
        requires
            items.wf(),
            self.props@.len() <= MAX_DEFINITIONS,
            self.cover@.len() < usize::MAX,
        ensures
            resolved is Err <==> scenery_problem(texts(items.keys@), self) is Some,
            resolved matches Err(problem) ==> scenery_problem(texts(items.keys@), self) == Some(problem),
            resolved matches Ok(scenery) ==> {
                &&& scenery.props@.len() == self.props@.len()
                &&& forall|i: int| 0 <= i < self.props@.len() ==> resolved_prop(
                    #[trigger] scenery.props@[i],
                    texts(items.keys@),
                    self.props@[i],
                )
                &&& texts(scenery.keys@) == prop_keys(self.props@)
                &&& scenery.cover == self.cover
            },
    {
        let ghost keys_spec = texts(items.keys@);
        let SceneryFile { props: mut entries, cover } = self;
        let ghost all = entries@;
        let ghost faulty = faulty_prop(keys_spec, all);
        let mut keys: Vec<String> = Vec::new();
        let mut i: usize = 0;
        while i < entries.len()
            invariant
                i <= entries@.len(),
                all == entries@,
                all == self.props@,
                keys_spec == texts(items.keys@),
                items.wf(),
                faulty == faulty_prop(keys_spec, all),
                first_index(i as nat, faulty) is None,
                keys@.len() == i,
                forall|j: int| 0 <= j < i ==> #[trigger] keys@[j] == all[j].id,
            decreases entries@.len() - i,
        {
            proof {
                assert(texts(keys@) =~= prop_keys(all.take(i as int)));
            }
            if let Some(problem) = check_prop_entry(items, &entries, &keys, i) {
                proof {
                    assert(faulty(i as nat));
                    assert(first_index((i + 1) as nat, faulty) == Some(i as nat));
                    first_index_facts((i + 1) as nat, all.len(), faulty);
                }
                return Err(problem);
            }
            keys.push(entries[i].id.clone());
            i = i + 1;
        }
        proof {
            assert(texts(keys@) =~= prop_keys(all));
        }
        let mut i: usize = 0;
        while i < cover.len()
            invariant
                i <= cover@.len(),
                cover == self.cover,
                cover@.len() < usize::MAX,
                all == self.props@,
                keys_spec == texts(items.keys@),
                faulty == faulty_prop(keys_spec, all),
                first_index(all.len(), faulty) is None,
                first_where(cover@.take(i as int), faulty_cover()) is None,
            decreases cover@.len() - i,
        {
            proof {
                first_where_step(cover@, faulty_cover(), i as nat);
            }
            if let Some(fault) = check_cover(&cover[i]) {
                proof {
                    first_where_prefix(cover@, faulty_cover(), (i + 1) as nat);
                }
                return Err(Problem::InvalidCover { index: i + 1, fault });
            }
            i = i + 1;
        }
        proof {
            first_where_prefix(cover@, faulty_cover(), i as nat);
        }
        let mut props: Vec<PropDef> = Vec::new();
        let mut n: usize = 0;
        while entries.len() > 0
            invariant
                all == self.props@,
                all.len() <= MAX_DEFINITIONS,
                keys_spec == texts(items.keys@),
                items.wf(),
                n <= all.len(),
                entries@ == all.skip(n as int),
                first_index(all.len(), faulty) is None,
                faulty == faulty_prop(keys_spec, all),
                props@.len() == n,
                forall|j: int| 0 <= j < n ==> resolved_prop(#[trigger] props@[j], keys_spec, all[j]),
            decreases entries.len(),
        {
            let entry = entries.remove(0);
            proof {
                assert(entry == all[n as int]);
                first_index_facts(all.len(), all.len(), faulty);
                assert(!faulty(n as nat));
            }
            let prop = resolve_prop(items, entry);
            props.push(prop);
            proof {
                assert(all.skip(n as int).drop_first() =~= all.skip(n + 1));
            }
            n = n + 1;
        }
        Ok(Scenery { props, keys, cover })
    }
}

} // verus!
