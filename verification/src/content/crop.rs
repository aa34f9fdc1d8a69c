//! Crop definitions and the crops file.

use vstd::prelude::*;

use crate::calendar::date::Season;
use crate::content::error::{Context, CropFault, Problem};
use crate::content::item::{ItemDef, ItemId, ItemKind, Items, MAX_DEFINITIONS, item_id_of};
use crate::content::lookup::{
    first_index, first_index_facts, first_index_none, position, position_of, texts,
};
use crate::content::number::Rgb;
use crate::content::paths::{check_models, models_fault};

verus! {

/// Refers to a crop definition within a catalog, like [`ItemId`] does for
/// items.
#[derive(Clone, Copy, Debug, PartialEq, Eq, Hash, PartialOrd, Ord, Structural)]
pub struct CropId(pub u16);

/// Everything the game knows about one kind of crop.
#[derive(Debug, PartialEq, Eq)]
pub struct CropDef {
    /// The id used in data files, such as `"turnip"`.
    pub key: String,
    pub name: String,
    /// The seed item planted to grow it.
    pub seeds: ItemId,
    /// The item a harvest yields.
    pub produce: ItemId,
    /// Seasons it grows in; out of season it withers.
    pub seasons: Vec<Season>,
    /// Days of watered growth each stage takes, from sprout to ripe.
    pub stages: Vec<u8>,
    /// For crops that keep producing, the days of growth they need to ripen
    /// again after a harvest.
    pub regrows_after: Option<u8>,
    /// Produce yielded by each harvest.
    pub harvest: u16,
    /// Color of the ripe produce, in sRGB, for drawing it.
    pub color: Rgb,
    /// Models the plant is drawn with, from just planted to ripe: one more
    /// than it has stages.
    pub models: Vec<String>,
    /// Whether the ripe model shows the produce; otherwise it is drawn on
    /// the plant in the produce's color.
    pub produce_shown: bool,
}

/// A crop as written in the crops file.
#[derive(Debug, PartialEq, Eq)]
pub struct CropEntry {
    pub id: String,
    pub name: String,
    pub seeds: String,
    pub produce: String,
    pub seasons: Vec<Season>,
    pub stages: Vec<u8>,
    pub regrows_after: Option<u8>,
    /// 1 when left out.
    pub harvest: u16,
    pub color: Rgb,
    pub models: Vec<String>,
    pub produce_shown: bool,
}

/// The crops file as written.
#[derive(Debug, PartialEq, Eq)]
pub struct CropsFile {
    pub crops: Vec<CropEntry>,
}

/// Crops with their references resolved.
#[derive(Debug, PartialEq, Eq)]
pub struct Crops {
    pub definitions: Vec<CropDef>,
    /// The key of each definition, in the same order.
    pub keys: Vec<String>,
}

/// The days of growth that the stages `stages` take in all.
pub open spec fn stage_days(stages: Seq<u8>) -> nat
    decreases stages.len(),
{
    if stages.len() == 0 {
        0
    } else {
        stage_days(stages.drop_last()) + stages.last() as nat
    }
}

/// What is wrong with the crop `entry` on its own, if anything.
pub open spec fn crop_fault(entry: CropEntry) -> Option<CropFault> {
    if entry.seasons@.len() == 0 {
        Some(CropFault::NoSeason)
    } else if entry.stages@.len() == 0 || entry.stages@.contains(0u8) {
        Some(CropFault::NoStage)
    } else if entry.harvest == 0 {
        Some(CropFault::NoHarvest)
    } else if entry.regrows_after matches Some(days) && (days == 0 || days > stage_days(
        entry.stages@,
    )) {
        Some(CropFault::Regrowth)
    } else if entry.models@.len() != entry.stages@.len() + 1 {
        Some(CropFault::ModelCount)
    } else if models_fault(entry.models@) is Some {
        Some(CropFault::ModelFiles)
    } else {
        None
    }
}

/// The keys of the crops `entries`, in order.
pub open spec fn crop_keys(entries: Seq<CropEntry>) -> Seq<Seq<char>> {
    entries.map_values(|entry: CropEntry| entry.id@)
}

/// The first crop before the `i`th that grows from the same seed item.
pub open spec fn earlier_grower(keys: Seq<Seq<char>>, entries: Seq<CropEntry>, i: int) -> Option<nat> {
    first_index(
        i as nat,
        |j: nat| position_of(keys, entries[j as int].seeds@) == position_of(keys, entries[i].seeds@),
    )
}

/// What is wrong with the `i`th crop of `entries`, among the items
/// `items`, if anything: its key defined before, an unknown seed or
/// produce, a seed that is not a seed item, a seed an earlier crop grows
/// from, or a fault of its own.
pub open spec fn crop_problem(keys: Seq<Seq<char>>, definitions: Seq<ItemDef>, entries: Seq<CropEntry>, i: int) -> Option<Problem> {
    let entry = entries[i];
    if position_of(crop_keys(entries.take(i)), entry.id@) is Some {
        Some(Problem::DuplicateCrop(entry.id))
    } else if position_of(keys, entry.seeds@) is None {
        Some(Problem::UnknownItem { context: Context::Crop(entry.id), item: entry.seeds })
    } else if position_of(keys, entry.produce@) is None {
        Some(Problem::UnknownItem { context: Context::Crop(entry.id), item: entry.produce })
    } else if !(definitions[position_of(keys, entry.seeds@).unwrap() as int].kind is Seed) {
        Some(Problem::NotASeed { crop: entry.id, item: entry.seeds })
    } else if earlier_grower(keys, entries, i) is Some {
        Some(
            Problem::SharedSeed {
                seed: entry.seeds,
                first: entries[earlier_grower(keys, entries, i).unwrap() as int].id,
                second: entry.id,
            },
        )
    } else if crop_fault(entry) is Some {
        Some(Problem::InvalidCrop { crop: entry.id, fault: crop_fault(entry).unwrap() })
    } else {
        None
    }
}

/// Whether the crop at position `i` has a problem.
pub open spec fn faulty_crop(keys: Seq<Seq<char>>, definitions: Seq<ItemDef>, entries: Seq<CropEntry>) -> spec_fn(nat) -> bool {
    |i: nat| crop_problem(keys, definitions, entries, i as int) is Some
}

/// Whether the item at position `k` is a seed that no crop of `entries`
/// grows from.
pub open spec fn unplanted(keys: Seq<Seq<char>>, definitions: Seq<ItemDef>, entries: Seq<CropEntry>) -> spec_fn(nat) -> bool {
    |k: nat| definitions[k as int].kind is Seed && forall|j: int| 0 <= j < entries.len()
        ==> position_of(keys, #[trigger] entries[j].seeds@) != Some(k)
}

/// The first problem of the crops `entries` among the items `items`: the
/// first crop with a problem, then the first seed item no crop grows from.
pub open spec fn crops_problem(keys: Seq<Seq<char>>, definitions: Seq<ItemDef>, entries: Seq<CropEntry>) -> Option<Problem> {
    match first_index(entries.len(), faulty_crop(keys, definitions, entries)) {
        Some(i) => crop_problem(keys, definitions, entries, i as int),
        None => match first_index(definitions.len(), unplanted(keys, definitions, entries)) {
            Some(k) => Some(Problem::UnplantedSeed(definitions[k as int].key)),
            None => None,
        },
    }
}

/// The definition that the valid crop `entry` resolves to among `items`.
pub open spec fn crop_def(keys: Seq<Seq<char>>, entry: CropEntry) -> CropDef {
    CropDef {
        key: entry.id,
        name: entry.name,
        seeds: item_id_of(keys, entry.seeds@),
        produce: item_id_of(keys, entry.produce@),
        seasons: entry.seasons,
        stages: entry.stages,
        regrows_after: entry.regrows_after,
        harvest: entry.harvest,
        color: entry.color,
        models: entry.models,
        produce_shown: entry.produce_shown,
    }
}

/// Whether checking the crop `entry` on its own comes to count the days
/// its stages take, as it does for a crop that regrows after some days,
/// and the count runs past what a day count holds.
pub open spec fn crop_too_long(entry: CropEntry) -> bool {
    &&& entry.seasons@.len() > 0
    &&& entry.stages@.len() > 0
    &&& !entry.stages@.contains(0u8)
    &&& entry.harvest != 0
    &&& entry.regrows_after matches Some(days) && days != 0
    &&& stage_days(entry.stages@) > u16::MAX
}

/// Whether the `i`th crop of `entries` gets past the checks against the
/// items and the crops before it, so that it is checked on its own.
pub open spec fn crop_resolves(keys: Seq<Seq<char>>, definitions: Seq<ItemDef>, entries: Seq<CropEntry>, i: int) -> bool {
    let entry = entries[i];
    &&& position_of(crop_keys(entries.take(i)), entry.id@) is None
    &&& position_of(keys, entry.seeds@) is Some
    &&& position_of(keys, entry.produce@) is Some
    &&& definitions[position_of(keys, entry.seeds@).unwrap() as int].kind is Seed
    &&& earlier_grower(keys, entries, i) is None
}

/// Whether checking the crop at position `i` runs past what a day count
/// holds.
pub open spec fn overflowing_crop(keys: Seq<Seq<char>>, definitions: Seq<ItemDef>, entries: Seq<CropEntry>) -> spec_fn(nat) -> bool {
    |i: nat| crop_resolves(keys, definitions, entries, i as int) && crop_too_long(entries[i as int])
}

/// Whether checking the crops stops at the crop at position `i`: it has a
/// problem, or counting its days runs past what a day count holds.
pub open spec fn stopping_crop(keys: Seq<Seq<char>>, definitions: Seq<ItemDef>, entries: Seq<CropEntry>) -> spec_fn(nat) -> bool {
    |i: nat| faulty_crop(keys, definitions, entries)(i) || overflowing_crop(keys, definitions, entries)(i)
}

/// The crop of `entries` at which checking them runs past what a day count
/// holds, if checking comes to one before any problem.
pub open spec fn first_too_long(keys: Seq<Seq<char>>, definitions: Seq<ItemDef>, entries: Seq<CropEntry>) -> Option<nat> {
    match first_index(entries.len(), stopping_crop(keys, definitions, entries)) {
        Some(i) => if overflowing_crop(keys, definitions, entries)(i) {
            Some(i)
        } else {
            None
        },
        None => None,
    }
}

/// Why the crops file was turned down: a problem with a crop, or a crop
/// whose stages take more days to ripen than a day count holds, named by
/// its key.
#[derive(Debug, PartialEq, Eq)]
pub enum CropsRejection {
    Problem(Problem),
    TooLong(String),
}

/// What checking a crop comes to: what it found, or a count of days that
/// ran past what a day count holds.
enum Verdict<T> {
    Checked(Option<T>),
    TooLong,
}

impl CropDef {
    /// Days of watered growth from planting to the first harvest.
    pub fn days_to_ripen(&self) -> (days: u16)
        requires
            stage_days(self.stages@) <= u16::MAX,
        ensures
            days == stage_days(self.stages@),
    {
        days_of(&self.stages)
    }
}

/// The days of growth the stages `stages` take in all.
fn days_of(stages: &Vec<u8>) -> (days: u16)
    requires
        stage_days(stages@) <= u16::MAX,
    ensures
        days == stage_days(stages@),
{
    let mut days: u16 = 0;
    let mut i: usize = 0;
    while i < stages.len()
        invariant
            i <= stages.len(),
            stage_days(stages@) <= u16::MAX,
            days == stage_days(stages@.take(i as int)),
        decreases stages.len() - i,
    {
        proof {
            assert(stages@.take(i + 1).drop_last() =~= stages@.take(i as int));
            stage_days_grow(stages@, (i + 1) as nat);
        }
        days = days + stages[i] as u16;
        i = i + 1;
    }
    proof {
        assert(stages@.take(i as int) =~= stages@);
    }
    days
}

proof fn stage_days_grow(stages: Seq<u8>, n: nat)
    requires
        n <= stages.len(),
    ensures
        stage_days(stages.take(n as int)) <= stage_days(stages),
    decreases stages.len() - n,
{
    if n < stages.len() {
        stage_days_grow(stages, n + 1);
        assert(stages.take(n as int + 1).drop_last() =~= stages.take(n as int));
    } else {
        assert(stages.take(n as int) =~= stages);
    }
}

/// The days of growth the stages `stages` take in all, unless that is more
/// than a day count holds.
fn counted_days(stages: &Vec<u8>) -> (days: Option<u16>)
    ensures
        days is None <==> stage_days(stages@) > u16::MAX,
        days matches Some(total) ==> total == stage_days(stages@),
{
    let mut days: u16 = 0;
    let mut i: usize = 0;
    while i < stages.len()
        invariant
            i <= stages.len(),
            days == stage_days(stages@.take(i as int)),
        decreases stages.len() - i,
    {
        proof {
            assert(stages@.take(i + 1).drop_last() =~= stages@.take(i as int));
            stage_days_grow(stages@, (i + 1) as nat);
        }
        match days.checked_add(stages[i] as u16) {
            Some(more) => days = more,
            None => return None,
        }
        i = i + 1;
    }
    proof {
        assert(stages@.take(i as int) =~= stages@);
    }
    Some(days)
}

/// What is wrong with the crop `entry` on its own, unless counting its
/// days runs past what a day count holds.
fn check_crop(entry: &CropEntry) -> (verdict: Verdict<CropFault>)
    ensures
        verdict is TooLong <==> crop_too_long(*entry),
        verdict matches Verdict::Checked(fault) ==> fault == crop_fault(*entry),
{
    if entry.seasons.len() == 0 {
        return Verdict::Checked(Some(CropFault::NoSeason));
    }
    let mut i: usize = 0;
    while i < entry.stages.len()
        invariant
            i <= entry.stages@.len(),
            entry.seasons@.len() > 0,
            forall|j: int| 0 <= j < i ==> entry.stages@[j] != 0u8,
        decreases entry.stages@.len() - i,
    {
        if entry.stages[i] == 0 {
            assert(entry.stages@[i as int] == 0u8);
            assert(entry.stages@.contains(0u8));
            return Verdict::Checked(Some(CropFault::NoStage));
        }
        i = i + 1;
    }
    if entry.stages.len() == 0 {
        return Verdict::Checked(Some(CropFault::NoStage));
    }
    if entry.harvest == 0 {
        return Verdict::Checked(Some(CropFault::NoHarvest));
    }
    if let Some(days) = entry.regrows_after {
        if days == 0 {
            return Verdict::Checked(Some(CropFault::Regrowth));
        }
        match counted_days(&entry.stages) {
            None => return Verdict::TooLong,
            Some(total) => if days as u16 > total {
                return Verdict::Checked(Some(CropFault::Regrowth));
            },
        }
    }
    if entry.models.len() == 0 || entry.models.len() - 1 != entry.stages.len() {
        return Verdict::Checked(Some(CropFault::ModelCount));
    }
    if check_models(&entry.models).is_err() {
        return Verdict::Checked(Some(CropFault::ModelFiles));
    }
    Verdict::Checked(None)
}

/// The first crop before the `i`th that grows from the same seed item.
fn find_earlier_grower(items: &Items, entries: &Vec<CropEntry>, i: usize) -> (found: Option<usize>)
    requires
        i < entries@.len(),
    ensures
        found is None <==> earlier_grower(texts(items.keys@), entries@, i as int) is None,
        found matches Some(j) ==> earlier_grower(texts(items.keys@), entries@, i as int) == Some(j as nat) && j < i,
{
    let ghost keys = texts(items.keys@);
    let ghost same = |j: nat| position_of(keys, entries@[j as int].seeds@) == position_of(keys, entries@[i as int].seeds@);
    let seed = position(&items.keys, entries[i].seeds.as_str());
    let mut j: usize = 0;
    while j < i
        invariant
            j <= i < entries@.len(),
            keys == texts(items.keys@),
            seed is None <==> position_of(keys, entries@[i as int].seeds@) is None,
            seed matches Some(s) ==> position_of(keys, entries@[i as int].seeds@) == Some(s as nat),
            same == (|j: nat| position_of(keys, entries@[j as int].seeds@) == position_of(keys, entries@[i as int].seeds@)),
            first_index(j as nat, same) is None,
        decreases i - j,
    {
        let other = position(&items.keys, entries[j].seeds.as_str());
        let matches_seed = match (other, seed) {
            (Some(a), Some(b)) => a == b,
            (None, None) => true,
            _ => false,
        };
        proof {
            assert(matches_seed == same(j as nat));
        }
        if matches_seed {
            proof {
                first_index_facts((j + 1) as nat, i as nat, same);
            }
            return Some(j);
        }
        j = j + 1;
    }
    None
}

/// Whether the item at position `k` is a seed no crop grows from.
fn is_unplanted(items: &Items, entries: &Vec<CropEntry>, k: usize) -> (unplanted_seed: bool)
    requires
        k < items.definitions@.len(),
    ensures
        unplanted_seed == unplanted(texts(items.keys@), items.definitions@, entries@)(k as nat),
{
    let is_seed = match items.definitions[k].kind {
        ItemKind::Seed => true,
        _ => false,
    };
    if !is_seed {
        return false;
    }
    let ghost keys = texts(items.keys@);
    let mut j: usize = 0;
    while j < entries.len()
        invariant
            j <= entries@.len(),
            keys == texts(items.keys@),
            forall|n: int| 0 <= n < j ==> position_of(keys, #[trigger] entries@[n].seeds@) != Some(k as nat),
        decreases entries@.len() - j,
    {
        match position(&items.keys, entries[j].seeds.as_str()) {
            Some(s) => if s == k {
                return false;
            },
            None => {},
        }
        j = j + 1;
    }
    true
}

/// What is wrong with the `i`th crop of `entries` among `items`, given
/// the keys of the crops before it, unless counting its days runs past
/// what a day count holds.
fn check_crop_entry(items: &Items, entries: &Vec<CropEntry>, keys: &Vec<String>, i: usize) -> (verdict: Verdict<Problem>)
    requires
        items.wf(),
        i < entries@.len(),
        texts(keys@) == crop_keys(entries@.take(i as int)),
    ensures
        verdict is TooLong <==> overflowing_crop(texts(items.keys@), items.definitions@, entries@)(i as nat),
        verdict matches Verdict::Checked(problem) ==> problem == crop_problem(
            texts(items.keys@),
            items.definitions@,
            entries@,
            i as int,
        ),
{
    let entry = &entries[i];
    if position(keys, entry.id.as_str()).is_some() {
        return Verdict::Checked(Some(Problem::DuplicateCrop(entry.id.clone())));
    }
    let seeds = match items.resolve(Context::Crop(entry.id.clone()), &entry.seeds) {
        Err(problem) => return Verdict::Checked(Some(problem)),
        Ok(seeds) => seeds,
    };
    if let Err(problem) = items.resolve(Context::Crop(entry.id.clone()), &entry.produce) {
        return Verdict::Checked(Some(problem));
    }
    let is_seed = match items.get(seeds).kind {
        ItemKind::Seed => true,
        _ => false,
    };
    if !is_seed {
        return Verdict::Checked(Some(Problem::NotASeed { crop: entry.id.clone(), item: entry.seeds.clone() }));
    }
    if let Some(j) = find_earlier_grower(items, entries, i) {
        return Verdict::Checked(
            Some(
                Problem::SharedSeed {
                    seed: entry.seeds.clone(),
                    first: entries[j].id.clone(),
                    second: entry.id.clone(),
                },
            ),
        );
    }
    match check_crop(entry) {
        Verdict::TooLong => Verdict::TooLong,
        Verdict::Checked(Some(fault)) => Verdict::Checked(Some(Problem::InvalidCrop { crop: entry.id.clone(), fault })),
        Verdict::Checked(None) => Verdict::Checked(None),
    }
}

/// The harvest of a crop whose entry leaves it out.
pub fn single() -> (harvest: u16)
    ensures
        harvest == 1,
{
    1
}

impl CropsFile {
    /// Resolves each crop's items, checks it, and checks that every seed item
    /// grows exactly one crop. Checking stops at a crop whose days to ripen,
    /// counted because it regrows, run past what a day count holds.
    pub fn resolve(self, items: &Items) -> (resolved: Result<Crops, CropsRejection>)
        requires
            items.wf(),
            self.crops@.len() <= MAX_DEFINITIONS,
        ensures
            resolved matches Err(CropsRejection::TooLong(_)) <==> first_too_long(
                texts(items.keys@),
                items.definitions@,
                self.crops@,
            ) is Some,
            first_too_long(texts(items.keys@), items.definitions@, self.crops@) matches Some(i) ==> resolved
                == Err::<Crops, CropsRejection>(CropsRejection::TooLong(self.crops@[i as int].id)),
            first_too_long(texts(items.keys@), items.definitions@, self.crops@) is None ==> (resolved is Err
                <==> crops_problem(texts(items.keys@), items.definitions@, self.crops@) is Some),
            resolved matches Err(CropsRejection::Problem(problem)) ==> crops_problem(
                texts(items.keys@),
                items.definitions@,
                self.crops@,
            ) == Some(problem),
            resolved matches Ok(crops) ==> {
                &&& crops.definitions@ == self.crops@.map_values(|entry: CropEntry| crop_def(texts(items.keys@), entry))
                &&& texts(crops.keys@) == crop_keys(self.crops@)
            },
    {
        let CropsFile { crops: mut entries } = self;
        let ghost all = entries@;
        let ghost faulty = faulty_crop(texts(items.keys@), items.definitions@, all);
        let ghost overflowing = overflowing_crop(texts(items.keys@), items.definitions@, all);
        let ghost stopping = stopping_crop(texts(items.keys@), items.definitions@, all);
        let mut keys: Vec<String> = Vec::new();
        let mut i: usize = 0;
        while i < entries.len()
            invariant
                i <= entries@.len(),
                all == entries@,
                all == self.crops@,
                items.wf(),
                faulty == faulty_crop(texts(items.keys@), items.definitions@, all),
                overflowing == overflowing_crop(texts(items.keys@), items.definitions@, all),
                stopping == stopping_crop(texts(items.keys@), items.definitions@, all),
                first_index(i as nat, stopping) is None,
                keys@.len() == i,
                forall|j: int| 0 <= j < i ==> #[trigger] keys@[j] == all[j].id,
            decreases entries@.len() - i,
        {
            proof {
                assert(texts(keys@) =~= crop_keys(all.take(i as int)));
            }
            let verdict = check_crop_entry(items, &entries, &keys, i);
            match verdict {
                Verdict::TooLong => {
                    proof {
                        assert(stopping(i as nat));
                        assert(first_index((i + 1) as nat, stopping) == Some(i as nat));
                        first_index_facts((i + 1) as nat, all.len(), stopping);
                    }
                    return Err(CropsRejection::TooLong(entries[i].id.clone()));
                },
                Verdict::Checked(Some(problem)) => {
                    proof {
                        assert(faulty(i as nat));
                        assert(stopping(i as nat));
                        assert(first_index((i + 1) as nat, stopping) == Some(i as nat));
                        first_index_facts((i + 1) as nat, all.len(), stopping);
                        first_index_facts(i as nat, i as nat, stopping);
                        assert forall|j: nat| j < i implies !#[trigger] faulty(j) by {
                            assert(!stopping(j));
                        }
                        first_index_none(i as nat, faulty);
                        assert(first_index((i + 1) as nat, faulty) == Some(i as nat));
                        first_index_facts((i + 1) as nat, all.len(), faulty);
                    }
                    return Err(CropsRejection::Problem(problem));
                },
                Verdict::Checked(None) => {
                    proof {
                        assert(!stopping(i as nat));
                    }
                },
            }
            keys.push(entries[i].id.clone());
            i = i + 1;
        }
        proof {
            assert(texts(keys@) =~= crop_keys(all));
            first_index_facts(all.len(), all.len(), stopping);
            assert forall|j: nat| j < all.len() implies !#[trigger] faulty(j) by {
                assert(!stopping(j));
            }
            first_index_none(all.len(), faulty);
        }
        let ghost lonely = unplanted(texts(items.keys@), items.definitions@, all);
        let mut k: usize = 0;
        while k < items.definitions.len()
            invariant
                k <= items.definitions@.len(),
                all == entries@,
                all == self.crops@,
                first_index(all.len(), faulty) is None,
                first_index(all.len(), stopping) is None,
                faulty == faulty_crop(texts(items.keys@), items.definitions@, all),
                stopping == stopping_crop(texts(items.keys@), items.definitions@, all),
                lonely == unplanted(texts(items.keys@), items.definitions@, all),
                first_index(k as nat, lonely) is None,
            decreases items.definitions@.len() - k,
        {
            if is_unplanted(items, &entries, k) {
                proof {
                    first_index_facts((k + 1) as nat, items.definitions@.len(), lonely);
                }
                return Err(CropsRejection::Problem(Problem::UnplantedSeed(items.definitions[k].key.clone())));
            }
            k = k + 1;
        }
        let mut definitions: Vec<CropDef> = Vec::new();
        let mut n: usize = 0;
        while entries.len() > 0
            invariant
                all == self.crops@,
                all.len() <= MAX_DEFINITIONS,
                items.wf(),
                n <= all.len(),
                entries@ == all.skip(n as int),
                first_index(all.len(), faulty) is None,
                first_index(all.len(), stopping) is None,
                stopping == stopping_crop(texts(items.keys@), items.definitions@, all),
                faulty == faulty_crop(texts(items.keys@), items.definitions@, all),
                definitions@ == all.take(n as int).map_values(|entry: CropEntry| crop_def(texts(items.keys@), entry)),
            decreases entries.len(),
        {
            let entry = entries.remove(0);
            proof {
                assert(entry == all[n as int]);
                first_index_facts(all.len(), all.len(), faulty);
                assert(!faulty(n as nat));
            }
            let seeds = position(&items.keys, entry.seeds.as_str());
            let produce = position(&items.keys, entry.produce.as_str());
            let definition = CropDef {
                key: entry.id,
                name: entry.name,
                seeds: ItemId(seeds.unwrap() as u16),
                produce: ItemId(produce.unwrap() as u16),
                seasons: entry.seasons,
                stages: entry.stages,
                regrows_after: entry.regrows_after,
                harvest: entry.harvest,
                color: entry.color,
                models: entry.models,
                produce_shown: entry.produce_shown,
            };
            definitions.push(definition);
            proof {
                assert(all.skip(n as int).drop_first() =~= all.skip(n + 1));
                assert(all.take(n + 1).map_values(|entry: CropEntry| crop_def(texts(items.keys@), entry))
                    =~= all.take(n as int).map_values(|entry: CropEntry| crop_def(texts(items.keys@), entry)).push(
                    crop_def(texts(items.keys@), all[n as int])));
            }
            n = n + 1;
        }
        proof {
            assert(all.take(n as int) =~= all);
        }
        Ok(Crops { definitions, keys })
    }
}

} // verus!
