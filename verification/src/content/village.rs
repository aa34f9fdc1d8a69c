//! The village file: where the shops' stalls and the village's buildings
//! stand around the square.

use vstd::prelude::*;

use crate::content::error::{Problem, VillageFault};
use crate::content::item::MAX_DEFINITIONS;
use crate::content::lookup::{
    first_index, first_index_facts, first_where, first_where_finds_the_first, first_where_prefix,
    first_where_step, position, position_of, texts,
};
use crate::content::number::Number;
use crate::content::shop::ShopId;
use crate::content::structure::{Placement, StructureId};

verus! {

/// Where a shop trades: the middle of its counter, and the way the counter
/// faces, in radians, as a heading.
#[derive(Clone, Copy, Debug, PartialEq, Eq)]
pub struct Stall {
    pub shop: ShopId,
    pub at: (Number, Number),
    pub turn: Number,
}

/// The village's layout, relative to the middle of its square.
#[derive(Debug, PartialEq, Eq)]
pub struct Village {
    pub stalls: Vec<Stall>,
    pub structures: Vec<Placement>,
}

/// Something placed in the village, as written in the village file: a
/// shop's stall or a structure, by id, turned in radians.
#[derive(Debug, PartialEq, Eq)]
pub struct PlaceEntry {
    pub id: String,
    pub at: (Number, Number),
    pub turn: Number,
}

/// The village file as written.
#[derive(Debug, PartialEq, Eq)]
pub struct VillageFile {
    pub stalls: Vec<PlaceEntry>,
    pub structures: Vec<PlaceEntry>,
}

/// Whether `place` names nothing among `keys`.
pub open spec fn unknown_place(keys: Seq<Seq<char>>) -> spec_fn(PlaceEntry) -> bool {
    |place: PlaceEntry| position_of(keys, place.id@) is None
}

/// How many of `stalls` belong to the shop at position `shop` among
/// `keys`.
pub open spec fn stall_count(keys: Seq<Seq<char>>, stalls: Seq<PlaceEntry>, shop: nat) -> nat
    decreases stalls.len(),
{
    if stalls.len() == 0 {
        0
    } else {
        stall_count(keys, stalls.drop_last(), shop) + if position_of(keys, stalls.last().id@) == Some(shop) {
            1nat
        } else {
            0nat
        }
    }
}

/// Whether the shop at position `shop` has other than one stall.
pub open spec fn miscounted(keys: Seq<Seq<char>>, stalls: Seq<PlaceEntry>) -> spec_fn(nat) -> bool {
    |shop: nat| stall_count(keys, stalls, shop) != 1
}

/// The first problem of the village file, given the keys of the shops and
/// of the structures: the first stall of an unknown shop, the first
/// unknown structure, then the first shop without exactly one stall.
pub open spec fn village_problem(shops: Seq<String>, structures: Seq<String>, file: VillageFile) -> Option<Problem> {
    if first_where(file.stalls@, unknown_place(texts(shops))) is Some {
        Some(Problem::InvalidVillage(VillageFault::UnknownShop(
            file.stalls@[first_where(file.stalls@, unknown_place(texts(shops))).unwrap() as int].id,
        )))
    } else if first_where(file.structures@, unknown_place(texts(structures))) is Some {
        Some(Problem::InvalidVillage(VillageFault::UnknownStructure(
            file.structures@[first_where(file.structures@, unknown_place(texts(structures))).unwrap() as int].id,
        )))
    } else if first_index(shops.len(), miscounted(texts(shops), file.stalls@)) is Some {
        let shop = first_index(shops.len(), miscounted(texts(shops), file.stalls@)).unwrap();
        Some(Problem::InvalidVillage(VillageFault::StallCount(shops[shop as int])))
    } else {
        None
    }
}

/// The first of `places` that names nothing among `keys`.
fn unknown_of(keys: &Vec<String>, places: &Vec<PlaceEntry>) -> (unknown: Option<usize>)
    ensures
        unknown is None <==> first_where(places@, unknown_place(texts(keys@))) is None,
        unknown matches Some(i) ==> first_where(places@, unknown_place(texts(keys@))) == Some(i as nat) && i < places@.len(),
{
    let ghost known = texts(keys@);
    let mut i: usize = 0;
    while i < places.len()
        invariant
            i <= places@.len(),
            known == texts(keys@),
            first_where(places@.take(i as int), unknown_place(known)) is None,
        decreases places@.len() - i,
    {
        proof {
            first_where_step(places@, unknown_place(known), i as nat);
        }
        if position(keys, places[i].id.as_str()).is_none() {
            proof {
                first_where_prefix(places@, unknown_place(known), (i + 1) as nat);
            }
            return Some(i);
        }
        i = i + 1;
    }
    proof {
        first_where_prefix(places@, unknown_place(known), i as nat);
    }
    None
}

/// Where each of `places` stands, all of them known among `keys`.
fn placements(keys: &Vec<String>, places: &Vec<PlaceEntry>) -> (placed: Vec<(usize, (Number, Number), Number)>)
    requires
        first_where(places@, unknown_place(texts(keys@))) is None,
    ensures
        placed@.len() == places@.len(),
        forall|i: int| 0 <= i < places@.len() ==> #[trigger] placed@[i] == (
            position_of(texts(keys@), places@[i].id@).unwrap() as usize,
            places@[i].at,
            places@[i].turn,
        ) && position_of(texts(keys@), places@[i].id@).unwrap() < keys@.len(),
{
    let ghost known = texts(keys@);
    proof {
        first_where_finds_the_first(places@, unknown_place(known));
    }
    let mut placed: Vec<(usize, (Number, Number), Number)> = Vec::new();
    let mut i: usize = 0;
    while i < places.len()
        invariant
            i <= places@.len(),
            known == texts(keys@),
            forall|j: int| 0 <= j < places@.len() ==> !unknown_place(known)(#[trigger] places@[j]),
            placed@.len() == i,
            forall|j: int| 0 <= j < i ==> #[trigger] placed@[j] == (
                position_of(known, places@[j].id@).unwrap() as usize,
                places@[j].at,
                places@[j].turn,
            ) && position_of(known, places@[j].id@).unwrap() < keys@.len(),
        decreases places@.len() - i,
    {
        assert(!unknown_place(known)(places@[i as int]));
        let at = position(keys, places[i].id.as_str()).unwrap();
        placed.push((at, places[i].at, places[i].turn));
        i = i + 1;
    }
    placed
}

/// How many of `stalls` belong to the shop at position `shop`.
fn count_stalls(keys: &Vec<String>, stalls: &Vec<PlaceEntry>, shop: usize) -> (count: usize)
    ensures
        count == stall_count(texts(keys@), stalls@, shop as nat),
{
    let ghost known = texts(keys@);
    let mut count: usize = 0;
    let mut i: usize = 0;
    while i < stalls.len()
        invariant
            i <= stalls@.len(),
            known == texts(keys@),
            count == stall_count(known, stalls@.take(i as int), shop as nat),
            count <= i,
        decreases stalls@.len() - i,
    {
        proof {
            assert(stalls@.take(i + 1).drop_last() =~= stalls@.take(i as int));
        }
        match position(keys, stalls[i].id.as_str()) {
            Some(at) => if at == shop {
                count = count + 1;
            },
            None => {},
        }
        i = i + 1;
    }
    proof {
        assert(stalls@.take(i as int) =~= stalls@);
    }
    count
}

impl VillageFile {
    /// Resolves the shops and structures placed in the village, and checks
    /// that every shop has exactly one stall.
    pub fn resolve(self, shops: &Vec<String>, structures: &Vec<String>) -> (resolved: Result<Village, Problem>)
        requires
            shops@.len() <= MAX_DEFINITIONS,
            structures@.len() <= MAX_DEFINITIONS,
        ensures
            resolved is Err <==> village_problem(shops@, structures@, self) is Some,
            resolved matches Err(problem) ==> village_problem(shops@, structures@, self) == Some(problem),
            resolved matches Ok(village) ==> {
                &&& village.stalls@ == self.stalls@.map_values(|place: PlaceEntry| Stall {
                    shop: ShopId(position_of(texts(shops@), place.id@).unwrap() as u16),
                    at: place.at,
                    turn: place.turn,
                })
                &&& village.structures@ == self.structures@.map_values(|place: PlaceEntry| Placement {
                    structure: StructureId(position_of(texts(structures@), place.id@).unwrap() as u16),
                    at: place.at,
                    turn: place.turn,
                })
            },
    {
        if let Some(i) = unknown_of(shops, &self.stalls) {
            return Err(Problem::InvalidVillage(VillageFault::UnknownShop(self.stalls[i].id.clone())));
        }
        if let Some(i) = unknown_of(structures, &self.structures) {
            return Err(Problem::InvalidVillage(VillageFault::UnknownStructure(self.structures[i].id.clone())));
        }
        let ghost shop_keys = texts(shops@);
        let ghost wrong = miscounted(shop_keys, self.stalls@);
        let mut k: usize = 0;
        while k < shops.len()
            invariant
                k <= shops@.len(),
                shop_keys == texts(shops@),
                wrong == miscounted(shop_keys, self.stalls@),
                first_where(self.stalls@, unknown_place(shop_keys)) is None,
                first_where(self.structures@, unknown_place(texts(structures@))) is None,
                first_index(k as nat, wrong) is None,
            decreases shops@.len() - k,
        {
            if count_stalls(shops, &self.stalls, k) != 1 {
                proof {
                    first_index_facts((k + 1) as nat, shops@.len(), wrong);
                }
                return Err(Problem::InvalidVillage(VillageFault::StallCount(shops[k].clone())));
            }
            k = k + 1;
        }
        let placed = placements(shops, &self.stalls);
        let mut stalls: Vec<Stall> = Vec::new();
        let mut i: usize = 0;
        while i < placed.len()
            invariant
                i <= placed@.len(),
                placed@.len() == self.stalls@.len(),
                shops@.len() <= MAX_DEFINITIONS,
                forall|j: int| 0 <= j < self.stalls@.len() ==> #[trigger] placed@[j] == (
                    position_of(texts(shops@), self.stalls@[j].id@).unwrap() as usize,
                    self.stalls@[j].at,
                    self.stalls@[j].turn,
                ) && position_of(texts(shops@), self.stalls@[j].id@).unwrap() < shops@.len(),
                stalls@ == self.stalls@.take(i as int).map_values(|place: PlaceEntry| Stall {
                    shop: ShopId(position_of(texts(shops@), place.id@).unwrap() as u16),
                    at: place.at,
                    turn: place.turn,
                }),
            decreases placed@.len() - i,
        {
            let (at_shop, at, turn) = placed[i];
            stalls.push(Stall { shop: ShopId(at_shop as u16), at, turn });
            proof {
                assert(self.stalls@.take(i + 1).map_values(|place: PlaceEntry| Stall {
                    shop: ShopId(position_of(texts(shops@), place.id@).unwrap() as u16),
                    at: place.at,
                    turn: place.turn,
                }) =~= self.stalls@.take(i as int).map_values(|place: PlaceEntry| Stall {
                    shop: ShopId(position_of(texts(shops@), place.id@).unwrap() as u16),
                    at: place.at,
                    turn: place.turn,
                }).push(Stall { shop: ShopId(at_shop as u16), at, turn }));
            }
            i = i + 1;
        }
        proof {
            assert(self.stalls@.take(i as int) =~= self.stalls@);
        }
        let placed = placements(structures, &self.structures);
        let mut structures_placed: Vec<Placement> = Vec::new();
        let mut i: usize = 0;
        while i < placed.len()
            invariant
                i <= placed@.len(),
                placed@.len() == self.structures@.len(),
                structures@.len() <= MAX_DEFINITIONS,
                forall|j: int| 0 <= j < self.structures@.len() ==> #[trigger] placed@[j] == (
                    position_of(texts(structures@), self.structures@[j].id@).unwrap() as usize,
                    self.structures@[j].at,
                    self.structures@[j].turn,
                ) && position_of(texts(structures@), self.structures@[j].id@).unwrap() < structures@.len(),
                structures_placed@ == self.structures@.take(i as int).map_values(|place: PlaceEntry| Placement {
                    structure: StructureId(position_of(texts(structures@), place.id@).unwrap() as u16),
                    at: place.at,
                    turn: place.turn,
                }),
            decreases placed@.len() - i,
        {
            let (at_structure, at, turn) = placed[i];
            structures_placed.push(Placement { structure: StructureId(at_structure as u16), at, turn });
            proof {
                assert(self.structures@.take(i + 1).map_values(|place: PlaceEntry| Placement {
                    structure: StructureId(position_of(texts(structures@), place.id@).unwrap() as u16),
                    at: place.at,
                    turn: place.turn,
                }) =~= self.structures@.take(i as int).map_values(|place: PlaceEntry| Placement {
                    structure: StructureId(position_of(texts(structures@), place.id@).unwrap() as u16),
                    at: place.at,
                    turn: place.turn,
                }).push(Placement { structure: StructureId(at_structure as u16), at, turn }));
            }
            i = i + 1;
        }
        proof {
            assert(self.structures@.take(i as int) =~= self.structures@);
        }
        Ok(Village { stalls, structures: structures_placed })
    }
}

} // verus!
