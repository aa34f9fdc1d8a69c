//! Which item digging each material of the terrain yields.

use vstd::prelude::*;

use crate::content::error::Problem;
use crate::content::item::{ItemDef, ItemId, ItemKind, MAX_DEFINITIONS};
use crate::content::material::{Material, all_materials};

verus! {

/// The position of `material` among all materials.
pub open spec fn material_index(material: Material) -> nat {
    match material {
        Material::Grass => 0,
        Material::Soil => 1,
        Material::Stone => 2,
        Material::Sand => 3,
    }
}

/// The materials that the item at position `index`, defined as
/// `definition`, is dug from, each with that position.
pub open spec fn claims_of(definition: ItemDef, index: nat) -> Seq<(Material, nat)> {
    match definition.kind {
        ItemKind::Terrain { materials } => materials@.map_values(|material: Material| (material, index)),
        _ => Seq::empty(),
    }
}

/// Every material that an item among `definitions` is dug from, with the
/// item's position, in the order the items and their materials are listed.
pub open spec fn claims(definitions: Seq<ItemDef>) -> Seq<(Material, nat)>
    decreases definitions.len(),
{
    if definitions.len() == 0 {
        Seq::empty()
    } else {
        claims(definitions.drop_last()) + claims_of(
            definitions.last(),
            (definitions.len() - 1) as nat,
        )
    }
}

/// The first position among `claims` where `material` is claimed.
pub open spec fn claim_of(claims: Seq<(Material, nat)>, material: Material) -> Option<nat>
    decreases claims.len(),
{
    if claims.len() == 0 {
        None
    } else {
        match claim_of(claims.drop_last(), material) {
            Some(i) => Some(i),
            None => if claims.last().0 == material {
                Some((claims.len() - 1) as nat)
            } else {
                None
            },
        }
    }
}

/// The first position among `claims` that claims a material claimed before.
pub open spec fn second_claim(claims: Seq<(Material, nat)>) -> Option<nat>
    decreases claims.len(),
{
    if claims.len() == 0 {
        None
    } else {
        match second_claim(claims.drop_last()) {
            Some(i) => Some(i),
            None => if claim_of(claims.drop_last(), claims.last().0) is Some {
                Some((claims.len() - 1) as nat)
            } else {
                None
            },
        }
    }
}

/// The item position that claims `material` first, if any does.
pub open spec fn owner(claims: Seq<(Material, nat)>, material: Material) -> Option<nat> {
    match claim_of(claims, material) {
        Some(i) => Some(claims[i as int].1),
        None => None,
    }
}

/// The first material, in order, that no item is dug as.
pub open spec fn first_unclaimed(claims: Seq<(Material, nat)>) -> Option<Material> {
    if owner(claims, Material::Grass) is None {
        Some(Material::Grass)
    } else if owner(claims, Material::Soil) is None {
        Some(Material::Soil)
    } else if owner(claims, Material::Stone) is None {
        Some(Material::Stone)
    } else if owner(claims, Material::Sand) is None {
        Some(Material::Sand)
    } else {
        None
    }
}

/// What is wrong with which items the materials are dug as, if anything: a
/// material dug as two items, naming the first two, then a material no item
/// is dug as.
pub open spec fn digging_problem(definitions: Seq<ItemDef>) -> Option<Problem> {
    let claims = claims(definitions);
    match second_claim(claims) {
        Some(k) => {
            let material = claims[k as int].0;
            let first = claims[claim_of(claims, material).unwrap() as int].1;
            Some(
                Problem::AmbiguousMaterial {
                    material,
                    first: definitions[first as int].key,
                    second: definitions[claims[k as int].1 as int].key,
                },
            )
        },
        None => match first_unclaimed(claims) {
            Some(material) => Some(Problem::UndiggableMaterial(material)),
            None => None,
        },
    }
}

proof fn claim_step(claims: Seq<(Material, nat)>, next: (Material, nat), material: Material)
    ensures
        claim_of(claims.push(next), material) == (match claim_of(claims, material) {
            Some(i) => Some(i),
            None => if next.0 == material {
                Some(claims.len())
            } else {
                None
            },
        }),
        second_claim(claims.push(next)) == (match second_claim(claims) {
            Some(i) => Some(i),
            None => if claim_of(claims, next.0) is Some {
                Some(claims.len())
            } else {
                None
            },
        }),
{
    assert(claims.push(next).drop_last() =~= claims);
}

proof fn claim_of_in_prefix(claims: Seq<(Material, nat)>, more: Seq<(Material, nat)>, material: Material)
    requires
        claim_of(claims, material) is Some,
    ensures
        claim_of(claims + more, material) == claim_of(claims, material),
        claim_of(claims, material).unwrap() < claims.len(),
    decreases more.len(),
{
    if more.len() == 0 {
        assert(claims + more =~= claims);
        claim_of_bounded(claims, material);
    } else {
        claim_of_in_prefix(claims, more.drop_last(), material);
        assert((claims + more).drop_last() =~= claims + more.drop_last());
    }
}

proof fn claim_of_bounded(claims: Seq<(Material, nat)>, material: Material)
    ensures
        claim_of(claims, material) matches Some(i) ==> i < claims.len() && claims[i as int].0
            == material,
    decreases claims.len(),
{
    if claims.len() > 0 {
        claim_of_bounded(claims.drop_last(), material);
    }
}

proof fn second_claim_in_prefix(claims: Seq<(Material, nat)>, more: Seq<(Material, nat)>)
    requires
        second_claim(claims) is Some,
    ensures
        second_claim(claims + more) == second_claim(claims),
    decreases more.len(),
{
    if more.len() == 0 {
        assert(claims + more =~= claims);
    } else {
        second_claim_in_prefix(claims, more.drop_last());
        assert((claims + more).drop_last() =~= claims + more.drop_last());
    }
}

proof fn claims_step(definitions: Seq<ItemDef>, i: int)
    requires
        0 <= i < definitions.len(),
    ensures
        claims(definitions.take(i + 1)) == claims(definitions.take(i)) + claims_of(
            definitions[i],
            i as nat,
        ),
{
    assert(definitions.take(i + 1).drop_last() =~= definitions.take(i));
}

/// Whether `definition` is a terrain item that lists `material`.
pub open spec fn lists_material(definition: ItemDef, material: Material) -> bool {
    definition.kind matches ItemKind::Terrain { materials } && materials@.contains(material)
}

/// Whether the item `id` among `definitions` is the one terrain item dug as
/// `material`: it lists the material, and no other item does.
pub open spec fn dug_as(definitions: Seq<ItemDef>, id: ItemId, material: Material) -> bool {
    &&& (id.0 as int) < definitions.len()
    &&& lists_material(definitions[id.0 as int], material)
    &&& forall|k: int| 0 <= k < definitions.len() && lists_material(#[trigger] definitions[k], material)
        ==> k == id.0
}

/// A material that no earlier claim names is claimed nowhere before.
proof fn unclaimed_before(claims: Seq<(Material, nat)>, material: Material)
    requires
        claim_of(claims, material) is None,
    ensures
        forall|a: int| 0 <= a < claims.len() ==> (#[trigger] claims[a]).0 != material,
    decreases claims.len(),
{
    if claims.len() > 0 {
        unclaimed_before(claims.drop_last(), material);
        assert forall|a: int| 0 <= a < claims.len() implies (#[trigger] claims[a]).0 != material by {
            if a < claims.len() - 1 {
                assert(claims[a] == claims.drop_last()[a]);
            }
        }
    }
}

/// Without a second claim, no two claims name the same material.
proof fn claims_differ(claims: Seq<(Material, nat)>)
    requires
        second_claim(claims) is None,
    ensures
        forall|a: int, b: int| 0 <= a < b < claims.len() ==> (#[trigger] claims[a]).0 != (
        #[trigger] claims[b]).0,
    decreases claims.len(),
{
    if claims.len() > 0 {
        let init = claims.drop_last();
        claims_differ(init);
        unclaimed_before(init, claims.last().0);
        assert forall|a: int, b: int| 0 <= a < b < claims.len() implies (#[trigger] claims[a]).0 != (
        #[trigger] claims[b]).0 by {
            assert(claims[a] == init[a]);
            if b < claims.len() - 1 {
                assert(claims[b] == init[b]);
            }
        }
    }
}

/// Every material a terrain item lists is claimed for that item.
proof fn listed_is_claimed(definitions: Seq<ItemDef>, k: int, material: Material)
    requires
        0 <= k < definitions.len(),
        lists_material(definitions[k], material),
    ensures
        exists|c: int| 0 <= c < claims(definitions).len() && #[trigger] claims(definitions)[c] == (material, k as nat),
    decreases definitions.len(),
{
    let init = definitions.drop_last();
    let n = (definitions.len() - 1) as nat;
    if k < n {
        listed_is_claimed(init, k, material);
        let c = choose|c: int| 0 <= c < claims(init).len() && #[trigger] claims(init)[c] == (material, k as nat);
        assert(init[k] == definitions[k]);
        assert(claims(definitions)[c] == claims(init)[c]);
    } else {
        match definitions.last().kind {
            ItemKind::Terrain { materials } => {
                let j = choose|j: int| 0 <= j < materials@.len() && materials@[j] == material;
                let c = claims(init).len() + j;
                assert(claims(definitions)[c] == claims_of(definitions.last(), n)[j]);
            },
            _ => {},
        }
    }
}

/// Every claim names a terrain item among `definitions` that lists the
/// claimed material.
proof fn claims_name_terrain(definitions: Seq<ItemDef>)
    ensures
        forall|k: int| 0 <= k < claims(definitions).len() ==> {
            let claim = #[trigger] claims(definitions)[k];
            &&& claim.1 < definitions.len()
            &&& definitions[claim.1 as int].kind matches ItemKind::Terrain { materials } && materials@.contains(claim.0)
        },
    decreases definitions.len(),
{
    if definitions.len() > 0 {
        let init = definitions.drop_last();
        let n = (definitions.len() - 1) as nat;
        claims_name_terrain(init);
        let mine = claims_of(definitions.last(), n);
        assert forall|k: int| 0 <= k < claims(definitions).len() implies {
            let claim = #[trigger] claims(definitions)[k];
            &&& claim.1 < definitions.len()
            &&& definitions[claim.1 as int].kind matches ItemKind::Terrain { materials } && materials@.contains(claim.0)
        } by {
            if k < claims(init).len() {
                assert(claims(definitions)[k] == claims(init)[k]);
                assert(init[claims(init)[k].1 as int] == definitions[claims(init)[k].1 as int]);
            } else {
                let j = k - claims(init).len();
                assert(claims(definitions)[k] == mine[j]);
                match definitions.last().kind {
                    ItemKind::Terrain { materials } => {
                        assert(mine[j] == (materials@[j], n));
                        assert(materials@.contains(materials@[j]));
                    },
                    _ => {},
                }
            }
        }
    }
}

/// The slot of `material` among all materials.
fn slot(material: Material) -> (index: usize)
    ensures
        index == material_index(material),
{
    match material {
        Material::Grass => 0,
        Material::Soil => 1,
        Material::Stone => 2,
        Material::Sand => 3,
    }
}

/// Maps every terrain material to the one item digging it yields: the
/// result holds, for each material in order, the item dug as it.
pub fn dug_items(definitions: &Vec<ItemDef>) -> (dug: Result<Vec<ItemId>, Problem>)
    requires
        definitions@.len() <= MAX_DEFINITIONS,
    ensures
        dug is Err <==> digging_problem(definitions@) is Some,
        dug matches Err(problem) ==> digging_problem(definitions@) == Some(problem),
        dug matches Ok(dug) ==> dug@.len() == 4 && forall|material: Material| #[trigger] dug@[material_index(material) as int]
            == ItemId(owner(claims(definitions@), material).unwrap() as u16),
        dug matches Ok(dug) ==> forall|material: Material| dug_as(definitions@, #[trigger] dug@[material_index(material) as int], material),
{
    let mut owners: Vec<Option<u16>> = vec![None, None, None, None];
    let ghost mut seen: Seq<(Material, nat)> = Seq::empty();
    let mut i: usize = 0;
    while i < definitions.len()
        invariant
            i <= definitions@.len() <= MAX_DEFINITIONS,
            seen == claims(definitions@.take(i as int)),
            second_claim(seen) is None,
            owners@.len() == 4,
            forall|material: Material| #[trigger] owners@[material_index(material) as int] == (match owner(seen, material) {
                Some(k) => Some(k as u16),
                None => None,
            }),
            forall|k: int| 0 <= k < seen.len() ==> #[trigger] seen[k].1 < i,
        decreases definitions@.len() - i,
    {
        proof {
            claims_step(definitions@, i as int);
        }
        let ghost before = seen;
        if let ItemKind::Terrain { materials } = &definitions[i].kind {
            let ghost mine = claims_of(definitions@[i as int], i as nat);
            assert(mine == materials@.map_values(|material: Material| (material, i as nat)));
            let mut j: usize = 0;
            while j < materials.len()
                invariant
                    i < definitions@.len() <= MAX_DEFINITIONS,
                    j <= materials@.len(),
                    mine == materials@.map_values(|material: Material| (material, i as nat)),
                    before == claims(definitions@.take(i as int)),
                    claims(definitions@.take(i + 1)) == before + mine,
                    seen == before + mine.take(j as int),
                    second_claim(seen) is None,
                    owners@.len() == 4,
                    forall|material: Material| #[trigger] owners@[material_index(material) as int] == (match owner(seen, material) {
                        Some(k) => Some(k as u16),
                        None => None,
                    }),
                    forall|k: int| 0 <= k < seen.len() ==> #[trigger] seen[k].1 <= i,
                decreases materials@.len() - j,
            {
                let material = materials[j];
                let s = slot(material);
                proof {
                    assert(mine.take(j + 1) =~= mine.take(j as int).push((material, i as nat)));
                    assert(before + mine.take(j + 1) =~= seen.push((material, i as nat)));
                    claim_step(seen, (material, i as nat), material);
                }
                if let Some(first) = owners[s] {
                    proof {
                        let next = seen.push((material, i as nat));
                        assert(second_claim(next) == Some(seen.len()));
                        assert(claims(definitions@.take(i + 1)) == next + mine.skip(j + 1)) by {
                            assert(mine =~= mine.take(j + 1) + mine.skip(j + 1));
                        }
                        second_claim_in_prefix(next, mine.skip(j + 1));
                        claims_in_prefix_of_all(definitions@, (i + 1) as nat);
                        second_claim_in_prefix(claims(definitions@.take(i + 1)), claims_after(definitions@, (i + 1) as nat));
                        claim_of_bounded(seen, material);
                        claim_of_in_prefix(seen, seq![(material, i as nat)] + mine.skip(j + 1) + claims_after(definitions@, (i + 1) as nat), material);
                        assert(claims(definitions@) =~= seen + (seq![(material, i as nat)] + mine.skip(j + 1) + claims_after(definitions@, (i + 1) as nat)));
                        assert(claims(definitions@)[seen.len() as int] == (material, i as nat));
                    }
                    return Err(
                        Problem::AmbiguousMaterial {
                            material,
                            first: definitions[first as usize].key.clone(),
                            second: definitions[i].key.clone(),
                        },
                    );
                }
                owners.set(s, Some(i as u16));
                proof {
                    seen = seen.push((material, i as nat));
                    assert forall|m: Material| #[trigger] owners@[material_index(m) as int] == (match owner(seen, m) {
                        Some(k) => Some(k as u16),
                        None => None,
                    }) by {
                        claim_step(before + mine.take(j as int), (material, i as nat), m);
                        claim_of_bounded(seen, m);
                    }
                }
                j = j + 1;
            }
            proof {
                assert(mine.take(materials@.len() as int) =~= mine);
            }
        } else {
            proof {
                assert(claims_of(definitions@[i as int], i as nat) =~= Seq::<(Material, nat)>::empty());
                assert(seen + Seq::<(Material, nat)>::empty() =~= seen);
            }
        }
        i = i + 1;
    }
    proof {
        assert(definitions@.take(i as int) =~= definitions@);
    }
    let all = Material::all();
    let mut dug: Vec<ItemId> = Vec::new();
    let mut k: usize = 0;
    while k < 4
        invariant
            all@ == all_materials(),
            seen == claims(definitions@),
            second_claim(seen) is None,
            owners@.len() == 4,
            forall|material: Material| #[trigger] owners@[material_index(material) as int] == (match owner(seen, material) {
                Some(n) => Some(n as u16),
                None => None,
            }),
            k <= 4,
            dug@.len() == k,
            forall|n: int| 0 <= n < k ==> owner(seen, all_materials()[n]) is Some,
            forall|n: int| 0 <= n < k ==> #[trigger] dug@[n] == ItemId(owner(seen, all_materials()[n]).unwrap() as u16),
        decreases 4 - k,
    {
        let material = all[k];
        assert(material_index(material) == k);
        match owners[slot(material)] {
            Some(owner_index) => dug.push(ItemId(owner_index)),
            None => {
                proof {
                    assert(forall|n: int| 0 <= n < 4 ==> material_index(#[trigger] all_materials()[n]) == n);
                }
                return Err(Problem::UndiggableMaterial(material));
            },
        }
        k = k + 1;
    }
    proof {
        assert forall|material: Material| #[trigger] dug@[material_index(material) as int]
            == ItemId(owner(claims(definitions@), material).unwrap() as u16) by {
            assert(all_materials()[material_index(material) as int] == material);
        }
        claims_name_terrain(definitions@);
        claims_differ(seen);
        assert forall|material: Material| dug_as(definitions@, #[trigger] dug@[material_index(material) as int], material) by {
            assert(all_materials()[material_index(material) as int] == material);
            claim_of_bounded(seen, material);
            let c = claim_of(seen, material).unwrap();
            assert(seen[c as int].0 == material);
            assert forall|k: int| 0 <= k < definitions@.len() && lists_material(#[trigger] definitions@[k], material)
                implies k == dug@[material_index(material) as int].0 by {
                listed_is_claimed(definitions@, k, material);
                let d = choose|d: int| 0 <= d < seen.len() && #[trigger] seen[d] == (material, k as nat);
                if d < c {
                    assert(seen[d].0 == seen[c as int].0);
                } else if d > c {
                    assert(seen[c as int].0 == seen[d].0);
                }
            }
        }
    }
    Ok(dug)
}

/// The claims of the items after the first `n`.
pub open spec fn claims_after(definitions: Seq<ItemDef>, n: nat) -> Seq<(Material, nat)>
    decreases definitions.len() - n,
{
    if n >= definitions.len() {
        Seq::empty()
    } else {
        claims_of(definitions[n as int], n) + claims_after(definitions, n + 1)
    }
}

proof fn claims_in_prefix_of_all(definitions: Seq<ItemDef>, n: nat)
    requires
        n <= definitions.len(),
    ensures
        claims(definitions) == claims(definitions.take(n as int)) + claims_after(definitions, n),
    decreases definitions.len() - n,
{
    if n == definitions.len() {
        assert(definitions.take(n as int) =~= definitions);
        assert(claims(definitions) + Seq::<(Material, nat)>::empty() =~= claims(definitions));
    } else {
        claims_in_prefix_of_all(definitions, n + 1);
        claims_step(definitions, n as int);
        assert(claims(definitions.take(n as int)) + claims_of(definitions[n as int], n)
            + claims_after(definitions, n + 1) =~= claims(definitions.take(n as int)) + (claims_of(
            definitions[n as int],
            n,
        ) + claims_after(definitions, n + 1)));
    }
}

} // verus!
