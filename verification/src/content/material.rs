//! What the terrain is made of.

use vstd::prelude::*;

verus! {

/// A ground material of the terrain.
#[derive(Clone, Copy, Debug, PartialEq, Eq, Hash, Structural)]
pub enum Material {
    Grass,
    Soil,
    Stone,
    Sand,
}

/// Every material, in order.
pub open spec fn all_materials() -> Seq<Material> {
    seq![Material::Grass, Material::Soil, Material::Stone, Material::Sand]
}

/// The name of `material`, as messages give it.
pub open spec fn material_name(material: Material) -> Seq<char> {
    match material {
        Material::Grass => "Grass"@,
        Material::Soil => "Soil"@,
        Material::Stone => "Stone"@,
        Material::Sand => "Sand"@,
    }
}

/// The name the palette gives terrain made of `material`.
pub open spec fn ground_name(material: Material) -> Seq<char> {
    match material {
        Material::Grass => "terrain_grass"@,
        Material::Soil => "terrain_soil"@,
        Material::Stone => "terrain_stone"@,
        Material::Sand => "terrain_sand"@,
    }
}

impl Material {
    /// Every material, in order.
    pub fn all() -> (all: Vec<Material>)
        ensures
            all@ == all_materials(),
    {
        let all = vec![Material::Grass, Material::Soil, Material::Stone, Material::Sand];
        assert(all@ =~= all_materials());
        all
    }

    /// The name of the material, as messages give it.
    pub fn name(self) -> (name: &'static str)
        ensures
            name@ == material_name(self),
    {
        match self {
            Material::Grass => "Grass",
            Material::Soil => "Soil",
            Material::Stone => "Stone",
            Material::Sand => "Sand",
        }
    }

    /// The name the palette gives terrain made of the material.
    pub fn ground_name(self) -> (name: &'static str)
        ensures
            name@ == ground_name(self),
    {
        match self {
            Material::Grass => "terrain_grass",
            Material::Soil => "terrain_soil",
            Material::Stone => "terrain_stone",
            Material::Sand => "terrain_sand",
        }
    }
}

} // verus!
