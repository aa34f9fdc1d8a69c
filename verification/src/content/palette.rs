//! The palette: the colors everything is drawn in, by material name.
//!
//! Models from different art packs name their materials, such as
//! `leafsGreen` or `woodBark`, and the palette gives each name one color, so
//! that all of them look like parts of one world. The terrain's ground
//! materials are colored the same way. Seasons override some colors for part
//! of the year: leaves turn in autumn and grass is under snow in winter.

use vstd::prelude::*;

use crate::calendar::date::Season;
use crate::content::error::Problem;
use crate::content::lookup::{first_where, first_where_finds_the_first, first_where_prefix, first_where_step};
use crate::content::material::{Material, all_materials, ground_name};
use crate::content::number::{Rgb, channels_in_range, is_color};

verus! {

/// Colors by name, as the palette file lists them.
pub type Colors = Vec<(String, Rgb)>;

/// The colors everything is drawn in.
#[derive(Debug, PartialEq, Eq)]
pub struct Palette {
    /// The color of each name.
    pub colors: Colors,
    /// The colors each season changes.
    pub seasons: Vec<(Season, Colors)>,
}

/// The palette file as written: each name and season once.
#[derive(Debug, PartialEq, Eq)]
pub struct PaletteFile {
    pub colors: Colors,
    pub seasons: Vec<(Season, Colors)>,
}

/// Whether the entry `color` is named `name`.
pub open spec fn named(name: Seq<char>) -> spec_fn((String, Rgb)) -> bool {
    |color: (String, Rgb)| color.0@ == name
}

/// The color that `colors` gives `name`, if any.
pub open spec fn color_named(colors: Seq<(String, Rgb)>, name: Seq<char>) -> Option<Rgb> {
    match first_where(colors, named(name)) {
        Some(i) => Some(colors[i as int].1),
        None => None,
    }
}

/// Whether the entry `changes` is for `season`.
pub open spec fn for_season(season: Season) -> spec_fn((Season, Colors)) -> bool {
    |changes: (Season, Colors)| changes.0 == season
}

/// The color of `name` in `season` under `palette`: the season's change if
/// it makes one, else the color all year.
pub open spec fn palette_color(palette: Palette, name: Seq<char>, season: Season) -> Option<Rgb> {
    let changed = match first_where(palette.seasons@, for_season(season)) {
        Some(i) => color_named(palette.seasons@[i as int].1@, name),
        None => None,
    };
    match changed {
        Some(color) => Some(color),
        None => color_named(palette.colors@, name),
    }
}

/// Whether `palette` colors every ground material.
pub open spec fn colors_ground(palette: Palette) -> bool {
    forall|material: Material| #[trigger] color_named(palette.colors@, ground_name(material)) is Some
}

/// Whether a color entry's channels are not all between 0 and 1.
pub open spec fn off_color() -> spec_fn((String, Rgb)) -> bool {
    |color: (String, Rgb)| !is_color(color.1)
}

/// What is wrong with a season's change of color `change`, given the colors
/// all year `colors`, if anything: an unknown name, or a channel outside 0
/// to 1.
pub open spec fn change_problem(colors: Seq<(String, Rgb)>, season: Season, change: (String, Rgb)) -> Option<Problem> {
    if color_named(colors, change.0@) is None {
        Some(Problem::UnknownColor { season, name: change.0 })
    } else if !is_color(change.1) {
        Some(Problem::InvalidColor(change.0))
    } else {
        None
    }
}

/// Whether a season's change of color has a problem.
pub open spec fn faulty_change(colors: Seq<(String, Rgb)>, season: Season) -> spec_fn((String, Rgb)) -> bool {
    |change: (String, Rgb)| change_problem(colors, season, change) is Some
}

/// What is wrong with a season's changes, if anything: their first problem.
pub open spec fn season_problem(colors: Seq<(String, Rgb)>, changes: (Season, Colors)) -> Option<Problem> {
    match first_where(changes.1@, faulty_change(colors, changes.0)) {
        Some(i) => change_problem(colors, changes.0, changes.1@[i as int]),
        None => None,
    }
}

/// Whether a season's changes have a problem.
pub open spec fn faulty_season(colors: Seq<(String, Rgb)>) -> spec_fn((Season, Colors)) -> bool {
    |changes: (Season, Colors)| season_problem(colors, changes) is Some
}

/// The first ground material, in order, that `colors` gives no color.
pub open spec fn uncolored_ground(colors: Seq<(String, Rgb)>) -> Option<Material> {
    if color_named(colors, ground_name(Material::Grass)) is None {
        Some(Material::Grass)
    } else if color_named(colors, ground_name(Material::Soil)) is None {
        Some(Material::Soil)
    } else if color_named(colors, ground_name(Material::Stone)) is None {
        Some(Material::Stone)
    } else if color_named(colors, ground_name(Material::Sand)) is None {
        Some(Material::Sand)
    } else {
        None
    }
}

/// The first problem of the palette file: a color with a channel outside 0
/// to 1, a ground material without a color, then the first season whose
/// changes have a problem.
pub open spec fn palette_problem(file: PaletteFile) -> Option<Problem> {
    if first_where(file.colors@, off_color()) is Some {
        Some(Problem::InvalidColor(file.colors@[first_where(file.colors@, off_color()).unwrap() as int].0))
    } else if uncolored_ground(file.colors@) is Some {
        Some(Problem::UncoloredGround(uncolored_ground(file.colors@).unwrap()))
    } else if first_where(file.seasons@, faulty_season(file.colors@)) is Some {
        season_problem(file.colors@, file.seasons@[first_where(file.seasons@, faulty_season(file.colors@)).unwrap() as int])
    } else {
        None
    }
}

/// The color that `colors` gives `name`.
fn find_color(colors: &Colors, name: &str) -> (color: Option<Rgb>)
    ensures
        color == color_named(colors@, name@),
{
    let wanted = String::from_str(name);
    let mut i: usize = 0;
    while i < colors.len()
        invariant
            i <= colors@.len(),
            wanted@ == name@,
            first_where(colors@.take(i as int), named(name@)) is None,
        decreases colors@.len() - i,
    {
        proof {
            first_where_step(colors@, named(name@), i as nat);
        }
        if colors[i].0 == wanted {
            proof {
                first_where_prefix(colors@, named(name@), (i + 1) as nat);
            }
            return Some(colors[i].1);
        }
        i = i + 1;
    }
    proof {
        first_where_prefix(colors@, named(name@), i as nat);
    }
    None
}

impl Palette {
    /// The color of material `name` in `season`, if the palette has one.
    pub fn color(&self, name: &str, season: Season) -> (color: Option<Rgb>)
        ensures
            color == palette_color(*self, name@, season),
    {
        let mut i: usize = 0;
        while i < self.seasons.len()
            invariant
                i <= self.seasons@.len(),
                first_where(self.seasons@.take(i as int), for_season(season)) is None,
            decreases self.seasons@.len() - i,
        {
            proof {
                first_where_step(self.seasons@, for_season(season), i as nat);
            }
            if self.seasons[i].0 == season {
                proof {
                    first_where_prefix(self.seasons@, for_season(season), (i + 1) as nat);
                }
                if let Some(color) = find_color(&self.seasons[i].1, name) {
                    return Some(color);
                }
                return find_color(&self.colors, name);
            }
            i = i + 1;
        }
        proof {
            first_where_prefix(self.seasons@, for_season(season), i as nat);
        }
        find_color(&self.colors, name)
    }

    /// The color of terrain made of `material` in `season`.
    pub fn ground(&self, material: Material, season: Season) -> (color: Rgb)
        requires
            colors_ground(*self),
        ensures
            Some(color) == palette_color(*self, ground_name(material), season),
    {
        assert(color_named(self.colors@, ground_name(material)) is Some);
        self.color(material.ground_name(), season).unwrap()
    }
}

/// The first problem of a season's changes `changes`.
fn check_season(colors: &Colors, changes: &(Season, Colors)) -> (problem: Option<Problem>)
    ensures
        problem == season_problem(colors@, *changes),
{
    let season = changes.0;
    let mut i: usize = 0;
    while i < changes.1.len()
        invariant
            i <= changes.1@.len(),
            season == changes.0,
            first_where(changes.1@.take(i as int), faulty_change(colors@, season)) is None,
        decreases changes.1@.len() - i,
    {
        proof {
            first_where_step(changes.1@, faulty_change(colors@, season), i as nat);
        }
        let change = &changes.1[i];
        let problem = if find_color(colors, change.0.as_str()).is_none() {
            Some(Problem::UnknownColor { season, name: change.0.clone() })
        } else if !channels_in_range(&change.1) {
            Some(Problem::InvalidColor(change.0.clone()))
        } else {
            None
        };
        if let Some(problem) = problem {
            proof {
                first_where_prefix(changes.1@, faulty_change(colors@, season), (i + 1) as nat);
            }
            return Some(problem);
        }
        i = i + 1;
    }
    proof {
        first_where_prefix(changes.1@, faulty_change(colors@, season), i as nat);
    }
    None
}

impl PaletteFile {
    /// Checks every color and that the ground is colored, and makes the
    /// palette.
    pub fn resolve(self) -> (resolved: Result<Palette, Problem>)
        ensures
            resolved is Err <==> palette_problem(self) is Some,
            resolved matches Err(problem) ==> palette_problem(self) == Some(problem),
            resolved matches Ok(palette) ==> palette.colors == self.colors && palette.seasons
                == self.seasons && colors_ground(palette),
    {
        let mut i: usize = 0;
        while i < self.colors.len()
            invariant
                i <= self.colors@.len(),
                first_where(self.colors@.take(i as int), off_color()) is None,
            decreases self.colors@.len() - i,
        {
            proof {
                first_where_step(self.colors@, off_color(), i as nat);
            }
            if !channels_in_range(&self.colors[i].1) {
                proof {
                    first_where_prefix(self.colors@, off_color(), (i + 1) as nat);
                }
                return Err(Problem::InvalidColor(self.colors[i].0.clone()));
            }
            i = i + 1;
        }
        proof {
            first_where_prefix(self.colors@, off_color(), i as nat);
        }
        let all = Material::all();
        let mut k: usize = 0;
        while k < 4
            invariant
                k <= 4,
                all@ == all_materials(),
                first_where(self.colors@, off_color()) is None,
                forall|n: int| 0 <= n < k ==> color_named(self.colors@, ground_name(#[trigger] all@[n])) is Some,
            decreases 4 - k,
        {
            if find_color(&self.colors, all[k].ground_name()).is_none() {
                return Err(Problem::UncoloredGround(all[k]));
            }
            k = k + 1;
        }
        proof {
            assert(all@[0] == Material::Grass && all@[1] == Material::Soil && all@[2] == Material::Stone
                && all@[3] == Material::Sand);
        }
        let mut i: usize = 0;
        while i < self.seasons.len()
            invariant
                i <= self.seasons@.len(),
                first_where(self.colors@, off_color()) is None,
                uncolored_ground(self.colors@) is None,
                first_where(self.seasons@.take(i as int), faulty_season(self.colors@)) is None,
            decreases self.seasons@.len() - i,
        {
            proof {
                first_where_step(self.seasons@, faulty_season(self.colors@), i as nat);
            }
            if let Some(problem) = check_season(&self.colors, &self.seasons[i]) {
                proof {
                    first_where_prefix(self.seasons@, faulty_season(self.colors@), (i + 1) as nat);
                }
                return Err(problem);
            }
            i = i + 1;
        }
        proof {
            first_where_prefix(self.seasons@, faulty_season(self.colors@), i as nat);
        }
        let palette = Palette { colors: self.colors, seasons: self.seasons };
        proof {
            assert forall|material: Material| #[trigger] color_named(palette.colors@, ground_name(material)) is Some by {
                match material {
                    Material::Grass => {},
                    Material::Soil => {},
                    Material::Stone => {},
                    Material::Sand => {},
                }
            }
        }
        Ok(palette)
    }
}

} // verus!
