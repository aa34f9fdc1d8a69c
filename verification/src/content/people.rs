//! How characters look and move.

use vstd::prelude::*;

use crate::content::error::{CharactersFault, LookFault};
use crate::content::lookup::{first_where, first_where_prefix, first_where_step};
use crate::content::number::{Number, Rgb, channels_in_range, is_color, positive};
use crate::content::paths::{inside_folder, is_inside_folder};

verus! {

/// How someone is dressed: skins laid over each other, relative to the skins
/// folder, and the color the hair is tinted.
#[derive(Debug, PartialEq, Eq)]
pub struct Look {
    pub body: String,
    pub outfit: String,
    pub hair: String,
    pub hair_color: Rgb,
}

/// What is wrong with the look `look`, if anything: the first layer that is
/// not a `.png` file inside the skins folder, or a hair color channel
/// outside 0 to 1.
pub open spec fn look_fault(look: Look) -> Option<LookFault> {
    if !inside_folder(look.body@, ".png"@) {
        Some(LookFault::Skin(look.body))
    } else if !inside_folder(look.outfit@, ".png"@) {
        Some(LookFault::Skin(look.outfit))
    } else if !inside_folder(look.hair@, ".png"@) {
        Some(LookFault::Skin(look.hair))
    } else if !is_color(look.hair_color) {
        Some(LookFault::HairColor)
    } else {
        None
    }
}

impl Look {
    /// The skins laid over each other, from the bottom.
    pub fn layers(&self) -> (layers: Vec<&String>)
        ensures
            layers@ == seq![&self.body, &self.outfit, &self.hair],
    {
        let layers = vec![&self.body, &self.outfit, &self.hair];
        assert(layers@ =~= seq![&self.body, &self.outfit, &self.hair]);
        layers
    }

    /// Checks that every layer is a `.png` file inside the skins folder and
    /// the hair color is a color.
    pub fn validate(&self) -> (checked: Result<(), LookFault>)
        ensures
            checked is Ok <==> look_fault(*self) is None,
            checked matches Err(fault) ==> look_fault(*self) == Some(fault),
    {
        if !is_inside_folder(self.body.as_str(), ".png") {
            return Err(LookFault::Skin(self.body.clone()));
        }
        if !is_inside_folder(self.outfit.as_str(), ".png") {
            return Err(LookFault::Skin(self.outfit.clone()));
        }
        if !is_inside_folder(self.hair.as_str(), ".png") {
            return Err(LookFault::Skin(self.hair.clone()));
        }
        if !channels_in_range(&self.hair_color) {
            return Err(LookFault::HairColor);
        }
        Ok(())
    }
}

/// Where a held item sits in a hand, in the hand's own frame, in figure
/// pixels, and how large held things are drawn.
#[derive(Clone, Copy, Debug, PartialEq, Eq)]
pub struct Grip {
    pub at: (Number, Number, Number),
    /// Turns around x, y and z, in degrees, in that order.
    pub turn: (Number, Number, Number),
    /// Size a held tool is drawn at.
    pub tool_size: Number,
    /// Size anything else held is drawn at.
    pub item_size: Number,
}

/// The names of the animations every character model has, for each thing a
/// character does.
#[derive(Debug, PartialEq, Eq)]
pub struct Animations {
    pub idle: String,
    pub walk: String,
    pub run: String,
    pub jump: String,
    pub fall: String,
    /// Swinging a tool.
    pub swing: String,
    /// Using something with the hands, such as a watering can or a stall.
    pub work: String,
    /// Bending down to the ground, to plant or pick.
    pub pick: String,
    /// Welcoming someone, as shopkeepers do.
    pub greet: String,
}

impl Animations {
    /// Every animation name, in the order the fields are listed.
    pub open spec fn names(self) -> Seq<Seq<char>> {
        seq![self.idle@, self.walk@, self.run@, self.jump@, self.fall@, self.swing@, self.work@, self.pick@, self.greet@]
    }

    /// Every animation name, for checking the models have them.
    pub fn all(&self) -> (names: Vec<&str>)
        ensures
            names@.len() == 9,
            forall|i: int| 0 <= i < 9 ==> #[trigger] names@[i]@ == self.names()[i],
    {
        let names = vec![
            self.idle.as_str(),
            self.walk.as_str(),
            self.run.as_str(),
            self.jump.as_str(),
            self.fall.as_str(),
            self.swing.as_str(),
            self.work.as_str(),
            self.pick.as_str(),
            self.greet.as_str(),
        ];
        names
    }
}

/// A box of a limb: its corner and size in figure pixels, and where on the
/// skin its faces are painted from, in texels.
#[derive(Clone, Copy, Debug, PartialEq, Eq)]
pub struct Cube {
    pub from: (Number, Number, Number),
    pub size: (Number, Number, Number),
    pub uv: (u32, u32),
}

/// A limb of a figure: where it turns, in figure pixels from what it hangs
/// from, and the boxes it is built of.
#[derive(Debug, PartialEq, Eq)]
pub struct Limb {
    pub joint: (Number, Number, Number),
    pub boxes: Vec<Cube>,
}

/// Every limb of a figure.
#[derive(Debug, PartialEq, Eq)]
pub struct Limbs {
    pub body: Limb,
    pub head: Limb,
    pub right_arm: Limb,
    pub left_arm: Limb,
    pub right_leg: Limb,
    pub left_leg: Limb,
    pub right_forearm: Limb,
    pub left_forearm: Limb,
    pub right_shin: Limb,
    pub left_shin: Limb,
}

/// Where on the skin each face a figure makes is painted, in texels.
#[derive(Clone, Copy, Debug, PartialEq, Eq)]
pub struct Expressions {
    pub blink: (u32, u32),
    pub smile: (u32, u32),
    pub surprise: (u32, u32),
    pub effort: (u32, u32),
}

/// What players can be dressed in: skins for each layer, relative to the
/// skins folder, and the colors hair is tinted.
#[derive(Debug, PartialEq, Eq)]
pub struct Wardrobe {
    pub bodies: Vec<String>,
    pub outfits: Vec<String>,
    pub hair: Vec<String>,
    pub hair_colors: Vec<Rgb>,
}

/// How characters look and move: figures of boxes painted from a skin.
#[derive(Debug, PartialEq, Eq)]
pub struct Characters {
    /// Size of a figure pixel, in meters.
    pub pixel: Number,
    /// Texels of the skin to each figure pixel.
    pub texels: u32,
    /// Width and height of every skin, in texels.
    pub skin_size: (u32, u32),
    pub limbs: Limbs,
    pub expressions: Expressions,
    /// Where a held item sits in the hand.
    pub grip: Grip,
    pub wardrobe: Wardrobe,
}

/// Whether `skin` is not a `.png` file inside the skins folder.
pub open spec fn misplaced_skin() -> spec_fn(String) -> bool {
    |skin: String| !inside_folder(skin@, ".png"@)
}

/// The first of `skins` that is not a `.png` file inside the skins folder.
pub open spec fn first_misplaced(skins: Seq<String>) -> Option<String> {
    match first_where(skins, misplaced_skin()) {
        Some(i) => Some(skins[i as int]),
        None => None,
    }
}

/// Every skin of the wardrobe `wardrobe`: the bodies, the outfits, then
/// the hair.
pub open spec fn wardrobe_skins(wardrobe: Wardrobe) -> Seq<String> {
    wardrobe.bodies@ + wardrobe.outfits@ + wardrobe.hair@
}

/// What is wrong with the characters, if anything: a scale that is not
/// above 0, an empty choice in the wardrobe, the first skin that is not a
/// `.png` file inside the skins folder, or a hair color channel outside 0
/// to 1.
pub open spec fn characters_fault(characters: Characters) -> Option<CharactersFault> {
    let wardrobe = characters.wardrobe;
    if !positive(characters.pixel) || characters.texels == 0 || !positive(characters.grip.tool_size)
        || !positive(characters.grip.item_size) {
        Some(CharactersFault::Scales)
    } else if wardrobe.bodies@.len() == 0 || wardrobe.outfits@.len() == 0 || wardrobe.hair@.len() == 0
        || wardrobe.hair_colors@.len() == 0 {
        Some(CharactersFault::EmptyWardrobe)
    } else if first_misplaced(wardrobe.bodies@) is Some {
        Some(CharactersFault::Skin(first_misplaced(wardrobe.bodies@).unwrap()))
    } else if first_misplaced(wardrobe.outfits@) is Some {
        Some(CharactersFault::Skin(first_misplaced(wardrobe.outfits@).unwrap()))
    } else if first_misplaced(wardrobe.hair@) is Some {
        Some(CharactersFault::Skin(first_misplaced(wardrobe.hair@).unwrap()))
    } else if exists|i: int| 0 <= i < wardrobe.hair_colors@.len() && !is_color(#[trigger] wardrobe.hair_colors@[i]) {
        Some(CharactersFault::HairColor)
    } else {
        None
    }
}

/// The first of `skins` that is not a `.png` file inside the skins folder.
fn find_misplaced(skins: &Vec<String>) -> (found: Option<String>)
    ensures
        found == first_misplaced(skins@),
{
    let mut i: usize = 0;
    while i < skins.len()
        invariant
            i <= skins@.len(),
            first_where(skins@.take(i as int), misplaced_skin()) is None,
        decreases skins@.len() - i,
    {
        proof {
            first_where_step(skins@, misplaced_skin(), i as nat);
        }
        if !is_inside_folder(skins[i].as_str(), ".png") {
            proof {
                reveal_strlit(".png");
                first_where_prefix(skins@, misplaced_skin(), (i + 1) as nat);
            }
            return Some(skins[i].clone());
        }
        proof {
            reveal_strlit(".png");
        }
        i = i + 1;
    }
    proof {
        first_where_prefix(skins@, misplaced_skin(), i as nat);
    }
    None
}

impl Characters {
    /// Checks the scales and the wardrobe.
    pub fn validate(&self) -> (checked: Result<(), CharactersFault>)
        ensures
            checked is Ok <==> characters_fault(*self) is None,
            checked matches Err(fault) ==> characters_fault(*self) == Some(fault),
    {
        if !self.pixel.positive() || self.texels == 0 || !self.grip.tool_size.positive()
            || !self.grip.item_size.positive() {
            return Err(CharactersFault::Scales);
        }
        let wardrobe = &self.wardrobe;
        if wardrobe.bodies.len() == 0 || wardrobe.outfits.len() == 0 || wardrobe.hair.len() == 0
            || wardrobe.hair_colors.len() == 0 {
            return Err(CharactersFault::EmptyWardrobe);
        }
        if let Some(skin) = find_misplaced(&wardrobe.bodies) {
            return Err(CharactersFault::Skin(skin));
        }
        if let Some(skin) = find_misplaced(&wardrobe.outfits) {
            return Err(CharactersFault::Skin(skin));
        }
        if let Some(skin) = find_misplaced(&wardrobe.hair) {
            return Err(CharactersFault::Skin(skin));
        }
        let mut i: usize = 0;
        while i < wardrobe.hair_colors.len()
            invariant
                i <= wardrobe.hair_colors@.len(),
                *wardrobe == self.wardrobe,
                positive(self.pixel) && self.texels != 0 && positive(self.grip.tool_size)
                    && positive(self.grip.item_size),
                wardrobe.bodies@.len() > 0 && wardrobe.outfits@.len() > 0 && wardrobe.hair@.len() > 0
                    && wardrobe.hair_colors@.len() > 0,
                first_misplaced(wardrobe.bodies@) is None,
                first_misplaced(wardrobe.outfits@) is None,
                first_misplaced(wardrobe.hair@) is None,
                forall|j: int| 0 <= j < i ==> is_color(#[trigger] wardrobe.hair_colors@[j]),
            decreases wardrobe.hair_colors@.len() - i,
        {
            if !channels_in_range(&wardrobe.hair_colors[i]) {
                assert(!is_color(wardrobe.hair_colors@[i as int]));
                return Err(CharactersFault::HairColor);
            }
            i = i + 1;
        }
        Ok(())
    }

    /// Every skin players can be dressed in, for checking they are there:
    /// the bodies, the outfits, then the hair.
    pub fn skins_used(&self) -> (skins: Vec<&String>)
        ensures
            skins@.len() == wardrobe_skins(self.wardrobe).len(),
            forall|i: int| 0 <= i < skins@.len() ==> *(#[trigger] skins@[i]) == wardrobe_skins(self.wardrobe)[i],
    {
        let ghost all = wardrobe_skins(self.wardrobe);
        let lists = [&self.wardrobe.bodies, &self.wardrobe.outfits, &self.wardrobe.hair];
        let mut skins: Vec<&String> = Vec::new();
        let mut k: usize = 0;
        let ghost mut done: Seq<String> = Seq::empty();
        while k < 3
            invariant
                k <= 3,
                lists@ == seq![&self.wardrobe.bodies, &self.wardrobe.outfits, &self.wardrobe.hair],
                done == (if k == 0 {
                    Seq::<String>::empty()
                } else if k == 1 {
                    self.wardrobe.bodies@
                } else if k == 2 {
                    self.wardrobe.bodies@ + self.wardrobe.outfits@
                } else {
                    all
                }),
                all == wardrobe_skins(self.wardrobe),
                skins@.len() == done.len(),
                forall|i: int| 0 <= i < skins@.len() ==> *(#[trigger] skins@[i]) == done[i],
            decreases 3 - k,
        {
            let list = lists[k];
            let mut j: usize = 0;
            let ghost before = done;
            while j < list.len()
                invariant
                    j <= list@.len(),
                    skins@.len() == before.len() + j,
                    forall|i: int| 0 <= i < before.len() ==> *(#[trigger] skins@[i]) == before[i],
                    forall|i: int| 0 <= i < j ==> *(#[trigger] skins@[before.len() + i]) == list@[i],
                decreases list@.len() - j,
            {
                skins.push(&list[j]);
                j = j + 1;
            }
            proof {
                done = before + list@;
                assert forall|i: int| 0 <= i < skins@.len() implies *(#[trigger] skins@[i]) == done[i] by {
                    if i >= before.len() {
                        assert(*skins@[before.len() + (i - before.len())] == list@[i - before.len()]);
                    }
                }
                if k == 2 {
                    assert(done =~= all);
                }
            }
            k = k + 1;
        }
        skins
    }
}

} // verus!
