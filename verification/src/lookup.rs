//! The fixed table that maps a reaction emoji to a rotation.
//!
//! Eight symbols are recognized: four arrow emoji that stand for a quarter
//! turn one way or the other, and four circling-arrow emoji that stand for a
//! half turn. Every other symbol is ignored.

use vstd::prelude::*;
use crate::text::str_eq;

verus! {

/// One of the three rotations the bot performs. A quarter turn is clockwise;
/// three quarters is the counter-clockwise quarter turn.
#[derive(Clone, Copy, Debug, PartialEq, Eq, Structural)]
pub enum Rotation {
    Quarter,
    Half,
    ThreeQuarter,
}

impl Rotation {
    /// The angle of this rotation, in clockwise degrees.
    pub open spec fn spec_degrees(self) -> int {
        match self {
            Rotation::Quarter => 90,
            Rotation::Half => 180,
            Rotation::ThreeQuarter => 270,
        }
    }

    /// Returns the angle of this rotation in clockwise degrees: one of 90,
    /// 180 and 270.
    pub fn degrees(self) -> (d: u32)
        ensures
            d == self.spec_degrees(),
    {
        match self {
            Rotation::Quarter => 90,
            Rotation::Half => 180,
            Rotation::ThreeQuarter => 270,
        }
    }
}

/// The rotation table: the eight recognized emoji and the turn each stands
/// for; any other symbol maps to nothing.
pub open spec fn spec_classify(emoji: Seq<char>) -> Option<Rotation> {
    if emoji == "↪️"@ {
        Some(Rotation::ThreeQuarter)
    } else if emoji == "↩️"@ {
        Some(Rotation::Quarter)
    } else if emoji == "⤵️"@ {
        Some(Rotation::Quarter)
    } else if emoji == "⤴️"@ {
        Some(Rotation::ThreeQuarter)
    } else if emoji == "🔃"@ {
        Some(Rotation::Half)
    } else if emoji == "🔁"@ {
        Some(Rotation::Half)
    } else if emoji == "🔄"@ {
        Some(Rotation::Half)
    } else if emoji == "🗘"@ {
        Some(Rotation::Half)
    } else {
        None
    }
}

/// Looks `emoji` up in the rotation table.
pub fn classify(emoji: &str) -> (r: Option<Rotation>)
    ensures
        r == spec_classify(emoji@),
{
    if str_eq(emoji, "↪️") {
        Some(Rotation::ThreeQuarter)
    } else if str_eq(emoji, "↩️") {
        Some(Rotation::Quarter)
    } else if str_eq(emoji, "⤵️") {
        Some(Rotation::Quarter)
    } else if str_eq(emoji, "⤴️") {
        Some(Rotation::ThreeQuarter)
    } else if str_eq(emoji, "🔃") {
        Some(Rotation::Half)
    } else if str_eq(emoji, "🔁") {
        Some(Rotation::Half)
    } else if str_eq(emoji, "🔄") {
        Some(Rotation::Half)
    } else if str_eq(emoji, "🗘") {
        Some(Rotation::Half)
    } else {
        None
    }
}

} // verus!
