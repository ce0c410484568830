//! The tile colors and the two markers that are no tiles.

use vstd::prelude::*;

verus! {

/// A tile color, the turn-order token, or the marker of an unlocked staging row.
#[derive(Debug, Clone, Copy, PartialEq, Eq, Hash, Structural)]
pub enum Color {
    Blue,
    Orange,
    Green,
    Red,
    Purple,
    Start,
    Blank,
}

impl Color {
    /// Only the five tile colors can be drafted and staged.
    pub open spec fn spec_is_movable(&self) -> bool {
        *self != Color::Start && *self != Color::Blank
    }

    /// Position of the color in the declaration order, from 0.
    pub open spec fn spec_index(&self) -> int {
        match *self {
            Color::Blue => 0,
            Color::Orange => 1,
            Color::Green => 2,
            Color::Red => 3,
            Color::Purple => 4,
            Color::Start => 5,
            Color::Blank => 6,
        }
    }

    /// The color at a position, if there is a tile color there.
    pub open spec fn spec_from_index(v: int) -> Option<Color> {
        if v == 0 {
            Some(Color::Blue)
        } else if v == 1 {
            Some(Color::Orange)
        } else if v == 2 {
            Some(Color::Green)
        } else if v == 3 {
            Some(Color::Red)
        } else if v == 4 {
            Some(Color::Purple)
        } else {
            None
        }
    }

    /// The color's name as text.
    pub open spec fn spec_name(&self) -> Seq<char> {
        match *self {
            Color::Blue => "Blue"@,
            Color::Orange => "Orange"@,
            Color::Green => "Green"@,
            Color::Red => "Red"@,
            Color::Purple => "Purple"@,
            Color::Start => "Start"@,
            Color::Blank => "Blank"@,
        }
    }

    /// Whether the color is one of the five tile colors.
    #[verifier::when_used_as_spec(spec_is_movable)]
    pub fn is_movable(&self) -> (r: bool)
        ensures
            r == self.spec_is_movable(),
    {
        *self != Color::Start && *self != Color::Blank
    }

    /// Position of the color in the declaration order, from 0.
    pub fn index(&self) -> (r: usize)
        ensures
            r == self.spec_index(),
    {
        match *self {
            Color::Blue => 0,
            Color::Orange => 1,
            Color::Green => 2,
            Color::Red => 3,
            Color::Purple => 4,
            Color::Start => 5,
            Color::Blank => 6,
        }
    }

    /// The tile color at a position, if there is one.
    pub fn from_index(v: usize) -> (r: Option<Color>)
        ensures
            r == Color::spec_from_index(v as int),
    {
        match v {
            0 => Some(Color::Blue),
            1 => Some(Color::Orange),
            2 => Some(Color::Green),
            3 => Some(Color::Red),
            4 => Some(Color::Purple),
            _ => None,
        }
    }

    /// The color's name.
    pub fn name(&self) -> (r: &'static str)
        ensures
            r@ == self.spec_name(),
    {
        match *self {
            Color::Blue => "Blue",
            Color::Orange => "Orange",
            Color::Green => "Green",
            Color::Red => "Red",
            Color::Purple => "Purple",
            Color::Start => "Start",
            Color::Blank => "Blank",
        }
    }
}

impl TryFrom<usize> for Color {
    type Error = ();

    fn try_from(v: usize) -> (r: Result<Color, ()>) {
        match Color::from_index(v) {
            Some(c) => Ok(c),
            None => Err(()),
        }
    }
}

impl vstd::std_specs::convert::TryFromSpecImpl<usize> for Color {
    open spec fn obeys_try_from_spec() -> bool {
        true
    }

    open spec fn try_from_spec(v: usize) -> Result<Color, ()> {
        match Color::spec_from_index(v as int) {
            Some(c) => Ok(c),
            None => Err(()),
        }
    }
}

/// The positions of the tile colors are exactly 0 to 4, and `from_index`
/// undoes `index` on them.
pub proof fn lemma_index_round_trip(c: Color)
    ensures
        c.spec_is_movable() <==> 0 <= c.spec_index() < 5,
        c.spec_is_movable() ==> Color::spec_from_index(c.spec_index()) == Some(c),
        0 <= c.spec_index() < 7,
{
}

} // verus!
