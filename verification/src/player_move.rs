//! A draft as a player names it.

use crate::colors::Color;
use crate::text::{decimal, decimal_text};
use vstd::prelude::*;

verus! {

/// A draft: take every tile of one color from a source and put them in a
/// staging row. Source 0 is the center, source `k > 0` is factory `k - 1`.
/// Row 5 is the trash.
#[derive(Debug, Clone, Copy, PartialEq, Eq, Structural)]
pub struct Move {
    pub factory_idx: usize,
    pub color: Color,
    pub working_row: usize,
}

impl Move {
    pub open spec fn spec_is_from_center(&self) -> bool {
        self.factory_idx == 0
    }

    /// A move is well formed when it names a tile color and one of the six
    /// destinations.
    pub open spec fn is_valid(&self) -> bool {
        self.color.spec_is_movable() && self.working_row <= 5
    }

    /// Why a move is malformed, as text; `None` for a well-formed move.
    pub open spec fn validity_message(&self) -> Option<Seq<char>> {
        if !self.color.spec_is_movable() {
            Some(self.color.spec_name() + " tiles are not movable."@)
        } else if self.working_row > 5 {
            Some("Cannot move to row "@ + decimal_text(self.working_row as nat) + "."@)
        } else {
            None
        }
    }

    #[verifier::when_used_as_spec(spec_is_from_center)]
    pub fn is_from_center(&self) -> (r: bool)
        ensures
            r == self.spec_is_from_center(),
    {
        self.factory_idx == 0
    }

    /// Reports what is wrong with the move itself, whatever the state of the
    /// game.
    pub fn check_validity(&self) -> (r: Option<String>)
        ensures
            r is None <==> self.is_valid(),
            match r {
                Some(msg) => self.validity_message() == Some(msg@),
                None => self.validity_message() is None,
            },
    {
        if !self.color.is_movable() {
            let mut msg = String::from_str(self.color.name());
            msg.append(" tiles are not movable.");
            return Some(msg);
        }
        if self.working_row > 5 {
            let mut msg = String::from_str("Cannot move to row ");
            msg.append(decimal(self.working_row).as_str());
            msg.append(".");
            return Some(msg);
        }
        None
    }
}

} // verus!
