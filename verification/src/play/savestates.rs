//! The three slots in which positions of games are kept between sessions.

use crate::model::{clone_text, text_view};
use vstd::prelude::*;

verus! {

/// The saved positions, one for each slot. An empty slot holds none.
#[derive(Debug)]
pub struct Savestates {
    pub slot_1: Option<String>,
    pub slot_2: Option<String>,
    pub slot_3: Option<String>,
}

/// One of the three slots.
#[derive(PartialEq, Eq, Debug, Copy, Clone, Structural)]
pub enum SavestateSlot {
    First,
    Second,
    Third,
}

impl Default for Savestates {
    /// Three empty slots.
    fn default() -> (states: Self)
        ensures
            states.slot_1 is None,
            states.slot_2 is None,
            states.slot_3 is None,
    {
        Self { slot_1: None, slot_2: None, slot_3: None }
    }
}

impl Savestates {
    /// The position in a slot.
    pub open spec fn spec_slot(self, slot: SavestateSlot) -> Option<Seq<char>> {
        match slot {
            SavestateSlot::First => text_view(self.slot_1),
            SavestateSlot::Second => text_view(self.slot_2),
            SavestateSlot::Third => text_view(self.slot_3),
        }
    }

    /// A copy of the position in a slot.
    pub fn slot(&self, slot: SavestateSlot) -> (position: Option<String>)
        ensures
            text_view(position) == self.spec_slot(slot),
    {
        match slot {
            SavestateSlot::First => clone_text(&self.slot_1),
            SavestateSlot::Second => clone_text(&self.slot_2),
            SavestateSlot::Third => clone_text(&self.slot_3),
        }
    }

    /// Puts a position into a slot, or empties the slot. The other slots
    /// stay as they are.
    pub fn set_slot(&mut self, slot: SavestateSlot, position: Option<String>)
        ensures
            final(self).spec_slot(slot) == text_view(position),
            forall|other: SavestateSlot|
                other != slot ==> final(self).spec_slot(other) == old(self).spec_slot(other),
    {
        match slot {
            SavestateSlot::First => {
                self.slot_1 = position;
            },
            SavestateSlot::Second => {
                self.slot_2 = position;
            },
            SavestateSlot::Third => {
                self.slot_3 = position;
            },
        }
    }
}

} // verus!
