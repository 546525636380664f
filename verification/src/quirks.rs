//! The switches between the historical variants of the interpreter.

use vstd::prelude::*;

verus! {

/// One way in which interpreters of the past differed.
#[derive(Clone, Copy, Debug, PartialEq, Eq, Structural)]
pub enum Quirk {
    /// Saving and loading registers leaves `I` as it was.
    LoadStoreIgnoresI,
    /// The shifts read `Vx` in place of `Vy`.
    ShiftReadsVx,
    /// Drawing brings what sticks out past the right or the bottom edge back
    /// in on the left or at the top.
    DrawWrapsPixels,
}

/// A set of quirks. All are off by default, and any combination is allowed.
#[derive(Clone, Copy, Debug, PartialEq, Eq, Structural)]
pub struct Quirks {
    pub load_store_ignores_i: bool,
    pub shift_reads_vx: bool,
    pub draw_wraps_pixels: bool,
}

impl Quirks {
    /// Whether `quirk` is in the set.
    pub open spec fn has(self, quirk: Quirk) -> bool {
        match quirk {
            Quirk::LoadStoreIgnoresI => self.load_store_ignores_i,
            Quirk::ShiftReadsVx => self.shift_reads_vx,
            Quirk::DrawWrapsPixels => self.draw_wraps_pixels,
        }
    }

    /// The set with `quirk` added.
    pub open spec fn with(self, quirk: Quirk) -> Quirks {
        match quirk {
            Quirk::LoadStoreIgnoresI => Quirks { load_store_ignores_i: true, ..self },
            Quirk::ShiftReadsVx => Quirks { shift_reads_vx: true, ..self },
            Quirk::DrawWrapsPixels => Quirks { draw_wraps_pixels: true, ..self },
        }
    }

    /// The set with no quirk in it.
    pub fn empty() -> (q: Quirks)
        ensures
            q == (Quirks {
                load_store_ignores_i: false,
                shift_reads_vx: false,
                draw_wraps_pixels: false,
            }),
    {
        Quirks { load_store_ignores_i: false, shift_reads_vx: false, draw_wraps_pixels: false }
    }

    /// Whether `quirk` is in the set.
    pub fn contains(&self, quirk: Quirk) -> (r: bool)
        ensures
            r == self.has(quirk),
    {
        match quirk {
            Quirk::LoadStoreIgnoresI => self.load_store_ignores_i,
            Quirk::ShiftReadsVx => self.shift_reads_vx,
            Quirk::DrawWrapsPixels => self.draw_wraps_pixels,
        }
    }

    /// Adds `quirk` to the set.
    pub fn insert(&mut self, quirk: Quirk)
        ensures
            *final(self) == old(self).with(quirk),
    {
        match quirk {
            Quirk::LoadStoreIgnoresI => {
                self.load_store_ignores_i = true;
            },
            Quirk::ShiftReadsVx => {
                self.shift_reads_vx = true;
            },
            Quirk::DrawWrapsPixels => {
                self.draw_wraps_pixels = true;
            },
        }
    }
}

} // verus!
