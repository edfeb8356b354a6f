//! Notes: objects that span a run of lanes and scroll towards the hit line.

use vstd::prelude::*;

verus! {

/// Positions are fixed-point numbers: this many units make up one unit of
/// normalized screen space, so a position of `1.5` is held as `150_000`.
pub const POSITION_SCALE: i64 = 100_000;

/// What a note is, as plain mathematical values.
pub struct NoteView {
    /// First lane the note occupies.
    pub begin_section: nat,
    /// Number of lanes it occupies; the lanes are
    /// `begin_section .. begin_section + width`.
    pub width: nat,
    /// Scroll coordinate above the bottom of the screen, in fixed-point units.
    pub position: int,
}

/// A note on the track. It spans at least one lane.
#[derive(Clone, Copy, Debug)]
pub struct Note {
    begin_section: usize,
    width: usize,
    position: i64,
}

impl View for Note {
    type V = NoteView;

    closed spec fn view(&self) -> NoteView {
        NoteView {
            begin_section: self.begin_section as nat,
            width: self.width as nat,
            position: self.position as int,
        }
    }
}

impl Note {
    #[verifier::type_invariant]
    spec fn well_formed(self) -> bool {
        self.width >= 1
    }

    /// A note over the lanes `begin_section .. begin_section + width`, at
    /// `initial_position`. The span is not held against any track.
    pub fn new(begin_section: usize, width: usize, initial_position: i64) -> (note: Note)
        requires
            width >= 1,
        ensures
            note@ == (NoteView {
                begin_section: begin_section as nat,
                width: width as nat,
                position: initial_position as int,
            }),
    {
        Note { begin_section, width, position: initial_position }
    }

    /// The scroll coordinate, in fixed-point units.
    pub fn position(&self) -> (position: i64)
        ensures
            position == self@.position,
    {
        self.position
    }

    /// Moves the note to `value`; any value is taken as it is.
    pub fn set_position(&mut self, value: i64)
        ensures
            final(self)@ == (NoteView { position: value as int, ..old(self)@ }),
    {
        proof {
            use_type_invariant(&*self);
        }
        self.position = value;
    }

    /// First lane the note occupies.
    pub fn begin_section(&self) -> (section: usize)
        ensures
            section == self@.begin_section,
    {
        self.begin_section
    }

    /// Number of lanes the note occupies.
    pub fn width(&self) -> (width: usize)
        ensures
            width == self@.width,
            width >= 1,
    {
        proof {
            use_type_invariant(self);
        }
        self.width
    }
}

} // verus!
