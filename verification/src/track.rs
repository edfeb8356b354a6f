//! The track: a fixed number of lanes, each with an activation flag.

use vstd::prelude::*;

verus! {

/// A track with a fixed number of lanes ("sections").
///
/// Its view is the sequence of lane flags, `true` for an active lane. A
/// well-formed track (`wf`) has at least one lane; the number of lanes never
/// changes.
pub struct Track {
    section_count: usize,
    activated: Vec<bool>,
}

impl View for Track {
    type V = Seq<bool>;

    closed spec fn view(&self) -> Seq<bool> {
        self.activated@
    }
}

impl Track {
    /// The track holds at least one lane, and one flag for each lane.
    pub closed spec fn wf(&self) -> bool {
        &&& self.section_count >= 1
        &&& self.activated@.len() == self.section_count
    }

    /// A track of `section_count` lanes, none of them active.
    pub fn new(section_count: usize) -> (track: Track)
        requires
            section_count >= 1,
        ensures
            track.wf(),
            track@.len() == section_count,
            forall|i: int| 0 <= i < section_count ==> !track@[i],
    {
        let mut activated: Vec<bool> = Vec::new();
        let mut filled: usize = 0;
        while filled < section_count
            invariant
                filled <= section_count,
                activated@.len() == filled,
                forall|i: int| 0 <= i < filled ==> !activated@[i],
            decreases section_count - filled,
        {
            activated.push(false);
            filled += 1;
        }
        Track { section_count, activated }
    }

    /// Switches lane `index` on; the other lanes keep their state.
    pub fn activate_section(&mut self, index: usize)
        requires
            old(self).wf(),
            index < old(self)@.len(),
        ensures
            final(self).wf(),
            final(self)@ == old(self)@.update(index as int, true),
    {
        self.activated.set(index, true);
    }

    /// Switches lane `index` off; the other lanes keep their state.
    pub fn deactivate_section(&mut self, index: usize)
        requires
            old(self).wf(),
            index < old(self)@.len(),
        ensures
            final(self).wf(),
            final(self)@ == old(self)@.update(index as int, false),
    {
        self.activated.set(index, false);
    }

    /// Whether lane `index` is on.
    pub fn is_activated(&self, index: usize) -> (active: bool)
        requires
            self.wf(),
            index < self@.len(),
        ensures
            active == self@[index as int],
    {
        self.activated[index]
    }

    /// The number of lanes: the value the track was made with.
    pub fn section_count(&self) -> (count: usize)
        requires
            self.wf(),
        ensures
            count == self@.len(),
            count >= 1,
    {
        self.section_count
    }
}

/// A well-formed track has at least one lane.
pub proof fn lemma_track_has_lanes(track: Track)
    requires
        track.wf(),
    ensures
        track@.len() >= 1,
{
}

/// Switching a lane on makes it read as active, and switching it off again
/// makes it read as inactive, whatever its state was before.
pub proof fn lemma_toggle_round_trip(lanes: Seq<bool>, index: int)
    requires
        0 <= index < lanes.len(),
    ensures
        lanes.update(index, true)[index],
        !lanes.update(index, true).update(index, false)[index],
        lanes.update(index, true).update(index, false).len() == lanes.len(),
{
}

/// Switching a lane on or off changes no other lane.
pub proof fn lemma_other_lanes_keep_state(lanes: Seq<bool>, index: int, other: int, active: bool)
    requires
        0 <= index < lanes.len(),
        0 <= other < lanes.len(),
        other != index,
    ensures
        lanes.update(index, active)[other] == lanes[other],
{
}

} // verus!
