//! Timing rules: how far notes move on each tick, and which notes the
//! activation of a lane intercepts.
//!
//! All heights are fixed-point integers in the units of
//! [`POSITION_SCALE`](crate::note::POSITION_SCALE).

use crate::note::{Note, NoteView};
use crate::track::Track;
use vstd::prelude::*;

verus! {

/// Distance that every note scrolls down on one tick (`0.00005`).
pub const TRACK_SPEED: i64 = 5;

/// Height of the bottom edge of the screen (`-1.0`). A note's position is
/// measured from there: position plus this origin is its absolute height.
pub const SCREEN_ORIGIN_Y: i64 = -100_000;

/// Lowest absolute height at which a note can still be hit (`-0.9`).
pub const HIT_WINDOW_LOW: i64 = -90_000;

/// Highest absolute height at which a note can already be hit (`-0.8`), which
/// is the height of the hit line.
pub const HIT_WINDOW_HIGH: i64 = -80_000;

/// The note after one tick: lower by `TRACK_SPEED`, over the same lanes.
pub open spec fn advanced(note: NoteView) -> NoteView {
    NoteView { position: note.position - TRACK_SPEED, ..note }
}

/// The note after `ticks` ticks, one after the other.
pub open spec fn advanced_by(note: NoteView, ticks: nat) -> NoteView
    decreases ticks,
{
    if ticks == 0 {
        note
    } else {
        advanced(advanced_by(note, (ticks - 1) as nat))
    }
}

/// Whether `section` is one of the lanes that the note occupies.
pub open spec fn covers(note: NoteView, section: int) -> bool {
    note.begin_section <= section < note.begin_section + note.width
}

/// Whether a note at `position` stands inside the hit window: both ends of
/// the window belong to it.
pub open spec fn in_hit_window(position: int) -> bool {
    HIT_WINDOW_LOW <= position + SCREEN_ORIGIN_Y <= HIT_WINDOW_HIGH
}

/// Whether activating `section` intercepts the note.
pub open spec fn is_hit(note: NoteView, section: int) -> bool {
    covers(note, section) && in_hit_window(note.position)
}

/// Whether `hits` lists, in rising order and each once, exactly the indices
/// of the notes in `notes` that activating `section` intercepts.
pub open spec fn lists_hits(hits: Seq<usize>, notes: Seq<Note>, section: int) -> bool {
    lists_hits_below(hits, notes, section, notes.len() as int)
}

/// As `lists_hits`, for the notes at indices below `bound` only.
pub open spec fn lists_hits_below(
    hits: Seq<usize>,
    notes: Seq<Note>,
    section: int,
    bound: int,
) -> bool {
    &&& forall|k: int|
        0 <= k < hits.len() ==> (#[trigger] hits[k]) < bound && is_hit(
            notes[hits[k] as int]@,
            section,
        )
    &&& forall|j: int, k: int| 0 <= j < k < hits.len() ==> (#[trigger] hits[j]) < (#[trigger] hits[k])
    &&& forall|i: int|
        0 <= i < bound && is_hit((#[trigger] notes[i])@, section) ==> exists|k: int|
            0 <= k < hits.len() && #[trigger] hits[k] == i
}

/// What the player did to one lane.
#[derive(Clone, Copy, Debug)]
pub enum LaneEvent {
    /// The key of this lane went down.
    Pressed(usize),
    /// The key of this lane came up.
    Released(usize),
}

impl LaneEvent {
    /// The lane that the event is about.
    pub open spec fn lane(self) -> int {
        match self {
            LaneEvent::Pressed(lane) => lane as int,
            LaneEvent::Released(lane) => lane as int,
        }
    }

    /// The state that the event leaves its lane in.
    pub open spec fn activates(self) -> bool {
        self is Pressed
    }
}

/// What handling `event` comes to: its lane takes the state that the event
/// asks for, a press hits the notes that `lists_hits` names, and a release
/// hits none.
pub open spec fn handled(
    event: LaneEvent,
    lanes_before: Seq<bool>,
    lanes_after: Seq<bool>,
    notes: Seq<Note>,
    hits: Seq<usize>,
) -> bool {
    &&& lanes_after == lanes_before.update(event.lane(), event.activates())
    &&& if event.activates() {
        lists_hits(hits, notes, event.lane())
    } else {
        hits.len() == 0
    }
}

/// Moves one note down by one tick.
pub fn advance_note(note: &mut Note)
    requires
        old(note)@.position - TRACK_SPEED >= i64::MIN,
    ensures
        final(note)@ == advanced(old(note)@),
{
    let position: i64 = note.position();
    note.set_position(position - TRACK_SPEED);
}

/// Moves every note down by one tick. No note is added, removed or reordered.
pub fn advance_notes(notes: &mut Vec<Note>)
    requires
        forall|i: int|
            0 <= i < old(notes)@.len() ==> (#[trigger] old(notes)@[i])@.position - TRACK_SPEED
                >= i64::MIN,
    ensures
        final(notes)@.len() == old(notes)@.len(),
        forall|i: int|
            0 <= i < old(notes)@.len() ==> (#[trigger] final(notes)@[i])@ == advanced(
                old(notes)@[i]@,
            ),
{
    let count: usize = notes.len();
    let mut done: usize = 0;
    while done < count
        invariant
            done <= count,
            count == old(notes)@.len(),
            notes@.len() == count,
            forall|i: int| 0 <= i < done ==> (#[trigger] notes@[i])@ == advanced(old(notes)@[i]@),
            forall|i: int| done <= i < count ==> (#[trigger] notes@[i]) == old(notes)@[i],
            forall|i: int|
                0 <= i < count ==> (#[trigger] old(notes)@[i])@.position - TRACK_SPEED >= i64::MIN,
        decreases count - done,
    {
        let mut note: Note = notes[done];
        advance_note(&mut note);
        notes.set(done, note);
        done += 1;
    }
}

/// Decides whether activating `section` intercepts `note`: the lane must be
/// one of the note's, and the note must stand inside the hit window.
pub fn note_is_hit(note: &Note, section: usize) -> (hit: bool)
    ensures
        hit == is_hit(note@, section as int),
{
    let begin: usize = note.begin_section();
    let width: usize = note.width();
    let position: i64 = note.position();
    section >= begin && section - begin < width && position >= HIT_WINDOW_LOW - SCREEN_ORIGIN_Y
        && position <= HIT_WINDOW_HIGH - SCREEN_ORIGIN_Y
}

/// The indices of all notes that activating `section` intercepts, in rising
/// order. Notes do not exclude one another: each is judged by itself.
pub fn hit_notes(notes: &Vec<Note>, section: usize) -> (hits: Vec<usize>)
    ensures
        lists_hits(hits@, notes@, section as int),
{
    let mut hits: Vec<usize> = Vec::new();
    let count: usize = notes.len();
    let mut seen: usize = 0;
    while seen < count
        invariant
            seen <= count,
            count == notes@.len(),
            lists_hits_below(hits@, notes@, section as int, seen as int),
        decreases count - seen,
    {
        let ghost before = hits@;
        if note_is_hit(&notes[seen], section) {
            hits.push(seen);
            proof {
                assert forall|i: int|
                    0 <= i < seen + 1 && is_hit(
                        (#[trigger] notes@[i])@,
                        section as int,
                    ) implies exists|k: int| 0 <= k < hits@.len() && #[trigger] hits@[k] == i by {
                    if i < seen {
                        let k = choose|k: int| 0 <= k < before.len() && #[trigger] before[k] == i;
                        assert(hits@[k] == i);
                    } else {
                        assert(hits@[before.len() as int] == i);
                    }
                }
            }
        }
        seen += 1;
    }
    hits
}

/// Handles the activation of lane `section`: switches the lane on, whether or
/// not a note is there, and returns the indices of the notes that are hit, in
/// rising order. A hit changes neither the notes nor any other lane, so a
/// note that stays inside the window is hit again by the next activation.
pub fn activate_track_section(
    track: &mut Track,
    notes: &mut Vec<Note>,
    section: usize,
) -> (hits: Vec<usize>)
    requires
        old(track).wf(),
        section < old(track)@.len(),
    ensures
        final(track).wf(),
        final(track)@ == old(track)@.update(section as int, true),
        final(notes)@ == old(notes)@,
        lists_hits(hits@, old(notes)@, section as int),
{
    track.activate_section(section);
    hit_notes(notes, section)
}

/// Handles one event of the input stream: a press activates the lane and
/// returns the notes it hits, a release deactivates the lane and hits
/// nothing. The notes stay as they are either way.
pub fn handle_lane_event(
    track: &mut Track,
    notes: &mut Vec<Note>,
    event: LaneEvent,
) -> (hits: Vec<usize>)
    requires
        old(track).wf(),
        event.lane() < old(track)@.len(),
    ensures
        final(track).wf(),
        final(notes)@ == old(notes)@,
        handled(event, old(track)@, final(track)@, old(notes)@, hits@),
{
    match event {
        LaneEvent::Pressed(lane) => activate_track_section(track, notes, lane),
        LaneEvent::Released(lane) => {
            track.deactivate_section(lane);
            Vec::new()
        },
    }
}

/// After any number of ticks a note stands lower by exactly that number of
/// times `TRACK_SPEED`, over the same lanes.
pub proof fn lemma_position_after_ticks(note: NoteView, ticks: nat)
    ensures
        advanced_by(note, ticks) == (NoteView {
            position: note.position - ticks * TRACK_SPEED,
            ..note
        }),
    decreases ticks,
{
    if ticks > 0 {
        lemma_position_after_ticks(note, (ticks - 1) as nat);
    }
}

/// Two lists agree on their first `upto` entries when both list the hits.
proof fn lemma_hit_lists_agree_upto(
    first: Seq<usize>,
    second: Seq<usize>,
    notes: Seq<Note>,
    section: int,
    upto: int,
)
    requires
        lists_hits(first, notes, section),
        lists_hits(second, notes, section),
        0 <= upto <= first.len(),
        upto <= second.len(),
    ensures
        forall|k: int| 0 <= k < upto ==> first[k] == second[k],
    decreases upto,
{
    if upto > 0 {
        let last = upto - 1;
        lemma_hit_lists_agree_upto(first, second, notes, section, last);
        let in_first = first[last] as int;
        let in_second = second[last] as int;
        assert(is_hit(notes[in_first]@, section));
        assert(is_hit(notes[in_second]@, section));
        let m = choose|m: int| 0 <= m < second.len() && #[trigger] second[m] == in_first;
        let n = choose|n: int| 0 <= n < first.len() && #[trigger] first[n] == in_second;
        assert(m >= last) by {
            if m < last {
                assert(first[m] == second[m]);
                assert(first[m] < first[last]);
            }
        }
        assert(n >= last) by {
            if n < last {
                assert(second[n] == first[n]);
                assert(second[n] < second[last]);
            }
        }
        assert(second[last] <= second[m]);
        assert(first[last] <= first[n]);
    }
}

/// The hits of an activation are determined: two lists that both list the
/// hits of `section` among `notes` are the same list.
pub proof fn lemma_hit_list_unique(
    first: Seq<usize>,
    second: Seq<usize>,
    notes: Seq<Note>,
    section: int,
)
    requires
        lists_hits(first, notes, section),
        lists_hits(second, notes, section),
    ensures
        first == second,
{
    let shorter = if first.len() <= second.len() {
        first.len() as int
    } else {
        second.len() as int
    };
    lemma_hit_lists_agree_upto(first, second, notes, section, shorter);
    if first.len() > shorter {
        let extra = first[shorter] as int;
        assert(is_hit(notes[extra]@, section));
        let m = choose|m: int| 0 <= m < second.len() && #[trigger] second[m] == extra;
        assert(first[m] == second[m]);
        assert(first[m] < first[shorter]);
    }
    if second.len() > shorter {
        let extra = second[shorter] as int;
        assert(is_hit(notes[extra]@, section));
        let m = choose|m: int| 0 <= m < first.len() && #[trigger] first[m] == extra;
        assert(second[m] == first[m]);
        assert(second[m] < second[shorter]);
    }
    assert(first =~= second);
}

/// A note that does not cover a lane is not hit by it, wherever it stands.
pub proof fn lemma_uncovered_lane_is_never_hit(note: NoteView, section: int, position: int)
    requires
        !covers(note, section),
    ensures
        !is_hit((NoteView { position, ..note }), section),
{
}

/// A note that covers a lane is hit by it exactly while its position is at
/// least `HIT_WINDOW_LOW - SCREEN_ORIGIN_Y` and at most
/// `HIT_WINDOW_HIGH - SCREEN_ORIGIN_Y`, both ends included.
pub proof fn lemma_hit_window_is_closed(note: NoteView, section: int)
    requires
        covers(note, section),
    ensures
        is_hit(note, section) <==> HIT_WINDOW_LOW - SCREEN_ORIGIN_Y <= note.position
            <= HIT_WINDOW_HIGH - SCREEN_ORIGIN_Y,
{
}

/// Without hits among the notes, the list of hits is empty; in particular a
/// lane that no note covers hits nothing, wherever the notes stand.
pub proof fn lemma_no_hit_gives_empty_list(hits: Seq<usize>, notes: Seq<Note>, section: int)
    requires
        lists_hits(hits, notes, section),
        forall|i: int| 0 <= i < notes.len() ==> !is_hit((#[trigger] notes[i])@, section),
    ensures
        hits.len() == 0,
{
    if hits.len() > 0 {
        assert(is_hit(notes[hits[0] as int]@, section));
    }
}

/// Every note that covers the lane and stands inside the window is listed,
/// however many there are: one hit does not shut out another.
pub proof fn lemma_every_hit_is_listed(hits: Seq<usize>, notes: Seq<Note>, section: int, index: int)
    requires
        lists_hits(hits, notes, section),
        0 <= index < notes.len(),
        is_hit(notes[index]@, section),
    ensures
        exists|k: int| 0 <= k < hits.len() && #[trigger] hits[k] == index,
{
}

} // verus!
