//! Core of a lane-based rhythm game: a track of lanes that the player
//! switches on and off, notes that scroll towards a hit line, and the timing
//! rules that decide which notes an activation intercepts.
//!
//! Positions are fixed-point integers; see [`note::POSITION_SCALE`].

pub mod note;
pub mod timing;
pub mod track;

pub use note::{Note, NoteView, POSITION_SCALE};
pub use timing::{
    activate_track_section, advance_note, advance_notes, handle_lane_event, hit_notes,
    note_is_hit, LaneEvent, HIT_WINDOW_HIGH, HIT_WINDOW_LOW, SCREEN_ORIGIN_Y, TRACK_SPEED,
};
pub use track::Track;
