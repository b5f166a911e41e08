use vstd::prelude::*;

verus! {

/// One decision point of a participant, with its continuous state already
/// rounded to whole units.
///
/// `position_x` / `position_y` hold the position rounded to the nearest
/// integer (halves away from zero); `velocity_x` / `velocity_y` hold the
/// velocity times ten, rounded the same way. `actionable_state` and
/// `action_taken` are the ordinals of the coarse state and of the
/// classified action.
#[derive(Clone, Copy, Debug, PartialEq, Eq)]
pub struct Action {
    pub frame_start: usize,
    pub position_x: i64,
    pub position_y: i64,
    pub velocity_x: i64,
    pub velocity_y: i64,
    pub actionable_state: u8,
    pub action_taken: u8,
}

} // verus!
