//! The orientation and position estimator. The agent's own frame
//! (dead-reckoned from executed moves and turns) is always known; the
//! absolute frame becomes known once two GPS fixes with a nonzero horizontal
//! displacement between them reveal the yaw and offset relating the frames.
//! A compacted path history is kept, and is rewritten into the absolute
//! frame the moment calibration completes.

use vstd::prelude::*;
use crate::vec3::{Vec3, abs_i, spec_add, spec_sub};
use crate::turtle_rotation::{
    AxisDirection, RelativeDirection, Rotation, rot_vec, unit_vec_of, axis_of_vec,
    is_horizontal, left_of, right_of, dest_dir_of, is_move_direction, spec_find_rotation,
    axis_dot, get_dest_axisdirection, try_find_rotation,
    lemma_rot_axis_horizontal,
};
use crate::turtle_action::{TurtleAction, TurtleActionReturn, action_wf};
use crate::error::TurtleError;

verus! {

/// All positions this estimator works with stay within this many cells of
/// the origin on each axis, so that every derived quantity (differences,
/// offsets, rotated sums, heuristic costs) fits the machine integer.
pub const COORD_LIMIT: i32 = 0x0400_0000;

/// Each component of `v` is within `k * COORD_LIMIT` in magnitude.
pub open spec fn coord_bounded(v: Vec3, k: int) -> bool {
    abs_i(v.0 as int) <= k * (COORD_LIMIT as int)
    && abs_i(v.1 as int) <= k * (COORD_LIMIT as int)
    && abs_i(v.2 as int) <= k * (COORD_LIMIT as int)
}

/// How precisely the absolute frame is known: not at all, one fix recorded
/// (relative and absolute position at that instant), or fully calibrated
/// with the offset and yaw taking relative to absolute coordinates.
#[derive(PartialEq, Eq, Clone, Copy, Debug)]
pub enum LocationMode {
    Relative(Option<(Vec3, Vec3)>),
    Absolute((Vec3, Rotation)),
}

/// The estimator's state. The relative fields are ground truth in the
/// agent's own frame; the absolute fields are derived and meaningful only
/// once `location_precision` is `Absolute`.
#[derive(Clone, Debug)]
pub struct LocationState {
    pub loc: Vec3,
    pub loc_absolute: Option<Vec3>,
    pub direction: AxisDirection,
    pub direction_absolute: AxisDirection,
    pub location_precision: LocationMode,
    pub history: Vec<(Vec3, AxisDirection)>,
}

/// The mathematical model of a `LocationState`: the same fields with the
/// history as a sequence.
pub ghost struct LocView {
    pub loc: Vec3,
    pub loc_absolute: Option<Vec3>,
    pub direction: AxisDirection,
    pub direction_absolute: AxisDirection,
    pub location_precision: LocationMode,
    pub history: Seq<(Vec3, AxisDirection)>,
}

impl View for LocationState {
    type V = LocView;

    open spec fn view(&self) -> LocView {
        LocView {
            loc: self.loc,
            loc_absolute: self.loc_absolute,
            direction: self.direction,
            direction_absolute: self.direction_absolute,
            location_precision: self.location_precision,
            history: self.history@,
        }
    }
}

/// The absolute position corresponding to relative position `rel` under the
/// calibrated transform `(offset, rot)`.
pub open spec fn absolute_of(rot: Rotation, offset: Vec3, rel: Vec3) -> Vec3 {
    spec_add(rot_vec(rot, rel), offset)
}

/// One history entry, re-expressed in the absolute frame.
pub open spec fn entry_transformed(rot: Rotation, offset: Vec3, e: (Vec3, AxisDirection)) -> (Vec3, AxisDirection) {
    (absolute_of(rot, offset, e.0), axis_of_vec(rot_vec(rot, unit_vec_of(e.1))))
}

impl LocView {
    /// Well-formedness: facings are horizontal, positions are bounded, and
    /// the absolute fields agree with the calibration mode.
    pub open spec fn wf(self) -> bool {
        &&& is_horizontal(self.direction)
        &&& is_horizontal(self.direction_absolute)
        &&& coord_bounded(self.loc, 1)
        &&& forall|i: int| 0 <= i < self.history.len() ==> is_horizontal(#[trigger] self.history[i].1)
        &&& match self.location_precision {
            LocationMode::Relative(opt) => {
                &&& self.loc_absolute is None
                &&& match opt {
                    Some(fix) => coord_bounded(fix.0, 1) && coord_bounded(fix.1, 1),
                    None => true,
                }
                &&& forall|i: int| 0 <= i < self.history.len()
                    ==> coord_bounded(#[trigger] self.history[i].0, 1)
            },
            LocationMode::Absolute(t) => {
                &&& coord_bounded(t.0, 2)
                &&& self.loc_absolute == Some(absolute_of(t.1, t.0, self.loc))
                &&& self.direction_absolute == axis_of_vec(rot_vec(t.1, unit_vec_of(self.direction)))
                &&& forall|i: int| 0 <= i < self.history.len()
                    ==> coord_bounded(#[trigger] self.history[i].0, 3)
            },
        }
    }

    /// The entry the unconditional post-update refresh would log: the
    /// absolute pose once calibrated, the relative pose before.
    pub open spec fn latest_entry(self) -> (Vec3, AxisDirection) {
        match self.location_precision {
            LocationMode::Absolute(t) => (
                absolute_of(t.1, t.0, self.loc),
                axis_of_vec(rot_vec(t.1, unit_vec_of(self.direction))),
            ),
            LocationMode::Relative(_) => (self.loc, self.direction),
        }
    }

    /// The state after the post-update refresh: absolute position and facing
    /// recomputed from the calibration, and the pose logged unless it equals
    /// the last entry (idempotent logging).
    pub open spec fn spec_refresh(self) -> LocView {
        let e = self.latest_entry();
        let h = if self.history.len() > 0 && self.history.last() == e {
            self.history
        } else {
            self.history.push(e)
        };
        match self.location_precision {
            LocationMode::Absolute(t) => LocView {
                loc_absolute: Some(e.0),
                direction_absolute: e.1,
                history: h,
                ..self
            },
            LocationMode::Relative(_) => LocView { history: h, ..self },
        }
    }

    /// The state after interpreting one GPS fix `c` (before the refresh).
    /// With no fix yet, the fix is recorded. With one fix recorded, a purely
    /// vertical displacement since that fix is silently ignored (yaw would be
    /// under-determined); otherwise the yaw and offset are recovered and the
    /// whole history is re-expressed in the absolute frame. Once calibrated,
    /// a fix disagreeing with the prediction is a fatal inconsistency, as is
    /// a displacement pair not related by any yaw.
    pub open spec fn spec_gps_step(self, c: Vec3) -> Result<LocView, TurtleError> {
        match self.location_precision {
            LocationMode::Relative(opt) => match opt {
                None => Ok(LocView {
                    location_precision: LocationMode::Relative(Some((self.loc, c))),
                    ..self
                }),
                Some(fix) => {
                    let rel_diff = spec_sub(self.loc, fix.0);
                    if rel_diff.0 == 0 && rel_diff.2 == 0 {
                        Ok(self)
                    } else {
                        let abs_diff = spec_sub(c, fix.1);
                        match spec_find_rotation(rel_diff, abs_diff) {
                            None => Err(TurtleError::GeometricInconsistency),
                            Some(rot) => {
                                let offset = spec_sub(fix.1, rot_vec(rot, fix.0));
                                Ok(LocView {
                                    location_precision: LocationMode::Absolute((offset, rot)),
                                    history: self.history.map_values(
                                        |e: (Vec3, AxisDirection)| entry_transformed(rot, offset, e),
                                    ),
                                    ..self
                                })
                            },
                        }
                    }
                },
            },
            LocationMode::Absolute(_) => {
                if self.loc_absolute == Some(c) {
                    Ok(self)
                } else {
                    Err(TurtleError::GeometricInconsistency)
                }
            },
        }
    }

    /// The estimator's transition function: the state after applying one
    /// (action, outcome) pair. A successful move displaces the relative
    /// position, a successful turn rotates the relative facing, a GPS fix
    /// runs the calibration step; failed moves and turns change nothing, and
    /// probing actions never affect the pose. Any other action kind is an
    /// unhandled extension point.
    pub open spec fn spec_update(self, action: TurtleAction, outcome: TurtleActionReturn)
        -> Result<LocView, TurtleError>
    {
        match action {
            TurtleAction::Move { direction } => {
                if outcome is Success {
                    Ok(LocView {
                        loc: spec_add(self.loc, dest_dir_of(self.direction, direction)),
                        ..self
                    }.spec_refresh())
                } else {
                    Ok(self)
                }
            },
            TurtleAction::Turn { direction } => {
                if outcome is Success {
                    Ok(LocView {
                        direction: if direction == RelativeDirection::Left {
                            left_of(self.direction)
                        } else {
                            right_of(self.direction)
                        },
                        ..self
                    }.spec_refresh())
                } else {
                    Ok(self)
                }
            },
            TurtleAction::GpsLocate { .. } => match outcome {
                TurtleActionReturn::Coordinate(c) => match self.spec_gps_step(c) {
                    Ok(s) => Ok(s.spec_refresh()),
                    Err(e) => Err(e),
                },
                _ => Ok(self.spec_refresh()),
            },
            TurtleAction::Detect { .. } | TurtleAction::Inspect { .. } => Ok(self.spec_refresh()),
            _ => Err(TurtleError::UnsupportedAction),
        }
    }

    /// Does a successful move stay inside the coordinate domain?
    pub open spec fn move_in_bounds(self, action: TurtleAction, outcome: TurtleActionReturn) -> bool {
        match action {
            TurtleAction::Move { direction } => {
                outcome is Success ==> coord_bounded(
                    spec_add(self.loc, dest_dir_of(self.direction, direction)),
                    1,
                )
            },
            _ => true,
        }
    }

    /// Is a GPS fix carried by the outcome inside the coordinate domain?
    pub open spec fn fix_in_bounds(outcome: TurtleActionReturn) -> bool {
        match outcome {
            TurtleActionReturn::Coordinate(c) => coord_bounded(c, 1),
            _ => true,
        }
    }
}


/// The bounds the refresh step needs of a state: positions and calibration
/// payloads bounded, facings horizontal, and the absolute field absent until
/// calibration. These are the parts of `wf` the refresh itself cannot
/// restore.
pub open spec fn core_wf(v: LocView) -> bool {
    &&& is_horizontal(v.direction)
    &&& is_horizontal(v.direction_absolute)
    &&& coord_bounded(v.loc, 1)
    &&& forall|i: int| 0 <= i < v.history.len() ==> is_horizontal(#[trigger] v.history[i].1)
    &&& match v.location_precision {
        LocationMode::Relative(opt) => {
            &&& v.loc_absolute is None
            &&& match opt {
                Some(fix) => coord_bounded(fix.0, 1) && coord_bounded(fix.1, 1),
                None => true,
            }
            &&& forall|i: int| 0 <= i < v.history.len()
                ==> coord_bounded(#[trigger] v.history[i].0, 1)
        },
        LocationMode::Absolute(t) => {
            &&& coord_bounded(t.0, 2)
            &&& forall|i: int| 0 <= i < v.history.len()
                ==> coord_bounded(#[trigger] v.history[i].0, 3)
        },
    }
}

/// The refresh step turns any state with sound bounds into a well-formed
/// one, and it never touches the pose or the calibration.
pub proof fn lemma_refresh_wf(v: LocView)
    requires
        core_wf(v),
    ensures
        v.spec_refresh().wf(),
        v.spec_refresh().loc == v.loc,
        v.spec_refresh().direction == v.direction,
        v.spec_refresh().location_precision == v.location_precision,
{
    match v.location_precision {
        LocationMode::Absolute(t) => {
            lemma_rot_axis_horizontal(t.1, v.direction);
        },
        LocationMode::Relative(_) => {},
    }
}

impl LocationState {
    /// The agent's default facing in its own frame.
    pub open spec fn default_direction() -> AxisDirection {
        AxisDirection::Xp
    }

    /// A fresh estimator: at the relative origin, facing the default
    /// direction, with no fix and no history.
    pub fn new() -> (r: Self)
        ensures
            r@.loc == (Vec3(0, 0, 0)),
            r@.direction == Self::default_direction(),
            r@.direction_absolute == Self::default_direction(),
            r@.loc_absolute is None,
            r@.location_precision == LocationMode::Relative(None::<(Vec3, Vec3)>),
            r@.history == Seq::<(Vec3, AxisDirection)>::empty(),
            r@.wf(),
    {
        let r = LocationState {
            loc: Vec3::zero(),
            direction: AxisDirection::Xp,
            direction_absolute: AxisDirection::Xp,
            loc_absolute: None,
            location_precision: LocationMode::Relative(None),
            history: Vec::new(),
        };
        proof {
            assert(r@.history =~= Seq::<(Vec3, AxisDirection)>::empty());
        }
        r
    }

    /// Interpret one GPS fix, per `spec_gps_step`. On an inconsistency the
    /// state is left untouched and the error is handed up.
    #[verifier::rlimit(60)]
    fn update_gps(&mut self, new_absolute: &Vec3) -> (r: Result<(), TurtleError>)
        requires
            old(self)@.wf(),
            coord_bounded(*new_absolute, 1),
        ensures
            match old(self)@.spec_gps_step(*new_absolute) {
                Ok(v) => r is Ok && final(self)@ == v && core_wf(v),
                Err(e) => r == Err::<(), TurtleError>(e) && final(self)@ == old(self)@,
            },
    {
        let prec = self.location_precision;
        match prec {
            LocationMode::Relative(None) => {
                self.location_precision = LocationMode::Relative(Some((self.loc, *new_absolute)));
                Ok(())
            },
            LocationMode::Relative(Some((old_rel, old_abs))) => {
                let rel_diff = self.loc.sub(&old_rel);
                if rel_diff.0 == 0 && rel_diff.2 == 0 {
                    return Ok(());
                }
                let abs_diff = new_absolute.sub(&old_abs);
                let found = try_find_rotation(&rel_diff, &abs_diff);
                match found {
                    None => Err(TurtleError::GeometricInconsistency),
                    Some(rotation) => {
                        let offset = old_abs.sub(&rotation.apply_to(&old_rel));
                        let mut new_history: Vec<(Vec3, AxisDirection)> = Vec::new();
                        let mut i: usize = 0;
                        while i < self.history.len()
                            invariant
                                old(self)@.wf(),
                                self@ == old(self)@,
                                coord_bounded(offset, 2),
                                i <= self.history@.len(),
                                forall|j: int| 0 <= j < self.history@.len()
                                    ==> coord_bounded(#[trigger] self.history@[j].0, 1)
                                        && is_horizontal(self.history@[j].1),
                                new_history@.len() == i,
                                forall|j: int| 0 <= j < i ==> #[trigger] new_history@[j]
                                    == entry_transformed(rotation, offset, self.history@[j]),
                            decreases self.history@.len() - i,
                        {
                            let (rel_coord, rel_dir) = self.history[i];
                            let loc_wrot = rotation.apply_to(&rel_coord);
                            let loc_woffset = loc_wrot.add(&offset);
                            let axis_rotated = AxisDirection::from(&rotation.apply_to(&rel_dir.to_unit_vector()));
                            proof {
                                assert(loc_woffset == absolute_of(rotation, offset, rel_coord));
                                assert(axis_rotated == axis_of_vec(rot_vec(rotation, unit_vec_of(rel_dir))));
                            }
                            new_history.push((loc_woffset, axis_rotated));
                            i = i + 1;
                        }
                        self.history = new_history;
                        self.location_precision = LocationMode::Absolute((offset, rotation));
                        proof {
                            let v = self@;
                            assert forall|j: int| 0 <= j < v.history.len()
                                implies coord_bounded(#[trigger] v.history[j].0, 3)
                                    && is_horizontal(v.history[j].1) by {
                                lemma_rot_axis_horizontal(rotation, old(self)@.history[j].1);
                            }
                            match old(self)@.spec_gps_step(*new_absolute) {
                                Ok(w) => {
                                    assert(v.history =~= w.history);
                                    assert(v == w);
                                },
                                Err(_) => {
                                    assert(false);
                                },
                            }
                        }
                        Ok(())
                    },
                }
            },
            LocationMode::Absolute(_) => {
                let la = self.loc_absolute.unwrap();
                if la.eq_v(new_absolute) {
                    Ok(())
                } else {
                    Err(TurtleError::GeometricInconsistency)
                }
            },
        }
    }

    /// Recompute the derived absolute pose and log it, per `spec_refresh`.
    fn update_absolute_location(&mut self)
        requires
            core_wf(old(self)@),
        ensures
            final(self)@ == old(self)@.spec_refresh(),
    {
        let prec = self.location_precision;
        match prec {
            LocationMode::Absolute((base, rot)) => {
                let loc_wrot = rot.apply_to(&self.loc);
                let loc_woffset = loc_wrot.add(&base);
                self.loc_absolute = Some(loc_woffset);
                let unit = self.direction.to_unit_vector();
                let unit_rotated = rot.apply_to(&unit);
                let as_axis_dir = AxisDirection::from(&unit_rotated);
                self.direction_absolute = as_axis_dir;
                let push = match self.history.last() {
                    Some(last) => !(last.0.eq_v(&loc_woffset) && last.1 == as_axis_dir),
                    None => true,
                };
                if push {
                    self.history.push((loc_woffset, as_axis_dir));
                }
            },
            LocationMode::Relative(_) => {
                let latest_loc = self.loc;
                let latest_dir = self.direction;
                let push = match self.history.last() {
                    Some(last) => !(last.0.eq_v(&latest_loc) && last.1 == latest_dir),
                    None => true,
                };
                if push {
                    self.history.push((latest_loc, latest_dir));
                }
            },
        }
    }

    /// The unit displacement one step in `move_direction` causes in the
    /// agent's own frame.
    pub fn get_dest_direction_local(&self, move_direction: &RelativeDirection) -> (r: Vec3)
        requires
            is_move_direction(self@.direction, *move_direction),
        ensures
            r == dest_dir_of(self@.direction, *move_direction),
    {
        get_dest_axisdirection(&self.direction, move_direction)
    }

    /// The unit displacement in absolute terms, or nothing while the
    /// absolute frame is still unknown.
    pub fn get_dest_direction_absolute(&self, move_direction: &RelativeDirection) -> (r: Option<Vec3>)
        requires
            self@.wf(),
            *move_direction == RelativeDirection::Forward || *move_direction == RelativeDirection::Backward
            || *move_direction == RelativeDirection::Up || *move_direction == RelativeDirection::Down,
        ensures
            r is Some <==> self@.loc_absolute is Some,
            r is Some ==> r == Some(dest_dir_of(self@.direction_absolute, *move_direction)),
    {
        if self.loc_absolute.is_none() {
            None
        } else {
            Some(get_dest_axisdirection(&self.direction_absolute, move_direction))
        }
    }

    /// The absolute cell one step in `move_direction` would reach, or
    /// nothing while the absolute frame is still unknown.
    pub fn get_dest_position_absolute(&self, move_direction: &RelativeDirection) -> (r: Option<Vec3>)
        requires
            self@.wf(),
            *move_direction == RelativeDirection::Forward || *move_direction == RelativeDirection::Backward
            || *move_direction == RelativeDirection::Up || *move_direction == RelativeDirection::Down,
        ensures
            r is Some <==> self@.loc_absolute is Some,
            r is Some ==> r == Some(spec_add(
                self@.loc_absolute.unwrap(),
                dest_dir_of(self@.direction_absolute, *move_direction),
            )),
    {
        match self.loc_absolute {
            None => None,
            Some(la) => {
                let d = get_dest_axisdirection(&self.direction_absolute, move_direction);
                Some(la.add(&d))
            },
        }
    }

    /// Apply one (action, outcome) pair, per `spec_update`: the estimator's
    /// single transition. An unhandled action kind or a contradictory GPS
    /// fix is reported and the state left untouched.
    pub fn update(&mut self, action: &TurtleAction, result: &TurtleActionReturn) -> (r: Result<(), TurtleError>)
        requires
            old(self)@.wf(),
            action_wf(*action),
            old(self)@.move_in_bounds(*action, *result),
            LocView::fix_in_bounds(*result),
        ensures
            match old(self)@.spec_update(*action, *result) {
                Ok(v) => r is Ok && final(self)@ == v && v.wf(),
                Err(e) => r == Err::<(), TurtleError>(e) && final(self)@ == old(self)@,
            },
    {
        match action {
            TurtleAction::Move { direction } => {
                if !matches!(result, TurtleActionReturn::Success) {
                    return Ok(());
                }
                let unit_dir = self.get_dest_direction_local(direction);
                self.loc = self.loc.add(&unit_dir);
                proof {
                    lemma_refresh_wf(self@);
                }
                self.update_absolute_location();
                Ok(())
            },
            TurtleAction::Turn { direction } => {
                if !matches!(result, TurtleActionReturn::Success) {
                    return Ok(());
                }
                let new_dir = if *direction == RelativeDirection::Left {
                    self.direction.rotate_left()
                } else {
                    self.direction.rotate_right()
                };
                self.direction = new_dir;
                proof {
                    lemma_refresh_wf(self@);
                }
                self.update_absolute_location();
                Ok(())
            },
            TurtleAction::GpsLocate { .. } => {
                if let TurtleActionReturn::Coordinate(location) = result {
                    match self.update_gps(location) {
                        Ok(()) => {},
                        Err(e) => {
                            return Err(e);
                        },
                    }
                }
                proof {
                    lemma_refresh_wf(self@);
                }
                self.update_absolute_location();
                Ok(())
            },
            TurtleAction::Detect { .. } | TurtleAction::Inspect { .. } => {
                proof {
                    lemma_refresh_wf(self@);
                }
                self.update_absolute_location();
                Ok(())
            },
            _ => Err(TurtleError::UnsupportedAction),
        }
    }
}


/// The turn-and-step classification of a recorded path: for each pair of
/// consecutive history entries, the absolute displacement direction and the
/// yaw between the two facings.
pub open spec fn path_of(h: Seq<(Vec3, AxisDirection)>) -> Seq<(AxisDirection, Rotation)> {
    Seq::new(
        if h.len() == 0 { 0 } else { (h.len() - 1) as nat },
        |i: int| (
            axis_of_vec(spec_sub(h[i + 1].0, h[i].0)),
            axis_dot(h[i + 1].1, h[i].1),
        ),
    )
}

/// The printable glyph for one path step, given the facing before the step:
/// turns in place render as curved arrows, straight steps as an arrow that
/// also distinguishes forward from backward travel, vertical steps as
/// double-headed arrows. Any other combination is outside the movement
/// vocabulary.
pub open spec fn glyph_of(step: (AxisDirection, Rotation), facing: AxisDirection) -> Option<char> {
    if step.0 == AxisDirection::Zero {
        match step.1 {
            Rotation::Y90 => Some('\u{21B7}'),
            Rotation::Y270 => Some('\u{21B6}'),
            _ => None,
        }
    } else if step.1 == Rotation::Y0 {
        match (step.0, facing) {
            (AxisDirection::Xp, AxisDirection::Xp) => Some('\u{2191}'),
            (AxisDirection::Xp, AxisDirection::Xm) => Some('\u{21E1}'),
            (AxisDirection::Xm, AxisDirection::Xm) => Some('\u{2193}'),
            (AxisDirection::Xm, AxisDirection::Xp) => Some('\u{21E3}'),
            (AxisDirection::Zp, AxisDirection::Zp) => Some('\u{2192}'),
            (AxisDirection::Zp, AxisDirection::Zm) => Some('\u{21E2}'),
            (AxisDirection::Zm, AxisDirection::Zm) => Some('\u{2190}'),
            (AxisDirection::Zm, AxisDirection::Zp) => Some('\u{21E0}'),
            (AxisDirection::Yp, _) => Some('\u{219F}'),
            (AxisDirection::Ym, _) => Some('\u{21A1}'),
            _ => None,
        }
    } else {
        None
    }
}

/// The glyph rendering of a whole history, if every step is inside the
/// movement vocabulary.
pub open spec fn glyphs_of(h: Seq<(Vec3, AxisDirection)>) -> Option<Seq<char>> {
    let p = path_of(h);
    if forall|i: int| 0 <= i < p.len() ==> (#[trigger] glyph_of(p[i], h[i].1)) is Some {
        Some(Seq::new(p.len(), |i: int| glyph_of(p[i], h[i].1).unwrap()))
    } else {
        None
    }
}

/// Exec mirror of `glyph_of`.
fn glyph_step(step: (AxisDirection, Rotation), facing: AxisDirection) -> (r: Option<char>)
    ensures
        r == glyph_of(step, facing),
{
    if step.0 == AxisDirection::Zero {
        match step.1 {
            Rotation::Y90 => Some('\u{21B7}'),
            Rotation::Y270 => Some('\u{21B6}'),
            _ => None,
        }
    } else if step.1 == Rotation::Y0 {
        match (step.0, facing) {
            (AxisDirection::Xp, AxisDirection::Xp) => Some('\u{2191}'),
            (AxisDirection::Xp, AxisDirection::Xm) => Some('\u{21E1}'),
            (AxisDirection::Xm, AxisDirection::Xm) => Some('\u{2193}'),
            (AxisDirection::Xm, AxisDirection::Xp) => Some('\u{21E3}'),
            (AxisDirection::Zp, AxisDirection::Zp) => Some('\u{2192}'),
            (AxisDirection::Zp, AxisDirection::Zm) => Some('\u{21E2}'),
            (AxisDirection::Zm, AxisDirection::Zm) => Some('\u{2190}'),
            (AxisDirection::Zm, AxisDirection::Zp) => Some('\u{21E0}'),
            (AxisDirection::Yp, _) => Some('\u{219F}'),
            (AxisDirection::Ym, _) => Some('\u{21A1}'),
            _ => None,
        }
    } else {
        None
    }
}

impl LocationState {
    /// The recorded path as (displacement direction, facing yaw) pairs,
    /// diffing consecutive history entries.
    pub fn get_path_absolute(&self) -> (r: Vec<(AxisDirection, Rotation)>)
        requires
            self@.wf(),
        ensures
            r@ == path_of(self@.history),
    {
        let mut result: Vec<(AxisDirection, Rotation)> = Vec::new();
        if self.history.len() == 0 {
            proof {
                assert(result@ =~= path_of(self@.history));
            }
            return result;
        }
        let mut i: usize = 1;
        while i < self.history.len()
            invariant
                self@.wf(),
                1 <= i <= self.history@.len(),
                result@.len() == i - 1,
                forall|j: int| 0 <= j < i - 1 ==> #[trigger] result@[j] == path_of(self@.history)[j],
            decreases self.history@.len() - i,
        {
            let first = self.history[i - 1];
            let second = self.history[i];
            proof {
                let h = self@.history;
                assert(is_horizontal(h[i as int].1));
                assert(is_horizontal(h[i - 1].1));
                match self@.location_precision {
                    LocationMode::Relative(_) => {
                        assert(coord_bounded(h[i as int].0, 1));
                        assert(coord_bounded(h[i - 1].0, 1));
                    },
                    LocationMode::Absolute(_) => {
                        assert(coord_bounded(h[i as int].0, 3));
                        assert(coord_bounded(h[i - 1].0, 3));
                    },
                }
            }
            let delta_coord = second.0.sub(&first.0);
            let delta = AxisDirection::from(&delta_coord);
            let delta_dir = AxisDirection::dot(&second.1, &first.1);
            result.push((delta, delta_dir));
            i = i + 1;
        }
        proof {
            assert(result@ =~= path_of(self@.history));
        }
        result
    }

    /// Render the recorded path as one glyph per step. A step outside the
    /// closed movement vocabulary means the history was not produced by the
    /// agent's own motions: that is reported, not guessed at.
    pub fn path_glyphs(&self) -> (r: Result<Vec<char>, TurtleError>)
        requires
            self@.wf(),
        ensures
            match glyphs_of(self@.history) {
                Some(s) => r is Ok && r.unwrap()@ == s,
                None => r == Err::<Vec<char>, TurtleError>(TurtleError::MalformedHistory),
            },
    {
        let path = self.get_path_absolute();
        let mut result: Vec<char> = Vec::new();
        let mut i: usize = 0;
        let ghost p = path_of(self@.history);
        while i < path.len()
            invariant
                self@.wf(),
                p == path_of(self@.history),
                path@ == p,
                i <= p.len(),
                p.len() < self.history@.len() || p.len() == 0,
                result@.len() == i,
                forall|j: int| 0 <= j < i ==> (#[trigger] glyph_of(p[j], self@.history[j].1)) is Some,
                forall|j: int| 0 <= j < i ==> #[trigger] result@[j]
                    == glyph_of(p[j], self@.history[j].1).unwrap(),
            decreases p.len() - i,
        {
            let facing = self.history[i].1;
            match glyph_step(path[i], facing) {
                Some(c) => {
                    result.push(c);
                },
                None => {
                    proof {
                        assert(glyph_of(p[i as int], self@.history[i as int].1) is None);
                        assert(glyphs_of(self@.history) is None);
                    }
                    return Err(TurtleError::MalformedHistory);
                },
            }
            i = i + 1;
        }
        proof {
            assert(glyphs_of(self@.history) is Some);
            assert(result@ =~= glyphs_of(self@.history).unwrap());
        }
        Ok(result)
    }
}

/// A well-formed state's derived absolute position stays within three
/// times the coordinate limit.
pub proof fn lemma_wf_absolute_bounded(v: LocView)
    requires
        v.wf(),
        (v.loc_absolute is Some),
    ensures
        coord_bounded(v.loc_absolute.unwrap(), 3),
{
    match v.location_precision {
        LocationMode::Absolute(t) => {
            assert(v.loc_absolute.unwrap() == absolute_of(t.1, t.0, v.loc));
        },
        LocationMode::Relative(_) => {
            assert(false);
        },
    }
}

/// Refreshing twice is the same as refreshing once: the refresh recomputes
/// the same pose and idempotent logging declines the duplicate entry.
pub proof fn lemma_refresh_idempotent(v: LocView)
    ensures
        v.spec_refresh().spec_refresh() == v.spec_refresh(),
{
    let v1 = v.spec_refresh();
    assert(v1.history.last() == v1.latest_entry());
    assert(v1.spec_refresh().history =~= v1.history);
}

/// Calibration is idempotent: once calibrated, a GPS fix at exactly the
/// predicted position is accepted, leaves the calibration untouched, and a
/// repetition of the same fix changes nothing at all - in particular it
/// never appends a duplicate history entry.
pub proof fn lemma_calibration_idempotence(s: LocView, timeout_ms: u32, debug: bool)
    requires
        s.wf(),
        s.location_precision is Absolute,
    ensures
        ({
            let a = TurtleAction::GpsLocate { timeout_ms, debug };
            let fix = TurtleActionReturn::Coordinate(s.loc_absolute.unwrap());
            let r1 = s.spec_update(a, fix);
            &&& r1 is Ok
            &&& r1.unwrap().location_precision == s.location_precision
            &&& r1.unwrap().loc == s.loc
            &&& r1.unwrap().loc_absolute == s.loc_absolute
            &&& r1.unwrap().direction == s.direction
            &&& r1.unwrap().direction_absolute == s.direction_absolute
            &&& ((s.history.len() > 0 && s.history.last() == s.latest_entry())
                ==> r1 == Ok::<LocView, TurtleError>(s))
            &&& r1.unwrap().spec_update(a, fix) == Ok::<LocView, TurtleError>(r1.unwrap())
        }),
{
    let a = TurtleAction::GpsLocate { timeout_ms, debug };
    let fix = TurtleActionReturn::Coordinate(s.loc_absolute.unwrap());
    assert(s.spec_gps_step(s.loc_absolute.unwrap()) == Ok::<LocView, TurtleError>(s));
    let s1 = s.spec_refresh();
    lemma_refresh_idempotent(s);
    assert(s1.spec_gps_step(s.loc_absolute.unwrap()) == Ok::<LocView, TurtleError>(s1));
}

/// The history backfill law: the fix that completes calibration re-expresses
/// every previously recorded (relative-frame) history entry in the absolute
/// frame, using exactly the discovered transform, entry for entry - both at
/// the calibration step itself and through the estimator's whole update,
/// which further derives the absolute pose from the new transform.
pub proof fn lemma_history_backfill(s: LocView, c: Vec3, timeout_ms: u32, debug: bool)
    requires
        s.wf(),
        s.location_precision matches LocationMode::Relative(Some(_)),
        ({
            let fix = s.location_precision->Relative_0.unwrap();
            let rel_diff = spec_sub(s.loc, fix.0);
            &&& !(rel_diff.0 == 0 && rel_diff.2 == 0)
            &&& spec_find_rotation(rel_diff, spec_sub(c, fix.1)) is Some
        }),
    ensures
        ({
            let fix = s.location_precision->Relative_0.unwrap();
            let rel_diff = spec_sub(s.loc, fix.0);
            let rot = spec_find_rotation(rel_diff, spec_sub(c, fix.1)).unwrap();
            let offset = spec_sub(fix.1, rot_vec(rot, fix.0));
            let r = s.spec_gps_step(c);
            &&& r is Ok
            &&& r.unwrap().location_precision == LocationMode::Absolute((offset, rot))
            &&& r.unwrap().history.len() == s.history.len()
            &&& forall|i: int| 0 <= i < s.history.len()
                ==> r.unwrap().history[i] == entry_transformed(rot, offset, #[trigger] s.history[i])
        }),
        ({
            let fix = s.location_precision->Relative_0.unwrap();
            let rel_diff = spec_sub(s.loc, fix.0);
            let rot = spec_find_rotation(rel_diff, spec_sub(c, fix.1)).unwrap();
            let offset = spec_sub(fix.1, rot_vec(rot, fix.0));
            let a = TurtleAction::GpsLocate { timeout_ms, debug };
            let u = s.spec_update(a, TurtleActionReturn::Coordinate(c));
            &&& u is Ok
            &&& u.unwrap().location_precision == LocationMode::Absolute((offset, rot))
            &&& u.unwrap().loc_absolute == Some(absolute_of(rot, offset, s.loc))
            &&& u.unwrap().history.len() >= s.history.len()
            &&& forall|i: int| 0 <= i < s.history.len()
                ==> u.unwrap().history[i] == entry_transformed(rot, offset, #[trigger] s.history[i])
        }),
{
}

/// An update never forgets calibration: once the absolute frame is known,
/// every successful update leaves it known.
pub proof fn lemma_update_keeps_calibration(s: LocView, a: TurtleAction, o: TurtleActionReturn)
    requires
        s.wf(),
        (s.loc_absolute is Some),
        s.spec_update(a, o) is Ok,
    ensures
        s.spec_update(a, o).unwrap().loc_absolute is Some,
{
    match s.location_precision {
        LocationMode::Absolute(t) => {},
        LocationMode::Relative(_) => {
            assert(false);
        },
    }
}

/// The action kinds the estimator interprets; every other kind is an
/// extension point it must fail fast on rather than silently skip.
pub open spec fn location_handles(a: TurtleAction) -> bool {
    match a {
        TurtleAction::Move { .. } | TurtleAction::Turn { .. } | TurtleAction::GpsLocate { .. }
        | TurtleAction::Detect { .. } | TurtleAction::Inspect { .. } => true,
        _ => false,
    }
}

/// The estimator's half of the vocabulary-exhaustiveness law: an update
/// succeeds exactly on the handled action kinds, except that a GPS fix is
/// additionally held to consistency with the calibration; every unhandled
/// action kind fails fast, whatever its outcome.
pub proof fn lemma_location_vocabulary(s: LocView, a: TurtleAction, o: TurtleActionReturn)
    requires
        s.wf(),
    ensures
        !location_handles(a) ==> s.spec_update(a, o) == Err::<LocView, TurtleError>(TurtleError::UnsupportedAction),
        location_handles(a) && !(a is GpsLocate) ==> s.spec_update(a, o) is Ok,
        a is GpsLocate && !(o is Coordinate) ==> s.spec_update(a, o) is Ok,
        (a is GpsLocate && o is Coordinate)
            ==> (s.spec_update(a, o) is Ok <==> s.spec_gps_step(o->Coordinate_0) is Ok),
{
}

} // verus!


