//! Directions and yaw rotations. An `AxisDirection` is one of the six axis
//! unit headings (plus a zero sentinel); a `Rotation` is one of the four
//! 90-degree yaw rotations about the vertical axis. Facing recovery and all
//! frame transforms go through these.

use vstd::prelude::*;
use crate::vec3::Vec3;

verus! {

/// A direction relative to the agent's own facing.
#[derive(PartialEq, Eq, Structural, Clone, Copy, Hash, Debug)]
pub enum RelativeDirection {
    Forward,
    Backward,
    Right,
    Left,
    Down,
    Up,
}

/// An absolute axis-aligned heading. `Zero` stands for the zero vector and is
/// not a valid heading.
#[derive(PartialEq, Eq, Structural, Clone, Copy, Hash, Debug)]
pub enum AxisDirection {
    Zero,
    Xp,
    Xm,
    Zp,
    Zm,
    Yp,
    Ym,
}

/// A yaw: rotation about the vertical (Y) axis by a multiple of 90 degrees.
#[derive(PartialEq, Eq, Structural, Clone, Copy, Hash, Debug)]
pub enum Rotation {
    Y0,
    Y90,
    Y180,
    Y270,
}

/// X component of a vector with X component `x` and Z component `z`, after
/// yaw `r`.
pub open spec fn yaw_x(r: Rotation, x: int, z: int) -> int {
    match r {
        Rotation::Y0 => x,
        Rotation::Y90 => -z,
        Rotation::Y180 => -x,
        Rotation::Y270 => z,
    }
}

/// Z component of a vector with X component `x` and Z component `z`, after
/// yaw `r`.
pub open spec fn yaw_z(r: Rotation, x: int, z: int) -> int {
    match r {
        Rotation::Y0 => z,
        Rotation::Y90 => x,
        Rotation::Y180 => -z,
        Rotation::Y270 => -x,
    }
}

/// The vector `v` after yaw `r`; exact whenever the components of `v` are
/// above `i32::MIN`, so that the negations fit.
pub open spec fn rot_vec(r: Rotation, v: Vec3) -> Vec3 {
    Vec3(
        yaw_x(r, v.0 as int, v.2 as int) as i32,
        v.1,
        yaw_z(r, v.0 as int, v.2 as int) as i32,
    )
}

/// Does yaw `r` take the X/Z components of `src` to those of `dst`?
pub open spec fn yaw_matches(r: Rotation, src: Vec3, dst: Vec3) -> bool {
    yaw_x(r, src.0 as int, src.2 as int) == dst.0 as int
    && yaw_z(r, src.0 as int, src.2 as int) == dst.2 as int
}

/// The first rotation in the fixed order that takes `src`'s horizontal
/// components to `dst`'s, if any does.
pub open spec fn spec_find_rotation(src: Vec3, dst: Vec3) -> Option<Rotation> {
    if yaw_matches(Rotation::Y0, src, dst) {
        Some(Rotation::Y0)
    } else if yaw_matches(Rotation::Y90, src, dst) {
        Some(Rotation::Y90)
    } else if yaw_matches(Rotation::Y180, src, dst) {
        Some(Rotation::Y180)
    } else if yaw_matches(Rotation::Y270, src, dst) {
        Some(Rotation::Y270)
    } else {
        None
    }
}

impl Rotation {
    /// Rotate a vector's X/Z components by this yaw; Y is untouched.
    pub fn apply_to(&self, vec: &Vec3) -> (r: Vec3)
        requires
            vec.0 > i32::MIN,
            vec.2 > i32::MIN,
        ensures
            r == rot_vec(*self, *vec),
    {
        match self {
            Rotation::Y0 => Vec3(vec.0, vec.1, vec.2),
            Rotation::Y90 => Vec3(-vec.2, vec.1, vec.0),
            Rotation::Y180 => Vec3(-vec.0, vec.1, -vec.2),
            Rotation::Y270 => Vec3(vec.2, vec.1, -vec.0),
        }
    }

    /// Exhaustive search, in a fixed order, for the yaw relating `src` to
    /// `dst` on the horizontal components only. The two displacements must be
    /// related by a pure yaw: anything else is a geometric impossibility that
    /// callers must rule out.
    pub fn find_rotation(src: &Vec3, dst: &Vec3) -> (r: Self)
        requires
            src.0 > i32::MIN,
            src.2 > i32::MIN,
            spec_find_rotation(*src, *dst) is Some,
        ensures
            Some(r) == spec_find_rotation(*src, *dst),
    {
        if src.0 == dst.0 && src.2 == dst.2 {
            Rotation::Y0
        } else if 0 - src.2 == dst.0 && src.0 == dst.2 {
            Rotation::Y90
        } else if 0 - src.0 == dst.0 && 0 - src.2 == dst.2 {
            Rotation::Y180
        } else {
            Rotation::Y270
        }
    }
}

/// The unit vector of a heading; the zero vector for `Zero`.
pub open spec fn unit_vec_of(d: AxisDirection) -> Vec3 {
    match d {
        AxisDirection::Zero => Vec3(0, 0, 0),
        AxisDirection::Xp => Vec3(1, 0, 0),
        AxisDirection::Xm => Vec3(-1i32, 0, 0),
        AxisDirection::Zp => Vec3(0, 0, 1),
        AxisDirection::Zm => Vec3(0, 0, -1i32),
        AxisDirection::Yp => Vec3(0, 1, 0),
        AxisDirection::Ym => Vec3(0, -1i32, 0),
    }
}

/// The heading whose unit vector is `v`; `Zero` for any other vector.
pub open spec fn axis_of_vec(v: Vec3) -> AxisDirection {
    if v == (Vec3(1, 0, 0)) {
        AxisDirection::Xp
    } else if v == (Vec3(-1i32, 0, 0)) {
        AxisDirection::Xm
    } else if v == (Vec3(0, 0, 1)) {
        AxisDirection::Zp
    } else if v == (Vec3(0, 0, -1i32)) {
        AxisDirection::Zm
    } else if v == (Vec3(0, 1, 0)) {
        AxisDirection::Yp
    } else if v == (Vec3(0, -1i32, 0)) {
        AxisDirection::Ym
    } else {
        AxisDirection::Zero
    }
}

/// The four horizontal headings: the only ones a yaw turn is defined on.
pub open spec fn is_horizontal(d: AxisDirection) -> bool {
    d == AxisDirection::Xp || d == AxisDirection::Xm
    || d == AxisDirection::Zp || d == AxisDirection::Zm
}

/// The heading after a 90-degree right turn.
pub open spec fn right_of(d: AxisDirection) -> AxisDirection {
    match d {
        AxisDirection::Xp => AxisDirection::Zp,
        AxisDirection::Zp => AxisDirection::Xm,
        AxisDirection::Xm => AxisDirection::Zm,
        AxisDirection::Zm => AxisDirection::Xp,
        _ => AxisDirection::Zero,
    }
}

/// The heading after a 90-degree left turn.
pub open spec fn left_of(d: AxisDirection) -> AxisDirection {
    match d {
        AxisDirection::Xp => AxisDirection::Zm,
        AxisDirection::Zm => AxisDirection::Xm,
        AxisDirection::Xm => AxisDirection::Zp,
        AxisDirection::Zp => AxisDirection::Xp,
        _ => AxisDirection::Zero,
    }
}

/// Are the two headings exactly opposite?
pub open spec fn is_opposite(a: AxisDirection, b: AxisDirection) -> bool {
    a != AxisDirection::Zero && b != AxisDirection::Zero
    && unit_vec_of(a) == (Vec3(
        -unit_vec_of(b).0 as i32,
        -unit_vec_of(b).1 as i32,
        -unit_vec_of(b).2 as i32,
    ))
}

/// The yaw that takes heading `lhs` to heading `rhs`. Defined for two
/// horizontal headings, for equal headings, and for opposite headings.
pub open spec fn axis_dot(lhs: AxisDirection, rhs: AxisDirection) -> Rotation {
    if lhs == rhs {
        Rotation::Y0
    } else if is_opposite(lhs, rhs) {
        Rotation::Y180
    } else if left_of(lhs) == rhs {
        Rotation::Y270
    } else {
        Rotation::Y90
    }
}

/// Is this pairing one that `AxisDirection::dot` classifies?
pub open spec fn dot_defined(lhs: AxisDirection, rhs: AxisDirection) -> bool {
    (lhs == rhs && lhs != AxisDirection::Zero)
    || is_opposite(lhs, rhs)
    || (is_horizontal(lhs) && is_horizontal(rhs))
}

impl AxisDirection {
    /// Classify a vector as a unit heading; any non-unit vector maps to
    /// `Zero`.
    pub fn from(unit_vec: &Vec3) -> (r: Self)
        ensures
            r == axis_of_vec(*unit_vec),
    {
        if unit_vec.eq_v(&Vec3(1, 0, 0)) {
            AxisDirection::Xp
        } else if unit_vec.eq_v(&Vec3(-1i32, 0, 0)) {
            AxisDirection::Xm
        } else if unit_vec.eq_v(&Vec3(0, 0, 1)) {
            AxisDirection::Zp
        } else if unit_vec.eq_v(&Vec3(0, 0, -1i32)) {
            AxisDirection::Zm
        } else if unit_vec.eq_v(&Vec3(0, 1, 0)) {
            AxisDirection::Yp
        } else if unit_vec.eq_v(&Vec3(0, -1i32, 0)) {
            AxisDirection::Ym
        } else {
            AxisDirection::Zero
        }
    }

    /// The unit vector of this heading. The zero sentinel has no unit vector.
    pub fn to_unit_vector(&self) -> (r: Vec3)
        requires
            *self != AxisDirection::Zero,
        ensures
            r == unit_vec_of(*self),
    {
        match self {
            AxisDirection::Xp => Vec3(1, 0, 0),
            AxisDirection::Xm => Vec3(-1i32, 0, 0),
            AxisDirection::Zp => Vec3(0, 0, 1),
            AxisDirection::Zm => Vec3(0, 0, -1i32),
            AxisDirection::Yp => Vec3(0, 1, 0),
            AxisDirection::Ym => Vec3(0, -1i32, 0),
            AxisDirection::Zero => Vec3(0, 0, 0),
        }
    }

    /// Turn 90 degrees right. Only horizontal headings can turn.
    pub fn rotate_right(&self) -> (r: AxisDirection)
        requires
            is_horizontal(*self),
        ensures
            r == right_of(*self),
    {
        match self {
            AxisDirection::Xp => AxisDirection::Zp,
            AxisDirection::Zp => AxisDirection::Xm,
            AxisDirection::Xm => AxisDirection::Zm,
            _ => AxisDirection::Xp,
        }
    }

    /// Turn 90 degrees left. Only horizontal headings can turn.
    pub fn rotate_left(&self) -> (r: AxisDirection)
        requires
            is_horizontal(*self),
        ensures
            r == left_of(*self),
    {
        match self {
            AxisDirection::Xp => AxisDirection::Zm,
            AxisDirection::Zm => AxisDirection::Xm,
            AxisDirection::Xm => AxisDirection::Zp,
            _ => AxisDirection::Xp,
        }
    }

    /// The yaw relating two headings: `Y0` if equal, `Y180` if opposite,
    /// `Y90`/`Y270` for a single right/left turn. Any other pairing is a
    /// geometric impossibility.
    pub fn dot(lhs: &AxisDirection, rhs: &AxisDirection) -> (r: Rotation)
        requires
            dot_defined(*lhs, *rhs),
        ensures
            r == axis_dot(*lhs, *rhs),
    {
        if lhs == rhs {
            Rotation::Y0
        } else {
            let lhs_vec = lhs.to_unit_vector();
            let rhs_vec = rhs.to_unit_vector();
            if lhs_vec.eq_v(&rhs_vec.neg()) {
                Rotation::Y180
            } else if lhs.rotate_left() == *rhs {
                Rotation::Y270
            } else {
                Rotation::Y90
            }
        }
    }
}

/// The unit displacement of one translational step, given the current
/// facing. Left/right are turns, not displacements.
pub open spec fn dest_dir_of(cur_axis: AxisDirection, move_direction: RelativeDirection) -> Vec3 {
    match move_direction {
        RelativeDirection::Up => Vec3(0, 1, 0),
        RelativeDirection::Down => Vec3(0, -1i32, 0),
        RelativeDirection::Forward => unit_vec_of(cur_axis),
        RelativeDirection::Backward => Vec3(
            -unit_vec_of(cur_axis).0 as i32,
            -unit_vec_of(cur_axis).1 as i32,
            -unit_vec_of(cur_axis).2 as i32,
        ),
        _ => Vec3(0, 0, 0),
    }
}

/// Is `move_direction` a displacement (not a turn), with a facing to give it
/// a direction?
pub open spec fn is_move_direction(cur_axis: AxisDirection, move_direction: RelativeDirection) -> bool {
    match move_direction {
        RelativeDirection::Up | RelativeDirection::Down => true,
        RelativeDirection::Forward | RelativeDirection::Backward => cur_axis != AxisDirection::Zero,
        _ => false,
    }
}

/// The unit displacement one step in `move_direction` causes, for an agent
/// facing `cur_axis`.
pub fn get_dest_axisdirection(cur_axis: &AxisDirection, move_direction: &RelativeDirection) -> (r: Vec3)
    requires
        is_move_direction(*cur_axis, *move_direction),
    ensures
        r == dest_dir_of(*cur_axis, *move_direction),
{
    match move_direction {
        RelativeDirection::Up => Vec3(0, 1, 0),
        RelativeDirection::Down => Vec3(0, -1i32, 0),
        RelativeDirection::Forward => cur_axis.to_unit_vector(),
        RelativeDirection::Backward => cur_axis.to_unit_vector().neg(),
        _ => Vec3(0, 0, 0),
    }
}

/// The cell one step in `move_direction` from `cur_pos`, for an agent facing
/// `cur_axis`.
pub fn get_dest_pos(cur_pos: &Vec3, cur_axis: &AxisDirection, move_direction: &RelativeDirection) -> (r: Vec3)
    requires
        is_move_direction(*cur_axis, *move_direction),
        i32::MIN < cur_pos.0 < i32::MAX,
        i32::MIN < cur_pos.1 < i32::MAX,
        i32::MIN < cur_pos.2 < i32::MAX,
    ensures
        r.0 == cur_pos.0 + dest_dir_of(*cur_axis, *move_direction).0,
        r.1 == cur_pos.1 + dest_dir_of(*cur_axis, *move_direction).1,
        r.2 == cur_pos.2 + dest_dir_of(*cur_axis, *move_direction).2,
{
    let loc_dir = get_dest_axisdirection(cur_axis, move_direction);
    cur_pos.add(&loc_dir)
}

/// The rotations tried in order, as a total search: the first match if any.
pub fn try_find_rotation(src: &Vec3, dst: &Vec3) -> (r: Option<Rotation>)
    requires
        src.0 > i32::MIN,
        src.2 > i32::MIN,
    ensures
        r == spec_find_rotation(*src, *dst),
{
    if src.0 == dst.0 && src.2 == dst.2 {
        Some(Rotation::Y0)
    } else if 0 - src.2 == dst.0 && src.0 == dst.2 {
        Some(Rotation::Y90)
    } else if 0 - src.0 == dst.0 && 0 - src.2 == dst.2 {
        Some(Rotation::Y180)
    } else if src.2 == dst.0 && 0 - src.0 == dst.2 {
        Some(Rotation::Y270)
    } else {
        None
    }
}

/// A yaw takes a horizontal heading's unit vector to another horizontal
/// heading's unit vector.
pub proof fn lemma_rot_axis_horizontal(r: Rotation, d: AxisDirection)
    requires
        is_horizontal(d),
    ensures
        is_horizontal(axis_of_vec(rot_vec(r, unit_vec_of(d)))),
        unit_vec_of(axis_of_vec(rot_vec(r, unit_vec_of(d)))) == rot_vec(r, unit_vec_of(d)),
{
    match (r, d) {
        (Rotation::Y0, _) => assert(is_horizontal(axis_of_vec(rot_vec(r, unit_vec_of(d))))),
        (Rotation::Y90, _) => assert(is_horizontal(axis_of_vec(rot_vec(r, unit_vec_of(d))))),
        (Rotation::Y180, _) => assert(is_horizontal(axis_of_vec(rot_vec(r, unit_vec_of(d))))),
        (Rotation::Y270, _) => assert(is_horizontal(axis_of_vec(rot_vec(r, unit_vec_of(d))))),
    }
}

/// Every pair of horizontal headings is related by exactly one yaw: the one
/// `axis_dot` classifies. That yaw takes the first heading's unit vector to
/// the second's, and the exhaustive search of `find_rotation` recovers it
/// from the unit vectors alone.
pub proof fn lemma_rotation_round_trip(a: AxisDirection, b: AxisDirection)
    requires
        is_horizontal(a),
        is_horizontal(b),
    ensures
        rot_vec(axis_dot(a, b), unit_vec_of(a)) == unit_vec_of(b),
        spec_find_rotation(unit_vec_of(a), unit_vec_of(b)) == Some(axis_dot(a, b)),
{
    match (a, b) {
        (AxisDirection::Xp, AxisDirection::Xp) => {
            assert(rot_vec(axis_dot(a, b), unit_vec_of(a)) == unit_vec_of(b));
            assert(spec_find_rotation(unit_vec_of(a), unit_vec_of(b)) == Some(axis_dot(a, b)));
        },
        (AxisDirection::Xp, AxisDirection::Xm) => {
            assert(rot_vec(axis_dot(a, b), unit_vec_of(a)) == unit_vec_of(b));
            assert(spec_find_rotation(unit_vec_of(a), unit_vec_of(b)) == Some(axis_dot(a, b)));
        },
        (AxisDirection::Xp, AxisDirection::Zp) => {
            assert(rot_vec(axis_dot(a, b), unit_vec_of(a)) == unit_vec_of(b));
            assert(spec_find_rotation(unit_vec_of(a), unit_vec_of(b)) == Some(axis_dot(a, b)));
        },
        (AxisDirection::Xp, AxisDirection::Zm) => {
            assert(rot_vec(axis_dot(a, b), unit_vec_of(a)) == unit_vec_of(b));
            assert(spec_find_rotation(unit_vec_of(a), unit_vec_of(b)) == Some(axis_dot(a, b)));
        },
        (AxisDirection::Xm, AxisDirection::Xp) => {
            assert(rot_vec(axis_dot(a, b), unit_vec_of(a)) == unit_vec_of(b));
            assert(spec_find_rotation(unit_vec_of(a), unit_vec_of(b)) == Some(axis_dot(a, b)));
        },
        (AxisDirection::Xm, AxisDirection::Xm) => {
            assert(rot_vec(axis_dot(a, b), unit_vec_of(a)) == unit_vec_of(b));
            assert(spec_find_rotation(unit_vec_of(a), unit_vec_of(b)) == Some(axis_dot(a, b)));
        },
        (AxisDirection::Xm, AxisDirection::Zp) => {
            assert(rot_vec(axis_dot(a, b), unit_vec_of(a)) == unit_vec_of(b));
            assert(spec_find_rotation(unit_vec_of(a), unit_vec_of(b)) == Some(axis_dot(a, b)));
        },
        (AxisDirection::Xm, AxisDirection::Zm) => {
            assert(rot_vec(axis_dot(a, b), unit_vec_of(a)) == unit_vec_of(b));
            assert(spec_find_rotation(unit_vec_of(a), unit_vec_of(b)) == Some(axis_dot(a, b)));
        },
        (AxisDirection::Zp, AxisDirection::Xp) => {
            assert(rot_vec(axis_dot(a, b), unit_vec_of(a)) == unit_vec_of(b));
            assert(spec_find_rotation(unit_vec_of(a), unit_vec_of(b)) == Some(axis_dot(a, b)));
        },
        (AxisDirection::Zp, AxisDirection::Xm) => {
            assert(rot_vec(axis_dot(a, b), unit_vec_of(a)) == unit_vec_of(b));
            assert(spec_find_rotation(unit_vec_of(a), unit_vec_of(b)) == Some(axis_dot(a, b)));
        },
        (AxisDirection::Zp, AxisDirection::Zp) => {
            assert(rot_vec(axis_dot(a, b), unit_vec_of(a)) == unit_vec_of(b));
            assert(spec_find_rotation(unit_vec_of(a), unit_vec_of(b)) == Some(axis_dot(a, b)));
        },
        (AxisDirection::Zp, AxisDirection::Zm) => {
            assert(rot_vec(axis_dot(a, b), unit_vec_of(a)) == unit_vec_of(b));
            assert(spec_find_rotation(unit_vec_of(a), unit_vec_of(b)) == Some(axis_dot(a, b)));
        },
        (AxisDirection::Zm, AxisDirection::Xp) => {
            assert(rot_vec(axis_dot(a, b), unit_vec_of(a)) == unit_vec_of(b));
            assert(spec_find_rotation(unit_vec_of(a), unit_vec_of(b)) == Some(axis_dot(a, b)));
        },
        (AxisDirection::Zm, AxisDirection::Xm) => {
            assert(rot_vec(axis_dot(a, b), unit_vec_of(a)) == unit_vec_of(b));
            assert(spec_find_rotation(unit_vec_of(a), unit_vec_of(b)) == Some(axis_dot(a, b)));
        },
        (AxisDirection::Zm, AxisDirection::Zp) => {
            assert(rot_vec(axis_dot(a, b), unit_vec_of(a)) == unit_vec_of(b));
            assert(spec_find_rotation(unit_vec_of(a), unit_vec_of(b)) == Some(axis_dot(a, b)));
        },
        (AxisDirection::Zm, AxisDirection::Zm) => {
            assert(rot_vec(axis_dot(a, b), unit_vec_of(a)) == unit_vec_of(b));
            assert(spec_find_rotation(unit_vec_of(a), unit_vec_of(b)) == Some(axis_dot(a, b)));
        },
        _ => assert(false),
    }
}

} // verus!
