use turtlers::turtle_rotation::{AxisDirection, RelativeDirection, Rotation, get_dest_pos};
use turtlers::turtle_action::{parse_failure_reason, FailureReason};
use turtlers::vec3::Vec3;

#[test]
fn test_axis_dot() {
    let cases = [
        (AxisDirection::Xm, AxisDirection::Xm, Rotation::Y0),
        (AxisDirection::Xp, AxisDirection::Zm, Rotation::Y270),
        (AxisDirection::Xp, AxisDirection::Xm, Rotation::Y180),
        (AxisDirection::Xp, AxisDirection::Zp, Rotation::Y90),
    ];
    for case in &cases {
        let (lhs, rhs, rot) = case;
        let result = AxisDirection::dot(lhs, rhs);
        assert_eq!(rot, &result);
    }
}

#[test]
fn rotation_round_trip_all_horizontal_pairs() {
    let dirs = [AxisDirection::Xp, AxisDirection::Xm, AxisDirection::Zp, AxisDirection::Zm];
    for a in &dirs {
        for b in &dirs {
            let r = AxisDirection::dot(a, b);
            let rotated = r.apply_to(&a.to_unit_vector());
            assert_eq!(rotated, b.to_unit_vector());
            let recovered = Rotation::find_rotation(&a.to_unit_vector(), &b.to_unit_vector());
            assert_eq!(recovered, r);
        }
    }
}

#[test]
fn apply_to_rotates_only_horizontally() {
    let v = Vec3(3, 7, -2);
    assert_eq!(Vec3(3, 7, -2), Rotation::Y0.apply_to(&v));
    assert_eq!(Vec3(2, 7, 3), Rotation::Y90.apply_to(&v));
    assert_eq!(Vec3(-3, 7, 2), Rotation::Y180.apply_to(&v));
    assert_eq!(Vec3(-2, 7, -3), Rotation::Y270.apply_to(&v));
}

#[test]
fn find_rotation_picks_first_match_in_fixed_order() {
    // A purely vertical displacement matches every rotation; Y0 comes first.
    assert_eq!(
        Rotation::Y0,
        Rotation::find_rotation(&Vec3(0, 3, 0), &Vec3(0, -5, 0))
    );
}

#[test]
fn rotate_left_right_are_inverse() {
    let dirs = [AxisDirection::Xp, AxisDirection::Xm, AxisDirection::Zp, AxisDirection::Zm];
    for d in &dirs {
        assert_eq!(*d, d.rotate_left().rotate_right());
        assert_eq!(*d, d.rotate_right().rotate_left());
    }
}

#[test]
fn destination_positions() {
    let pos = Vec3(5, 1, -2);
    assert_eq!(
        Vec3(5, 2, -2),
        get_dest_pos(&pos, &AxisDirection::Zm, &RelativeDirection::Up)
    );
    assert_eq!(
        Vec3(5, 1, -3),
        get_dest_pos(&pos, &AxisDirection::Zm, &RelativeDirection::Forward)
    );
    assert_eq!(
        Vec3(5, 1, -1),
        get_dest_pos(&pos, &AxisDirection::Zm, &RelativeDirection::Backward)
    );
}

#[test]
fn parse_failure_reason_all_known_texts() {
    let cases = [
        ("Movement obstructed", FailureReason::MovementObstructed),
        ("No block to inspect", FailureReason::NoBlockToInspect),
        ("No items to place", FailureReason::NoItemsToPlace),
        ("Cannot place item here", FailureReason::CanNotPlaceItemHere),
        ("Cannot place block here", FailureReason::CanNotPlaceBlockHere),
        ("Nothing to dig here", FailureReason::NothingToDigHere),
        ("Nothing to attack here", FailureReason::NothingToAttackHere),
        ("No items to take", FailureReason::NoItemsToTake),
        ("No items to drop", FailureReason::NoItemsToDrop),
        ("No space for items", FailureReason::NoSpaceForItems),
        ("Unbreakable block detected", FailureReason::UnbreakableBlockDetected),
    ];
    for (text, reason) in &cases {
        assert_eq!(Some(*reason), parse_failure_reason(text));
    }
    assert_eq!(None, parse_failure_reason("Gremlins in the gears"));
}
