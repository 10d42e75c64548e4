use turtlers::location_state::LocationState;
use turtlers::turtle_action::TurtleActionReturn;
use turtlers::turtle_rotation::AxisDirection;
use turtlers::vec3::Vec3;
use turtlers::{go, turn};

#[test]
fn test_single_move() {
    let mut state = LocationState::new();

    assert_eq!(AxisDirection::Xp, state.direction);
    let move_action = go::forward();
    state.update(&move_action, &TurtleActionReturn::Success).unwrap();
    assert_eq!(AxisDirection::Xp, state.direction);
    assert_eq!(Vec3::new(1, 0, 0), state.loc);
    state.update(&go::backward(), &TurtleActionReturn::Success).unwrap();
    assert_eq!(Vec3::zero(), state.loc);
    state.update(&go::up(), &TurtleActionReturn::Success).unwrap();
    assert_eq!(Vec3::new(0, 1, 0), state.loc);
    state.update(&go::down(), &TurtleActionReturn::Success).unwrap();
    assert_eq!(Vec3::zero(), state.loc);
}

#[test]
fn test_turn_move() {
    let mut state = LocationState::new();
    state.update(&turn::left(), &TurtleActionReturn::Success).unwrap();
    assert_eq!(AxisDirection::Zm, state.direction);
    state.update(&go::forward(), &TurtleActionReturn::Success).unwrap();
    assert_eq!(Vec3(0, 0, -1), state.loc);
    state.update(&go::backward(), &TurtleActionReturn::Success).unwrap();
    assert_eq!(Vec3::zero(), state.loc);
    state.update(&turn::right(), &TurtleActionReturn::Success).unwrap();
    state.update(&turn::right(), &TurtleActionReturn::Success).unwrap();
    assert_eq!(AxisDirection::Zp, state.direction);
    state.update(&go::forward(), &TurtleActionReturn::Success).unwrap();
    assert_eq!(Vec3(0, 0, 1), state.loc);
}

#[test]
fn test_circle_turns() {
    let mut state = LocationState::new();
    for _ in 0..4 {
        state.update(&turn::left(), &TurtleActionReturn::Success).unwrap();
        state.update(&go::forward(), &TurtleActionReturn::Success).unwrap();
    }
    assert_eq!(AxisDirection::Xp, state.direction);
    assert_eq!(Vec3::zero(), state.loc);

    for _ in 0..4 {
        state.update(&turn::right(), &TurtleActionReturn::Success).unwrap();
        state.update(&go::forward(), &TurtleActionReturn::Success).unwrap();
    }
    assert_eq!(AxisDirection::Xp, state.direction);
    assert_eq!(Vec3::zero(), state.loc);
}

#[test]
fn failed_moves_do_not_displace() {
    let mut state = LocationState::new();
    state
        .update(
            &go::forward(),
            &TurtleActionReturn::Failure(turtlers::turtle_action::FailureReason::MovementObstructed),
        )
        .unwrap();
    assert_eq!(Vec3::zero(), state.loc);
    assert_eq!(0, state.history.len());
}
