use turtlers::turtle_state::{
    Block, StateSerializationPolicy, WorldState, TurtleState,
};
use turtlers::state_file::{deserialize_worldstate, dimensions};
use turtlers::location_state::{LocationState, LocationMode};
use turtlers::turtle_rotation::{AxisDirection, Rotation};
use turtlers::turtle_action::{TurtleAction, TurtleActionReturn, FailureReason};
use turtlers::error::TurtleError;
use turtlers::vec3::Vec3;
use turtlers::{go, detect, inspect, gps};

fn fresh_world(id: &str) -> WorldState {
    WorldState::new(id.to_string(), StateSerializationPolicy::Discard)
}

/// A location state calibrated so that relative and absolute frames agree.
fn identity_location() -> LocationState {
    let mut loc = LocationState::new();
    loc.update(&gps::locate(), &TurtleActionReturn::Coordinate(Vec3(0, 0, 0)))
        .unwrap();
    loc.update(&go::forward(), &TurtleActionReturn::Success).unwrap();
    loc.update(&gps::locate(), &TurtleActionReturn::Coordinate(Vec3(1, 0, 0)))
        .unwrap();
    loc.update(&go::backward(), &TurtleActionReturn::Success).unwrap();
    assert_eq!(Some(Vec3(0, 0, 0)), loc.loc_absolute);
    loc
}

#[test]
fn test_world_state_loading() {
    WorldState::new(
        "0".to_string(),
        StateSerializationPolicy::LoadOnly { load_dir: "state".to_string() },
    );
}

#[test]
fn block_symbols_round_trip() {
    for b in [Block::Unknown, Block::Air, Block::AirOrGravityBlock, Block::Block] {
        assert_eq!(b, Block::from(b.to_ascii()));
        assert_eq!(Some(b), Block::try_from_char(b.to_ascii()));
    }
    assert_eq!(None, Block::try_from_char('x'));
}

#[test]
fn world_updates_and_lookup() {
    let mut ws = fresh_world("w");
    assert_eq!(Block::Unknown, ws.get(&Vec3(0, 0, 0)));
    assert_eq!(None, ws.is_obstructed(&Vec3(0, 0, 0)));
    let changed = ws.update_at(Vec3(0, 0, 0), Block::Air);
    assert!(changed);
    let changed_again = ws.update_at(Vec3(0, 0, 0), Block::Air);
    assert!(!changed_again);
    ws.update_at(Vec3(1, 0, 0), Block::Block);
    ws.update_at(Vec3(2, 0, 0), Block::AirOrGravityBlock);
    assert_eq!(Some(false), ws.is_obstructed(&Vec3(0, 0, 0)));
    assert_eq!(Some(true), ws.is_obstructed(&Vec3(1, 0, 0)));
    assert_eq!(None, ws.is_obstructed(&Vec3(2, 0, 0)));
    assert_eq!(3, ws.state.len());
}

#[test]
fn obstructed_forward_move_marks_destination_not_self() {
    let loc = identity_location();
    let mut ws = fresh_world("w");
    ws.update(
        &go::forward(),
        &TurtleActionReturn::Failure(FailureReason::MovementObstructed),
        &loc,
    )
    .unwrap();
    // Facing +X at the origin: the destination cell is marked solid.
    assert_eq!(Block::Block, ws.get(&Vec3(1, 0, 0)));
    assert_eq!(Block::Unknown, ws.get(&Vec3(0, 0, 0)));
    // A detect probe of the same cell reporting true keeps it solid.
    ws.update(&detect::forward(), &TurtleActionReturn::Boolean(true), &loc).unwrap();
    assert_eq!(Block::Block, ws.get(&Vec3(1, 0, 0)));
}

#[test]
fn successful_moves_vacate_cells() {
    let loc = identity_location();
    let mut ws = fresh_world("w");
    ws.update(&go::forward(), &TurtleActionReturn::Success, &loc).unwrap();
    assert_eq!(Block::Air, ws.get(&Vec3(0, 0, 0)));
    // A downward move without a known solid cell above gets the weaker mark.
    let mut ws2 = fresh_world("w2");
    ws2.update(&go::down(), &TurtleActionReturn::Success, &loc).unwrap();
    assert_eq!(Block::AirOrGravityBlock, ws2.get(&Vec3(0, 0, 0)));
    // With a solid cell directly above, the vacated cell is known air.
    let mut ws3 = fresh_world("w3");
    ws3.update_at(Vec3(0, 1, 0), Block::Block);
    ws3.update(&go::down(), &TurtleActionReturn::Success, &loc).unwrap();
    assert_eq!(Block::Air, ws3.get(&Vec3(0, 0, 0)));
}

#[test]
fn inspect_nothing_reveals_air() {
    let loc = identity_location();
    let mut ws = fresh_world("w");
    ws.update(
        &inspect::forward(),
        &TurtleActionReturn::Failure(FailureReason::NoBlockToInspect),
        &loc,
    )
    .unwrap();
    assert_eq!(Block::Air, ws.get(&Vec3(1, 0, 0)));
}

#[test]
fn uncalibrated_observer_writes_nothing() {
    let loc = LocationState::new();
    let mut ws = fresh_world("w");
    let changed = ws.update(&go::forward(), &TurtleActionReturn::Success, &loc).unwrap();
    assert!(!changed);
    assert_eq!(0, ws.state.len());
}

#[test]
fn serialization_round_trip() {
    let mut ws = fresh_world("w");
    ws.update_at(Vec3(0, 0, 0), Block::Air);
    ws.update_at(Vec3(2, 0, 1), Block::Block);
    ws.update_at(Vec3(-1, 1, 3), Block::AirOrGravityBlock);
    ws.update_at(Vec3(1, 0, -2), Block::Air);
    let text = ws.serialize();
    let grid = deserialize_worldstate(text.as_str()).unwrap();
    let mut restored = fresh_world("r");
    restored.update_all(grid);
    // Everything inside the original bounding box reads back identically;
    // outside it both maps read Unknown.
    for x in -3..5 {
        for y in -2..4 {
            for z in -4..6 {
                let c = Vec3(x, y, z);
                assert_eq!(ws.get(&c), restored.get(&c));
            }
        }
    }
}

#[test]
fn serialize_writes_expected_text() {
    let mut ws = fresh_world("w");
    ws.update_at(Vec3(0, 0, 0), Block::Air);
    ws.update_at(Vec3(1, 0, 1), Block::Block);
    let text = ws.serialize();
    assert_eq!("1\n[0,0,0]\n[1,0,1]\n \u{2588}\n. \n", text.as_str());
}

#[test]
fn deserialize_rejects_bad_version() {
    assert_eq!(
        Err(TurtleError::MalformedStateFile),
        deserialize_worldstate("2\n[0,0,0]\n[0,0,0]\n.\n").map(|_| ())
    );
}

#[test]
fn deserialize_rejects_malformed_rows() {
    // Row too short for the declared bounding box.
    assert_eq!(
        Err(TurtleError::MalformedStateFile),
        deserialize_worldstate("1\n[0,0,0]\n[0,0,1]\n.\n").map(|_| ())
    );
    // Symbol outside the alphabet.
    assert_eq!(
        Err(TurtleError::MalformedStateFile),
        deserialize_worldstate("1\n[0,0,0]\n[0,0,0]\nq\n").map(|_| ())
    );
    // Corner line that is not a triple.
    assert_eq!(
        Err(TurtleError::MalformedStateFile),
        deserialize_worldstate("1\n[0,0]\n[0,0,0]\n.\n").map(|_| ())
    );
}

#[test]
fn dimensions_cover_all_cells() {
    let mut ws = fresh_world("w");
    ws.update_at(Vec3(4, -1, 2), Block::Air);
    ws.update_at(Vec3(-3, 5, 0), Block::Block);
    let (lo, hi) = dimensions(&ws.state);
    assert_eq!(Vec3(-3, -1, 0), lo);
    assert_eq!(Vec3(4, 5, 2), hi);
}

#[test]
fn to_ascii_renders_one_layer() {
    let mut ws = fresh_world("w");
    ws.update_at(Vec3(0, 0, 0), Block::Air);
    ws.update_at(Vec3(1, 0, 1), Block::Block);
    assert_eq!(" \u{2588}\n. \n", ws.to_ascii(0).as_str());
    assert_eq!("  \n  \n", ws.to_ascii(7).as_str());
}

#[test]
fn calibration_idempotence_scenario() {
    let mut loc = identity_location();
    let before_mode = loc.location_precision.clone();
    let before_history = loc.history.clone();
    // Two further identical fixes at the predicted position change nothing.
    loc.update(&gps::locate(), &TurtleActionReturn::Coordinate(Vec3(0, 0, 0)))
        .unwrap();
    loc.update(&gps::locate(), &TurtleActionReturn::Coordinate(Vec3(0, 0, 0)))
        .unwrap();
    assert_eq!(before_mode, loc.location_precision);
    assert_eq!(before_history.len(), loc.history.len());
}

#[test]
fn contradicting_fix_is_fatal() {
    let mut loc = identity_location();
    let r = loc.update(&gps::locate(), &TurtleActionReturn::Coordinate(Vec3(9, 9, 9)));
    assert_eq!(Err(TurtleError::GeometricInconsistency), r);
}

#[test]
fn unsupported_action_reaches_fail_fast() {
    let mut loc = LocationState::new();
    let r = loc.update(
        &TurtleAction::Select { slot: 1 },
        &TurtleActionReturn::Boolean(true),
    );
    assert_eq!(Err(TurtleError::UnsupportedAction), r);
    // The handled kinds never fail, whatever outcome they carry.
    assert!(loc.update(&go::forward(), &TurtleActionReturn::Number(3)).is_ok());
    assert!(loc
        .update(&detect::forward(), &TurtleActionReturn::Boolean(true))
        .is_ok());
}

#[test]
fn vertical_displacement_does_not_calibrate() {
    let mut loc = LocationState::new();
    loc.update(&gps::locate(), &TurtleActionReturn::Coordinate(Vec3(0, 0, 0)))
        .unwrap();
    loc.update(&go::up(), &TurtleActionReturn::Success).unwrap();
    loc.update(&gps::locate(), &TurtleActionReturn::Coordinate(Vec3(0, 1, 0)))
        .unwrap();
    assert_eq!(None, loc.loc_absolute);
    match &loc.location_precision {
        LocationMode::Relative(Some(_)) => {},
        other => panic!("still expected one recorded fix, got {:?}", other),
    }
}

#[test]
fn turtle_state_composes_updates() {
    let mut st = TurtleState::new("t".to_string(), StateSerializationPolicy::Discard);
    st.update(&go::forward(), TurtleActionReturn::Success).unwrap();
    assert_eq!(Vec3(1, 0, 0), st.location.loc);
    assert_eq!(AxisDirection::Xp, st.location.direction);
    assert_eq!(1, st.history.move_steps_len());
    st.update(&gps::locate(), TurtleActionReturn::Failure(FailureReason::GpsLocateFailure))
        .unwrap();
    assert_eq!(1, st.history.move_steps_len());
}

#[test]
fn path_glyphs_render_a_short_walk() {
    let mut loc = LocationState::new();
    loc.update(&go::forward(), &TurtleActionReturn::Success).unwrap();
    loc.update(&turtlers::turn::right(), &TurtleActionReturn::Success).unwrap();
    loc.update(&go::forward(), &TurtleActionReturn::Success).unwrap();
    let glyphs = loc.path_glyphs().unwrap();
    assert_eq!(vec!['\u{21B6}', '\u{2192}'], glyphs);
    let rot: Vec<(AxisDirection, Rotation)> = loc.get_path_absolute();
    assert_eq!(2, rot.len());
}

#[test]
fn action_vocabulary_cross_product() {
    let actions = [
        TurtleAction::Move { direction: turtlers::turtle_rotation::RelativeDirection::Forward },
        TurtleAction::Move { direction: turtlers::turtle_rotation::RelativeDirection::Down },
        TurtleAction::Turn { direction: turtlers::turtle_rotation::RelativeDirection::Left },
        TurtleAction::Dig { direction: turtlers::turtle_rotation::RelativeDirection::Forward },
        TurtleAction::Detect { direction: turtlers::turtle_rotation::RelativeDirection::Forward },
        TurtleAction::Place { direction: turtlers::turtle_rotation::RelativeDirection::Forward },
        TurtleAction::Drop { direction: turtlers::turtle_rotation::RelativeDirection::Forward },
        TurtleAction::Attack { direction: turtlers::turtle_rotation::RelativeDirection::Forward },
        TurtleAction::Suck { direction: turtlers::turtle_rotation::RelativeDirection::Forward },
        TurtleAction::Inspect { direction: turtlers::turtle_rotation::RelativeDirection::Forward },
        TurtleAction::Compare { direction: turtlers::turtle_rotation::RelativeDirection::Forward },
        TurtleAction::Select { slot: 1 },
        TurtleAction::ItemCount { slot: 1 },
        TurtleAction::ItemSpace { slot: 1 },
        TurtleAction::ItemDetail { slot: 1 },
        TurtleAction::TransferTo { slot: 1 },
        TurtleAction::CompareTo { slot: 1 },
        TurtleAction::GpsLocate { timeout_ms: 2000, debug: false },
        TurtleAction::Stop,
    ];
    let outcomes = [
        TurtleActionReturn::Success,
        TurtleActionReturn::Failure(FailureReason::MovementObstructed),
        TurtleActionReturn::Failure(FailureReason::NoBlockToInspect),
        TurtleActionReturn::Boolean(true),
        TurtleActionReturn::Number(7),
        TurtleActionReturn::InspectSuccess("block".to_string(), vec![]),
        TurtleActionReturn::DetailSuccess(vec![]),
        TurtleActionReturn::Coordinate(Vec3(0, 0, 0)),
    ];
    for action in &actions {
        for outcome in &outcomes {
            // Which outcome shapes each action kind can legitimately report.
            let legitimate = match action {
                TurtleAction::Move { .. }
                | TurtleAction::Turn { .. }
                | TurtleAction::Dig { .. }
                | TurtleAction::Place { .. }
                | TurtleAction::Drop { .. }
                | TurtleAction::Attack { .. }
                | TurtleAction::Suck { .. }
                | TurtleAction::TransferTo { .. } => matches!(
                    outcome,
                    TurtleActionReturn::Success | TurtleActionReturn::Failure(_)
                ),
                TurtleAction::Detect { .. }
                | TurtleAction::Compare { .. }
                | TurtleAction::Select { .. }
                | TurtleAction::CompareTo { .. } => {
                    matches!(outcome, TurtleActionReturn::Boolean(_))
                },
                TurtleAction::Inspect { .. } => matches!(
                    outcome,
                    TurtleActionReturn::InspectSuccess(_, _) | TurtleActionReturn::Failure(_)
                ),
                TurtleAction::ItemDetail { .. } => matches!(
                    outcome,
                    TurtleActionReturn::DetailSuccess(_) | TurtleActionReturn::Failure(_)
                ),
                TurtleAction::ItemCount { .. } | TurtleAction::ItemSpace { .. } => {
                    matches!(outcome, TurtleActionReturn::Number(_))
                },
                TurtleAction::GpsLocate { .. } => matches!(
                    outcome,
                    TurtleActionReturn::Coordinate(_) | TurtleActionReturn::Failure(_)
                ),
                TurtleAction::Stop => false,
            };

            // The estimator handles exactly its documented action kinds,
            // whatever outcome they carry; everything else fails fast.
            let estimator_handles = matches!(
                action,
                TurtleAction::Move { .. }
                    | TurtleAction::Turn { .. }
                    | TurtleAction::GpsLocate { .. }
                    | TurtleAction::Detect { .. }
                    | TurtleAction::Inspect { .. }
            );
            let mut loc = LocationState::new();
            let r = loc.update(action, outcome);
            assert_eq!(estimator_handles, r.is_ok(), "estimator on {:?} / {:?}", action, outcome);

            // The world observer fails fast on every pairing the protocol
            // cannot produce, writes a cell for exactly the documented
            // disclosing pairings, and completes without writing on the
            // other legitimate ones.
            let observer_writes = match (action, outcome) {
                (TurtleAction::Move { .. }, TurtleActionReturn::Success) => true,
                (TurtleAction::Move { .. }, TurtleActionReturn::Failure(_)) => true,
                (TurtleAction::Detect { .. }, TurtleActionReturn::Boolean(_)) => true,
                (TurtleAction::Inspect { .. }, TurtleActionReturn::Failure(r)) => {
                    *r == FailureReason::NoBlockToInspect
                },
                _ => false,
            };
            let calibrated = identity_location();
            let mut ws = fresh_world("cross");
            match ws.update(action, outcome, &calibrated) {
                Ok(changed) => {
                    assert!(legitimate, "observer accepted {:?} / {:?}", action, outcome);
                    assert_eq!(observer_writes, changed, "observer on {:?} / {:?}", action, outcome);
                },
                Err(e) => {
                    assert!(!legitimate, "observer rejected {:?} / {:?}", action, outcome);
                    assert_eq!(TurtleError::IncompatibleOutcome, e);
                },
            }

            // The composed state update fails fast before touching anything
            // when the pairing is illegitimate.
            let mut st = TurtleState::from(identity_location(), fresh_world("cross2"));
            let composed = st.update(action, outcome.clone());
            if !legitimate {
                assert_eq!(Err(TurtleError::IncompatibleOutcome), composed);
                assert_eq!(0, st.world.state.len());
                assert_eq!(0, st.history.move_steps_len());
            }
        }
    }
}

#[test]
fn empty_world_round_trips() {
    let ws = fresh_world("empty");
    let text = ws.serialize();
    assert_eq!("1\n", text.as_str());
    let grid = deserialize_worldstate(text.as_str()).unwrap();
    let mut restored = fresh_world("r");
    restored.update_all(grid);
    assert_eq!(0, restored.state.len());
}
