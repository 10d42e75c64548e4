//! A simulated environment: a small walled box the agent drives around in,
//! with a shadow copy of the true state answering each request the way the
//! physical agent would.

use turtlers::turtle_state::{Block, StateSerializationPolicy, TurtleState, WorldState};
use turtlers::location_state::{LocationMode, LocationState};
use turtlers::turtle::Turtle;
use turtlers::turtle_action::{FailureReason, TurtleAction, TurtleActionReturn};
use turtlers::turtle_rotation::{AxisDirection, Rotation};
use turtlers::turtle_program::{InitGpsProgram, MultiProgram, PathfindingTestProgram, Program, SubProgram, FromActionsProgram};
use turtlers::vec3::Vec3;
use turtlers::{detect, go, turn};

/// A 7-by-7 single-layer box: solid perimeter, open interior.
fn test_box_world(id: &str) -> WorldState {
    let mut ws = WorldState::new(id.to_string(), StateSerializationPolicy::Discard);
    for x in -3..=3 {
        for z in -3..=3 {
            let block = if x == -3 || x == 3 || z == -3 || z == 3 {
                Block::Block
            } else {
                Block::Air
            };
            ws.update_at(Vec3(x, 0, z), block);
        }
    }
    ws
}

struct Runner {
    turtle: Turtle,
    shadow_state: TurtleState,
}

impl Runner {
    fn new(
        state_name: &str,
        load_state: bool,
        start_location: (Vec3, AxisDirection),
        start_location_known: bool,
    ) -> Self {
        let shadow_wstate = test_box_world(state_name);

        let rotation = AxisDirection::dot(&AxisDirection::Xp, &start_location.1);
        let shadow_loc = LocationState {
            location_precision: LocationMode::Absolute((start_location.0, rotation)),
            loc: Vec3::zero(),
            direction: AxisDirection::Xp,
            loc_absolute: Some(start_location.0),
            direction_absolute: start_location.1,
            history: vec![],
        };

        let location = if start_location_known {
            shadow_loc.clone()
        } else {
            LocationState::new()
        };
        let world = if load_state {
            test_box_world(state_name)
        } else {
            WorldState::new(state_name.to_string(), StateSerializationPolicy::Discard)
        };
        let state = TurtleState::from(location, world);
        let turtle = Turtle::from(state_name.to_string(), state);

        let shadow_state = TurtleState::from(shadow_loc, shadow_wstate);

        Runner { turtle, shadow_state }
    }

    fn make_world_unknown_loc_known(state_name: &str, start_loc: Vec3, start_axis: AxisDirection) -> Self {
        Self::new(state_name, false, (start_loc, start_axis), true)
    }

    fn make_world_unknown_loc_known_originxp(state_name: &str) -> Self {
        Self::make_world_unknown_loc_known(state_name, Vec3::zero(), AxisDirection::Xp)
    }

    fn make_world_known_loc_known(state_name: &str, start_loc: Vec3, start_axis: AxisDirection) -> Self {
        Self::new(state_name, true, (start_loc, start_axis), true)
    }

    fn make_world_known_loc_known_originxp(state_name: &str) -> Self {
        Self::make_world_known_loc_known(state_name, Vec3::zero(), AxisDirection::Xp)
    }

    fn make_world_unknown_loc_unknown(state_name: &str, start_loc: Vec3, start_axis: AxisDirection) -> Self {
        Self::new(state_name, false, (start_loc, start_axis), false)
    }

    fn make_world_unknown_loc_unknown_originxp(state_name: &str) -> Self {
        Self::make_world_unknown_loc_unknown(state_name, Vec3::zero(), AxisDirection::Xp)
    }

    fn simulate_action(&self, action: &TurtleAction) -> TurtleActionReturn {
        match action {
            TurtleAction::Turn { .. } => TurtleActionReturn::Success,
            TurtleAction::Move { direction } => {
                let dest_loc = self.shadow_location().get_dest_position_absolute(direction).unwrap();
                let obstructed = self.shadow_world().is_obstructed(&dest_loc);
                match obstructed {
                    Some(true) => TurtleActionReturn::Failure(FailureReason::MovementObstructed),
                    Some(false) => TurtleActionReturn::Success,
                    None => panic!("moved into a cell the simulated world knows nothing about"),
                }
            },
            TurtleAction::Detect { direction } => {
                let dest_loc = self.shadow_location().get_dest_position_absolute(direction).unwrap();
                let obstructed = self.shadow_world().is_obstructed(&dest_loc);
                match obstructed {
                    Some(value) => TurtleActionReturn::Boolean(value),
                    None => panic!("probed a cell the simulated world knows nothing about"),
                }
            },
            TurtleAction::GpsLocate { .. } => {
                TurtleActionReturn::Coordinate(self.shadow_location().loc_absolute.unwrap())
            },
            TurtleAction::Stop => panic!("stop is never executed"),
            other => panic!("the simulated environment does not model {:?}", other),
        }
    }

    fn set_program(&mut self, program: Program) {
        self.turtle.set_program(program);
    }

    fn execute_action(&mut self, action: &TurtleAction) -> TurtleActionReturn {
        if action != &TurtleAction::Stop {
            self.turtle.last_action = Some(*action);
            let response = self.simulate_action(action);
            self.turtle.update(response.clone()).unwrap();
            self.shadow_state.update(action, response.clone()).unwrap();
            response
        } else {
            TurtleActionReturn::Success
        }
    }

    fn execute_next(&mut self) -> (TurtleAction, TurtleActionReturn) {
        let action = self.turtle.next().unwrap_or(TurtleAction::Stop);
        let response = self.execute_action(&action);
        (action, response)
    }

    /// Runs an entire program from start to finish.
    fn run(&mut self, program: Program) {
        self.set_program(program);
        loop {
            let (action, _response) = self.execute_next();
            if action == TurtleAction::Stop {
                break;
            }
        }
    }

    fn world(&self) -> &WorldState {
        &self.turtle.state.world
    }

    fn location(&self) -> &LocationState {
        &self.turtle.state.location
    }

    fn history(&self) -> &turtlers::turtle_state::ActionHistory {
        &self.turtle.state.history
    }

    fn shadow_world(&self) -> &WorldState {
        &self.shadow_state.world
    }

    fn shadow_location(&self) -> &LocationState {
        &self.shadow_state.location
    }
}

fn create_gps_and_pathfinder(loc: &Vec3, dir: &AxisDirection) -> Program {
    let mut multi = MultiProgram::new(SubProgram::InitGps(InitGpsProgram::new()));
    let pathfinder = PathfindingTestProgram::new(*loc, *dir);
    multi.add(SubProgram::PathfindingTest(pathfinder));
    Program::Multi(multi)
}

#[test]
fn runner_known_world_and_loc() {
    let start_loc = Vec3::new(1, 2, 3);
    let runner = Runner::make_world_known_loc_known("test_box", start_loc, AxisDirection::Zp);
    assert_eq!(49, runner.world().state.len());
    assert_eq!(49, runner.shadow_world().state.len());
    assert_eq!(&start_loc, runner.shadow_location().loc_absolute.as_ref().unwrap());
    assert_eq!(&start_loc, runner.location().loc_absolute.as_ref().unwrap());
    assert_eq!(&AxisDirection::Zp, &runner.location().direction_absolute);
}

#[test]
fn runner_unknown_world_known_loc() {
    let start_loc = Vec3::new(1, 2, 3);
    let runner = Runner::make_world_unknown_loc_known("test_box", start_loc, AxisDirection::Zp);
    assert_eq!(0, runner.world().state.len());
    assert_eq!(49, runner.shadow_world().state.len());
    assert_eq!(&start_loc, runner.shadow_location().loc_absolute.as_ref().unwrap());
    assert_eq!(&start_loc, runner.location().loc_absolute.as_ref().unwrap());
}

#[test]
fn runner_unknown_world_unknown_loc() {
    let start_loc = Vec3::new(1, 2, 3);
    let runner = Runner::make_world_unknown_loc_unknown("test_box", start_loc, AxisDirection::Zp);
    assert_eq!(0, runner.world().state.len());
    assert_eq!(49, runner.shadow_world().state.len());
    assert_eq!(&start_loc, runner.shadow_location().loc_absolute.as_ref().unwrap());
    assert!(runner.location().loc_absolute.is_none());
    assert_eq!(LocationMode::Relative(Option::None), runner.location().location_precision);
}

#[test]
fn runner_state_detects_wall_going_forward() {
    let program = FromActionsProgram::from(&[go::forward()]);
    let mut runner = Runner::make_world_known_loc_known_originxp("test_box");
    assert_eq!(Vec3::zero(), runner.location().loc);
    runner.run(Program::Sub(SubProgram::FromActions(program)));
    assert_eq!(Vec3::new(1, 0, 0), runner.location().loc);
    assert_eq!(Vec3::new(1, 0, 0), runner.shadow_location().loc);
    let program = FromActionsProgram::from(&[go::forward(), go::forward()]);
    runner.run(Program::Sub(SubProgram::FromActions(program)));
    assert_eq!(Vec3::new(2, 0, 0), runner.location().loc);
    assert_eq!(Vec3::new(2, 0, 0), runner.shadow_location().loc);
}

#[test]
fn runner_state_detects_wall_while_turning() {
    let program = FromActionsProgram::from(&[turn::right(), go::forward(), go::forward()]);
    let mut runner = Runner::make_world_unknown_loc_known_originxp("test_box");
    runner.run(Program::Sub(SubProgram::FromActions(program)));
    assert_eq!(Vec3::new(0, 0, 2), runner.shadow_location().loc);
    assert_eq!(Block::Unknown, runner.world().get(&Vec3::new(0, 0, 3)));
    let response = runner.execute_action(&detect::forward());
    assert_eq!(response, TurtleActionReturn::Boolean(true));
    assert_eq!(Block::Block, runner.world().get(&Vec3::new(0, 0, 3)));
}

#[test]
fn going_forward_works() {
    let mut runner = Runner::make_world_unknown_loc_unknown_originxp("test_box");
    let program = InitGpsProgram::new();
    assert_eq!(0, runner.world().state.len());
    assert_eq!(Option::None, runner.location().loc_absolute);
    runner.run(Program::Sub(SubProgram::InitGps(program)));
    assert_eq!(Option::Some(Vec3::new(0, 0, 0)), runner.location().loc_absolute);
}

#[test]
fn going_backward_works() {
    let mut runner =
        Runner::make_world_unknown_loc_unknown("test_box", Vec3::new(2, 0, 0), AxisDirection::Xp);
    let program = InitGpsProgram::new();
    assert_eq!(0, runner.world().state.len());
    assert_eq!(Option::None, runner.location().loc_absolute);
    runner.run(Program::Sub(SubProgram::InitGps(program)));
    assert_eq!(Option::Some(Vec3::new(2, 0, 0)), runner.location().loc_absolute);
}

#[test]
fn multiprogram_finds_gps() {
    let multi = Program::Multi(MultiProgram::new(SubProgram::InitGps(InitGpsProgram::new())));
    let mut runner = Runner::make_world_unknown_loc_unknown_originxp("test_box");
    runner.run(multi);
    assert_eq!(
        LocationMode::Absolute((Vec3::zero(), Rotation::Y0)),
        runner.location().location_precision
    )
}

#[test]
fn pathfinder_zero_path() {
    let coord = Vec3::new(0, 0, 0);
    let program = create_gps_and_pathfinder(&coord, &AxisDirection::Xp);
    let mut runner = Runner::make_world_unknown_loc_unknown_originxp("test_box");
    runner.run(program);
    assert_eq!(2, runner.history().move_steps_len());
}

#[test]
fn pathfinder_to_corner() {
    let coord = Vec3::new(2, 0, 2);
    let program = create_gps_and_pathfinder(&coord, &AxisDirection::Xp);
    let mut runner = Runner::make_world_unknown_loc_unknown_originxp("test_box");
    runner.run(program);
    assert_eq!(Some(coord), runner.location().loc_absolute);
    assert_eq!(8, runner.history().move_steps_len());
}

#[test]
fn pathfinder_to_corner2() {
    let coord = Vec3::new(2, 0, 2);
    let program = create_gps_and_pathfinder(&coord, &AxisDirection::Xp);
    let mut runner =
        Runner::make_world_unknown_loc_unknown("test_box", Vec3::new(0, 0, 0), AxisDirection::Zm);
    runner.run(program);

    assert_eq!(Some(coord), runner.location().loc_absolute);
    // Facing -Z at the start, one right turn lines the agent up with the
    // goal heading, so the walk takes the four Manhattan moves, one turn,
    // and the two calibration moves.
    assert_eq!(7, runner.history().move_steps_len());
}

#[test]
fn test_gps() {
    let mut runner =
        Runner::make_world_unknown_loc_unknown("test_box", Vec3::new(0, 0, 0), AxisDirection::Zm);
    let gps_program = InitGpsProgram::new();
    assert_eq!(0, runner.location().get_path_absolute().len());
    assert_eq!(AxisDirection::Zm, runner.shadow_location().direction_absolute);
    if let LocationMode::Absolute((offset, rotation)) = &runner.shadow_location().location_precision {
        assert_eq!(&Vec3::zero(), offset);
        assert_eq!(&Rotation::Y270, rotation);
    } else {
        assert!(false);
    }
    runner.execute_action(&turtlers::gps::locate());
    runner.execute_action(&turtlers::gps::locate());
    assert_eq!(AxisDirection::Zm, runner.shadow_location().direction_absolute);
    runner.run(Program::Sub(SubProgram::InitGps(gps_program)));
    assert_eq!(2, runner.location().get_path_absolute().len());
    if let LocationMode::Absolute((offset, rotation)) = &runner.location().location_precision {
        assert_eq!(&Vec3::zero(), offset);
        assert_eq!(&Rotation::Y270, rotation);
    } else {
        assert!(false);
    }
    assert_eq!(AxisDirection::Zm, runner.location().direction_absolute);
}

#[test]
fn test_gps_and_history() {
    let mut runner =
        Runner::make_world_unknown_loc_unknown("test_box", Vec3::new(0, 0, 0), AxisDirection::Zm);
    let gps_program = InitGpsProgram::new();
    assert_eq!(0, runner.location().get_path_absolute().len());
    runner.run(Program::Sub(SubProgram::InitGps(gps_program)));
    assert_eq!(2, runner.location().get_path_absolute().len());
    let history = runner.location().get_path_absolute();
    let (first_dir, first_rot) = history.first().unwrap();

    assert_eq!(&AxisDirection::Zm, first_dir);
    assert_eq!(&Rotation::Y0, first_rot);
}
