use turtlers::turtle_program::{
    Program, SubProgram, RotateProgram, NoProgram, RandomProgram, FromActionsProgram,
    InitGpsProgram, StartProgramMsg, create_program,
};
use turtlers::turtle_action::{TurtleAction, TurtleActionReturn, FailureReason};
use turtlers::turtle_rotation::RelativeDirection;
use turtlers::error::TurtleError;
use turtlers::{go, turn, gps};

#[test]
fn test_rotate_program_start() {
    let start_args = vec!["rotate".to_string(), "-4".to_string()];
    let program = RotateProgram::new(&start_args[1..]).unwrap();
    assert_eq!(4, program.steps);
    assert_eq!(RelativeDirection::Left, program.direction);
}

#[test]
fn rotate_program_emits_turns_until_done() {
    let args = vec!["2".to_string()];
    let mut p = RotateProgram::new(&args).unwrap();
    assert_eq!(Ok(turn::right()), p.next());
    p.update();
    assert_eq!(Ok(turn::right()), p.next());
    p.update();
    assert_eq!((2, 2), p.progress());
    assert_eq!(Err(TurtleError::NoInstructions), p.next());
}

#[test]
fn rotate_program_rejects_bad_argument() {
    let args = vec!["sideways".to_string()];
    assert!(matches!(RotateProgram::new(&args), Err(TurtleError::MalformedArgument)));
    let none: Vec<String> = vec![];
    assert!(matches!(RotateProgram::new(&none), Err(TurtleError::MalformedArgument)));
}

#[test]
fn no_program_has_nothing_to_say() {
    let p = NoProgram {};
    assert_eq!((1, 1), p.progress());
    assert_eq!(Err(TurtleError::NoInstructions), p.next());
    assert_eq!("noprogram", p.name());
}

#[test]
fn random_program_respects_movement_restriction() {
    let p = RandomProgram::new(false, true, true);
    for _ in 0..200 {
        let a = p.next().unwrap();
        match a {
            TurtleAction::Move { direction } => {
                assert!(direction != RelativeDirection::Up && direction != RelativeDirection::Down);
            },
            TurtleAction::Turn { .. } | TurtleAction::GpsLocate { .. } => {},
            other => panic!("restricted random program emitted {:?}", other),
        }
    }
}

#[test]
fn random_program_never_drops_unless_enabled() {
    let p = RandomProgram::new(false, false, false);
    for _ in 0..400 {
        let a = p.next().unwrap();
        assert!(!matches!(a, TurtleAction::Drop { .. }));
    }
}

#[test]
fn from_actions_walks_its_list() {
    let mut p = FromActionsProgram::from(&[go::forward(), turn::left()]);
    assert_eq!(Ok(go::forward()), p.next());
    p.update();
    assert_eq!(Ok(turn::left()), p.next());
    p.update();
    assert_eq!(Err(TurtleError::NoInstructions), p.next());
    assert_eq!((2, 2), p.progress());
}

#[test]
fn initgps_walks_its_strategy() {
    let mut p = InitGpsProgram::new();
    assert_eq!(Ok(gps::locate()), p.next());
    p.update(&gps::locate(), &TurtleActionReturn::Coordinate(turtlers::vec3::Vec3(0, 0, 0)))
        .unwrap();
    assert_eq!(Ok(go::forward()), p.next());
    p.update(&go::forward(), &TurtleActionReturn::Success).unwrap();
    assert_eq!(Ok(gps::locate()), p.next());
}

#[test]
fn initgps_falls_over_to_next_strategy_when_obstructed() {
    let mut p = InitGpsProgram::new();
    p.update(&gps::locate(), &TurtleActionReturn::Coordinate(turtlers::vec3::Vec3(0, 0, 0)))
        .unwrap();
    p.update(
        &go::forward(),
        &TurtleActionReturn::Failure(FailureReason::MovementObstructed),
    )
    .unwrap();
    assert_eq!(1, p.strategy);
    assert_eq!(Ok(gps::locate()), p.next());
}

#[test]
fn initgps_fails_fast_without_gps() {
    let mut p = InitGpsProgram::new();
    let r = p.update(
        &gps::locate(),
        &TurtleActionReturn::Failure(FailureReason::GpsLocateFailure),
    );
    assert_eq!(Err(TurtleError::GpsUnavailable), r);
}

#[test]
fn create_program_by_name() {
    let msg = StartProgramMsg {
        msgtype: "start".to_string(),
        args: vec!["rotate".to_string(), "3".to_string()],
    };
    match create_program(&msg).unwrap() {
        Program::Sub(SubProgram::Rotate(p)) => {
            assert_eq!(3, p.steps);
            assert_eq!(RelativeDirection::Right, p.direction);
        },
        _ => panic!("expected the rotate program"),
    }
    let msg2 = StartProgramMsg { msgtype: "start".to_string(), args: vec!["no".to_string()] };
    assert!(matches!(create_program(&msg2), Ok(Program::Sub(SubProgram::No(_)))));
}

#[test]
fn create_program_rejects_unknown_names() {
    let msg = StartProgramMsg {
        msgtype: "start".to_string(),
        args: vec!["teleport".to_string()],
    };
    assert!(matches!(create_program(&msg), Err(TurtleError::InvalidProgram)));
}
