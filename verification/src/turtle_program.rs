//! The programs that drive an agent: rotate-by-N, a no-op, a uniform-random
//! action source, a GPS-calibration routine, a pathfinding driver, a fixed
//! action list, and a FIFO sequencing combinator. The variant set is closed,
//! so every dispatch is an exhaustive match.

use vstd::prelude::*;
use crate::vec3::Vec3;
use crate::turtle_rotation::{AxisDirection, RelativeDirection, is_horizontal};
use crate::turtle_action::{TurtleAction, TurtleActionReturn, action_wf};
use crate::turtle_state::TurtleState;
use crate::location_state::coord_bounded;
use crate::pathfind::{RTAStar, Node, spec_plan, spec_costs, spec_second};
use crate::error::TurtleError;
use crate::text::{str_eq, str_to_chars, parse_i32, spec_parse_i32};
use crate::go;
use crate::turn;
use crate::dig;
use crate::detect;
use crate::place;
use crate::drop;
use crate::attack;
use crate::suck;
use crate::inspect;
use crate::compare;
use crate::inventory;
use crate::gps;

verus! {

/// The request that selects and starts a program: a message type tag and
/// the program name followed by its arguments.
pub struct StartProgramMsg {
    pub msgtype: String,
    pub args: Vec<String>,
}

/// Whether a program can still hand out instructions.
pub enum ProgramState {
    Finished,
    Waiting,
    HasInstructions,
}

/// Relies on rand::random_range: a uniformly random index below `n`,
/// from the thread-local generator. Nothing is assumed beyond the range.
#[verifier::external_body]
fn random_index(n: usize) -> (r: usize)
    requires
        n > 0,
    ensures
        r < n,
{
    rand::random_range(0..n)
}

/// Turn a fixed number of times in one direction.
#[derive(Debug, Clone)]
pub struct RotateProgram {
    pub steps: u32,
    pub steps_remaining: u32,
    pub direction: RelativeDirection,
}

impl RotateProgram {
    pub open spec fn wf(self) -> bool {
        self.steps_remaining <= self.steps
    }

    /// Parse the signed step count: positive turns right, negative left.
    pub fn new(start_args: &[String]) -> (r: Result<Self, TurtleError>)
        ensures
            match r {
                Ok(p) => {
                    &&& start_args@.len() > 0
                    &&& spec_parse_i32(start_args@[0]@) is Some
                    &&& ({
                        let v = spec_parse_i32(start_args@[0]@).unwrap() as int;
                        &&& p.direction == (if v > 0 { RelativeDirection::Right } else { RelativeDirection::Left })
                        &&& p.steps == (if v >= 0 { v } else { -v })
                        &&& p.steps_remaining == p.steps
                        &&& p.wf()
                    })
                },
                Err(e) => {
                    e == TurtleError::MalformedArgument
                    && (start_args@.len() == 0 || spec_parse_i32(start_args@[0]@) is None)
                },
            },
    {
        if start_args.len() == 0 {
            return Err(TurtleError::MalformedArgument);
        }
        let chars = str_to_chars(start_args[0].as_str());
        let steps_i32 = match parse_i32(chars.as_slice()) {
            Some(v) => v,
            None => {
                return Err(TurtleError::MalformedArgument);
            },
        };
        let direction = if steps_i32 > 0 {
            RelativeDirection::Right
        } else {
            RelativeDirection::Left
        };
        let magnitude: u32 = if steps_i32 >= 0 {
            steps_i32 as u32
        } else {
            (-(steps_i32 as i64)) as u32
        };
        Ok(RotateProgram { steps: magnitude, steps_remaining: magnitude, direction })
    }

    pub fn progress(&self) -> (r: (u32, u32))
        requires
            self.wf(),
        ensures
            r.0 == self.steps - self.steps_remaining,
            r.1 == self.steps,
    {
        (self.steps - self.steps_remaining, self.steps)
    }

    pub fn name(&self) -> (r: &'static str)
        ensures
            r@ == "rotate"@,
    {
        "rotate"
    }

    pub fn next(&self) -> (r: Result<TurtleAction, TurtleError>)
        ensures
            self.steps_remaining > 0 ==> r == Ok::<TurtleAction, TurtleError>(
                TurtleAction::Turn { direction: self.direction },
            ),
            self.steps_remaining == 0 ==> r == Err::<TurtleAction, TurtleError>(TurtleError::NoInstructions),
    {
        if self.steps_remaining == 0 {
            return Err(TurtleError::NoInstructions);
        }
        Ok(TurtleAction::Turn { direction: self.direction })
    }

    /// One issued turn was executed.
    pub fn update(&mut self)
        requires
            old(self).steps_remaining > 0,
        ensures
            final(self).steps_remaining == old(self).steps_remaining - 1,
            final(self).steps == old(self).steps,
            final(self).direction == old(self).direction,
    {
        self.steps_remaining = self.steps_remaining - 1;
    }
}

/// The program an idle agent runs: it has nothing to say.
pub struct NoProgram {}

impl NoProgram {
    pub fn progress(&self) -> (r: (u32, u32))
        ensures
            r == (1u32, 1u32),
    {
        (1, 1)
    }

    pub fn name(&self) -> (r: &'static str)
        ensures
            r@ == "noprogram"@,
    {
        "noprogram"
    }

    pub fn next(&self) -> (r: Result<TurtleAction, TurtleError>)
        ensures
            r == Err::<TurtleAction, TurtleError>(TurtleError::NoInstructions),
    {
        Err(TurtleError::NoInstructions)
    }
}

/// Draw uniformly among the legal primitive actions, optionally restricted
/// to movement only, to horizontal movement, and with item-dropping
/// disabled.
#[derive(Debug, Clone)]
pub struct RandomProgram {
    pub drop: bool,
    pub only_move: bool,
    pub horizontal: bool,
}

/// The actions the random program may emit under its restrictions: with
/// `only_move`, moves (horizontal ones only, if so restricted), turns and
/// GPS fixes; otherwise anything in the vocabulary, minus dropping unless
/// it is enabled.
pub open spec fn acceptable_random(a: TurtleAction, p: RandomProgram) -> bool {
    if p.only_move {
        match a {
            TurtleAction::Move { direction } => !(p.horizontal
                && (direction == RelativeDirection::Up || direction == RelativeDirection::Down)),
            TurtleAction::Turn { .. } | TurtleAction::GpsLocate { .. } => true,
            _ => false,
        }
    } else {
        !(a is Drop) || p.drop
    }
}

impl RandomProgram {
    pub fn new(enable_drop: bool, only_move: bool, horizontal: bool) -> (r: Self)
        ensures
            r.drop == enable_drop,
            r.only_move == only_move,
            r.horizontal == horizontal,
    {
        RandomProgram { drop: enable_drop, only_move, horizontal }
    }

    /// The legal actions under the current restrictions. Drawing uniformly
    /// from this list is the same distribution as drawing from the full
    /// vocabulary and rejecting illegal picks.
    fn candidates(&self) -> (r: Vec<TurtleAction>)
        ensures
            r@.len() > 0,
            forall|i: int| 0 <= i < r@.len() ==> acceptable_random(#[trigger] r@[i], *self)
                && action_wf(r@[i]),
    {
        let mut all: Vec<TurtleAction> = Vec::new();
        all.push(turn::left());
        all.push(turn::right());
        all.push(go::forward());
        all.push(go::backward());
        if !(self.only_move && self.horizontal) {
            all.push(go::up());
            all.push(go::down());
        }
        all.push(gps::locate());
        if !self.only_move {
            all.push(dig::forward());
            all.push(dig::up());
            all.push(dig::down());
            all.push(detect::forward());
            all.push(detect::down());
            all.push(detect::up());
            all.push(place::forward());
            all.push(place::down());
            all.push(place::up());
            if self.drop {
                all.push(drop::forward());
                all.push(drop::down());
                all.push(drop::up());
            }
            all.push(attack::forward());
            all.push(attack::down());
            all.push(attack::up());
            all.push(suck::forward());
            all.push(suck::down());
            all.push(suck::up());
            all.push(inspect::forward());
            all.push(inspect::down());
            all.push(inspect::up());
            all.push(compare::forward());
            all.push(compare::down());
            all.push(compare::up());
            let mut slot: u8 = 1;
            while slot <= 16
                invariant
                    1 <= slot <= 17,
                    forall|i: int| 0 <= i < all@.len() ==> acceptable_random(#[trigger] all@[i], *self)
                        && action_wf(all@[i]),
                    !self.only_move,
                decreases 17 - slot,
            {
                all.push(inventory::select(slot));
                slot = slot + 1;
            }
            all.push(inventory::compare_to(1));
            all.push(inventory::compare_to(2));
            all.push(inventory::compare_to(3));
            all.push(inventory::compare_to(16));
            all.push(inventory::count(1));
            all.push(inventory::count(2));
            all.push(inventory::count(3));
            all.push(inventory::count(16));
            all.push(inventory::detail(1));
            all.push(inventory::detail(2));
            all.push(inventory::detail(3));
            all.push(inventory::detail(16));
            all.push(inventory::space(1));
            all.push(inventory::space(2));
            all.push(inventory::space(3));
            all.push(inventory::space(16));
            all.push(inventory::transfer_to(1));
            all.push(inventory::transfer_to(2));
            all.push(inventory::transfer_to(3));
            all.push(inventory::transfer_to(16));
        }
        all
    }

    /// A uniformly random action among the legal ones: always a
    /// well-formed member of the vocabulary, within the restrictions.
    pub fn next(&self) -> (r: Result<TurtleAction, TurtleError>)
        ensures
            r is Ok,
            acceptable_random(r.unwrap(), *self),
            action_wf(r.unwrap()),
    {
        let actions = self.candidates();
        let idx = random_index(actions.len());
        Ok(actions[idx])
    }

    pub fn progress(&self) -> (r: (u32, u32))
        ensures
            r == (0u32, 1u32),
    {
        (0, 1)
    }

    pub fn name(&self) -> (r: &'static str)
        ensures
            r@ == "random"@,
    {
        "random"
    }
}

/// Wander randomly, asking for a GPS fix every few steps: an exerciser for
/// the location estimator.
#[derive(Debug, Clone)]
pub struct LocationTestProgram {
    pub random: RandomProgram,
    pub gps_initialized: bool,
    pub cur_step: u32,
}

impl LocationTestProgram {
    pub open spec fn wf(self) -> bool {
        self.cur_step < u32::MAX
    }

    pub fn new() -> (r: Self)
        ensures
            r.random.drop == false,
            r.random.only_move == true,
            r.random.horizontal == true,
            r.gps_initialized == false,
            r.cur_step == 0,
            r.wf(),
    {
        let random = RandomProgram::new(false, true, true);
        LocationTestProgram { random, gps_initialized: false, cur_step: 0 }
    }

    pub fn next(&self) -> (r: Result<TurtleAction, TurtleError>)
        ensures
            r is Ok,
            action_wf(r.unwrap()),
            self.cur_step % 7 == 3 ==> r == Ok::<TurtleAction, TurtleError>(
                TurtleAction::GpsLocate { timeout_ms: 2000u32, debug: false },
            ),
            self.cur_step % 7 != 3 ==> acceptable_random(r.unwrap(), self.random),
    {
        if self.cur_step % 7 == 3 {
            Ok(gps::locate())
        } else {
            self.random.next()
        }
    }

    pub fn progress(&self) -> (r: (u32, u32))
        ensures
            r == (0u32, 1u32),
    {
        (0, 1)
    }

    pub fn name(&self) -> (r: &'static str)
        ensures
            r@ == "locatetest"@,
    {
        "locatetest"
    }

    /// Observe an executed action. A GPS failure before the estimator was
    /// ever calibrated means the run started out of range: fatal. Any
    /// action this exerciser never issues is an extension point.
    pub fn update(&mut self, state: &TurtleState, action: &TurtleAction, result: &TurtleActionReturn)
        -> (r: Result<(), TurtleError>)
        requires
            old(self).wf(),
        ensures
            match *action {
                TurtleAction::Move { .. } | TurtleAction::Turn { .. } => {
                    r is Ok && final(self).cur_step == old(self).cur_step + 1
                },
                TurtleAction::GpsLocate { .. } => {
                    if !(result is Coordinate) && state.location@.loc_absolute is None {
                        r == Err::<(), TurtleError>(TurtleError::GpsUnavailable)
                            && *final(self) == *old(self)
                    } else {
                        r is Ok && final(self).cur_step == old(self).cur_step + 1
                    }
                },
                _ => r == Err::<(), TurtleError>(TurtleError::UnsupportedAction)
                    && *final(self) == *old(self),
            },
            r is Ok ==> final(self).random == old(self).random
                && final(self).gps_initialized == old(self).gps_initialized,
    {
        match action {
            TurtleAction::Move { .. } | TurtleAction::Turn { .. } => {},
            TurtleAction::GpsLocate { .. } => {
                if !matches!(result, TurtleActionReturn::Coordinate(_)) {
                    if self.loc_absolute_unknown(state) {
                        return Err(TurtleError::GpsUnavailable);
                    }
                }
            },
            _ => {
                return Err(TurtleError::UnsupportedAction);
            },
        }
        self.cur_step = self.cur_step + 1;
        Ok(())
    }

    fn loc_absolute_unknown(&self, state: &TurtleState) -> (r: bool)
        ensures
            r == (state.location@.loc_absolute is None),
    {
        state.location.loc_absolute.is_none()
    }
}

/// Drive the real-time pathfinder toward a fixed goal pose.
pub struct PathfindingTestProgram {
    pub pathfinder: RTAStar,
}

impl PathfindingTestProgram {
    pub open spec fn wf(self) -> bool {
        self.pathfinder.wf()
    }

    pub fn new(loc: Vec3, dir: AxisDirection) -> (r: Self)
        requires
            coord_bounded(loc, 3),
            is_horizontal(dir),
        ensures
            r.wf(),
            r.pathfinder.spec_goal() == (Node { loc, dir }),
            r.pathfinder.memo() == Map::<Node, u64>::empty(),
            r.pathfinder.pending() is None,
    {
        PathfindingTestProgram { pathfinder: RTAStar::new(loc, dir) }
    }

    pub fn next(&self) -> (r: Result<TurtleAction, TurtleError>)
        ensures
            match self.pathfinder.pending() {
                Some(a) => r == Ok::<TurtleAction, TurtleError>(a),
                None => r == Err::<TurtleAction, TurtleError>(TurtleError::NoInstructions),
            },
    {
        self.pathfinder.next()
    }

    pub fn progress(&self) -> (r: (u32, u32))
        ensures
            r == (0u32, 1u32),
    {
        (0, 1)
    }

    pub fn name(&self) -> (r: &'static str)
        ensures
            r@ == "pathfindtest"@,
    {
        "pathfindtest"
    }

    /// Replan against the freshly updated state; with no absolute frame
    /// yet, there is no plan.
    pub fn update(&mut self, state: &TurtleState)
        requires
            old(self).wf(),
            state.wf(),
        ensures
            final(self).wf(),
            final(self).pathfinder.spec_goal() == old(self).pathfinder.spec_goal(),
            (state.location@.loc_absolute is None) ==> (final(self).pathfinder.pending() is None)
                && final(self).pathfinder.memo() == old(self).pathfinder.memo(),
            (state.location@.loc_absolute is Some) ==> ({
                let cur = Node {
                    loc: state.location@.loc_absolute.unwrap(),
                    dir: state.location@.direction_absolute,
                };
                let goal = old(self).pathfinder.spec_goal();
                &&& final(self).pathfinder.pending() == Some(
                    spec_plan(old(self).pathfinder.memo(), state.world.state@, cur, goal),
                )
                &&& final(self).pathfinder.memo() == (if cur == goal {
                    old(self).pathfinder.memo()
                } else {
                    old(self).pathfinder.memo().insert(
                        cur,
                        spec_second(spec_costs(old(self).pathfinder.memo(), state.world.state@, cur, goal)),
                    )
                })
            }),
    {
        self.pathfinder.update(state);
    }
}

/// Execute a predetermined action list, in order.
#[derive(Debug, Clone)]
pub struct FromActionsProgram {
    pub actions: Vec<TurtleAction>,
    pub index: usize,
}

impl FromActionsProgram {
    pub open spec fn wf(self) -> bool {
        self.index <= self.actions@.len() && self.actions@.len() <= u32::MAX
    }

    pub fn new(actions: Vec<TurtleAction>) -> (r: Self)
        requires
            actions@.len() <= u32::MAX,
        ensures
            r.actions@ == actions@,
            r.index == 0,
            r.wf(),
    {
        FromActionsProgram { actions, index: 0 }
    }

    pub fn from(actions: &[TurtleAction]) -> (r: Self)
        requires
            actions@.len() <= u32::MAX,
        ensures
            r.actions@ == actions@,
            r.index == 0,
            r.wf(),
    {
        let mut v: Vec<TurtleAction> = Vec::new();
        let mut i: usize = 0;
        while i < actions.len()
            invariant
                i <= actions@.len(),
                v@ == actions@.subrange(0, i as int),
            decreases actions@.len() - i,
        {
            v.push(actions[i]);
            proof {
                assert(v@ =~= actions@.subrange(0, i + 1));
            }
            i = i + 1;
        }
        proof {
            assert(v@ =~= actions@);
        }
        FromActionsProgram { actions: v, index: 0 }
    }

    pub fn next(&self) -> (r: Result<TurtleAction, TurtleError>)
        ensures
            self.index < self.actions@.len() ==> r == Ok::<TurtleAction, TurtleError>(
                self.actions@[self.index as int],
            ),
            self.index >= self.actions@.len() ==> r == Err::<TurtleAction, TurtleError>(
                TurtleError::NoInstructions,
            ),
    {
        if self.index < self.actions.len() {
            Ok(self.actions[self.index])
        } else {
            Err(TurtleError::NoInstructions)
        }
    }

    pub fn progress(&self) -> (r: (u32, u32))
        requires
            self.wf(),
        ensures
            r.0 == self.index,
            r.1 == self.actions@.len(),
    {
        (self.index as u32, self.actions.len() as u32)
    }

    pub fn name(&self) -> (r: &'static str)
        ensures
            r@ == "fromactions"@,
    {
        "fromactions"
    }

    /// One issued action was executed.
    pub fn update(&mut self)
        requires
            old(self).wf(),
            old(self).index < old(self).actions@.len(),
        ensures
            final(self).index == old(self).index + 1,
            final(self).actions@ == old(self).actions@,
            final(self).wf(),
    {
        self.index = self.index + 1;
    }
}

/// Obtain GPS calibration and return to the starting pose: try a fixed
/// repertoire of short round trips until one of them moves the agent
/// horizontally between two fixes.
#[derive(Debug, Clone)]
pub struct InitGpsProgram {
    pub strategy: usize,
    pub step_in_strategy: i32,
    pub has_gps: bool,
}

/// The action list of one calibration strategy: forward and back, backward
/// and forth, or a sidestep after turning.
pub open spec fn spec_strategy(strategy: int) -> Seq<TurtleAction> {
    if strategy == 0 {
        seq![
            TurtleAction::Move { direction: RelativeDirection::Forward },
            TurtleAction::GpsLocate { timeout_ms: 2000u32, debug: false },
            TurtleAction::Move { direction: RelativeDirection::Backward },
        ]
    } else if strategy == 1 {
        seq![
            TurtleAction::Move { direction: RelativeDirection::Backward },
            TurtleAction::GpsLocate { timeout_ms: 2000u32, debug: false },
            TurtleAction::Move { direction: RelativeDirection::Forward },
        ]
    } else {
        seq![
            TurtleAction::Turn { direction: RelativeDirection::Right },
            TurtleAction::Move { direction: RelativeDirection::Forward },
            TurtleAction::GpsLocate { timeout_ms: 2000u32, debug: false },
            TurtleAction::Move { direction: RelativeDirection::Backward },
            TurtleAction::Turn { direction: RelativeDirection::Left },
        ]
    }
}

impl InitGpsProgram {
    pub open spec fn wf(self) -> bool {
        self.strategy <= 2 && -1 <= self.step_in_strategy
            && self.step_in_strategy <= spec_strategy(self.strategy as int).len()
    }

    pub fn new() -> (r: Self)
        ensures
            r.strategy == 0,
            r.step_in_strategy == -1,
            r.has_gps == false,
            r.wf(),
    {
        InitGpsProgram { strategy: 0, step_in_strategy: -1, has_gps: false }
    }

    /// The current strategy's action list.
    pub fn get_cur_strategy(&self) -> (r: Vec<TurtleAction>)
        requires
            self.strategy <= 2,
        ensures
            r@ == spec_strategy(self.strategy as int),
    {
        let mut v: Vec<TurtleAction> = Vec::new();
        if self.strategy == 0 {
            v.push(go::forward());
            v.push(gps::locate());
            v.push(go::backward());
        } else if self.strategy == 1 {
            v.push(go::backward());
            v.push(gps::locate());
            v.push(go::forward());
        } else {
            v.push(turn::right());
            v.push(go::forward());
            v.push(gps::locate());
            v.push(go::backward());
            v.push(turn::left());
        }
        proof {
            assert(v@ =~= spec_strategy(self.strategy as int));
        }
        v
    }

    pub fn next(&self) -> (r: Result<TurtleAction, TurtleError>)
        requires
            self.wf(),
        ensures
            self.step_in_strategy == -1 ==> r == Ok::<TurtleAction, TurtleError>(
                TurtleAction::GpsLocate { timeout_ms: 2000u32, debug: false },
            ),
            0 <= self.step_in_strategy < spec_strategy(self.strategy as int).len()
                ==> r == Ok::<TurtleAction, TurtleError>(
                    spec_strategy(self.strategy as int)[self.step_in_strategy as int],
                ),
            self.step_in_strategy == spec_strategy(self.strategy as int).len()
                ==> r == Err::<TurtleAction, TurtleError>(TurtleError::NoInstructions),
    {
        let strategy = self.get_cur_strategy();
        if self.step_in_strategy == -1 {
            Ok(gps::locate())
        } else if self.step_in_strategy as usize == strategy.len() {
            Err(TurtleError::NoInstructions)
        } else {
            Ok(strategy[self.step_in_strategy as usize])
        }
    }

    pub fn progress(&self) -> (r: (u32, u32))
        requires
            self.wf(),
        ensures
            r == (if self.step_in_strategy == spec_strategy(self.strategy as int).len() {
                (1u32, 1u32)
            } else {
                (0u32, 1u32)
            }),
    {
        let strategy = self.get_cur_strategy();
        if self.step_in_strategy >= 0 && self.step_in_strategy as usize == strategy.len() {
            (1, 1)
        } else {
            (0, 1)
        }
    }

    pub fn name(&self) -> (r: &'static str)
        ensures
            r@ == "initgps"@,
    {
        "initgps"
    }

    /// Observe an executed action: an obstructed move makes the routine
    /// fall over to its next strategy; running out of strategies, or a GPS
    /// request that yields no fix, is fatal for calibration.
    pub fn update(&mut self, action: &TurtleAction, result: &TurtleActionReturn)
        -> (r: Result<(), TurtleError>)
        requires
            old(self).wf(),
            old(self).step_in_strategy < spec_strategy(old(self).strategy as int).len(),
        ensures
            final(self).wf(),
            final(self).has_gps == old(self).has_gps,
            match (*action, *result) {
                (TurtleAction::Move { .. }, TurtleActionReturn::Failure(_)) => {
                    if old(self).strategy < 2 {
                        r is Ok && final(self).strategy == old(self).strategy + 1
                            && final(self).step_in_strategy == -1
                    } else {
                        r == Err::<(), TurtleError>(TurtleError::GpsUnavailable)
                            && *final(self) == *old(self)
                    }
                },
                (TurtleAction::GpsLocate { .. }, TurtleActionReturn::Failure(_)) => {
                    r == Err::<(), TurtleError>(TurtleError::GpsUnavailable)
                        && *final(self) == *old(self)
                },
                _ => r is Ok && final(self).strategy == old(self).strategy
                    && final(self).step_in_strategy == old(self).step_in_strategy + 1,
            },
    {
        match (action, result) {
            (TurtleAction::Move { .. }, TurtleActionReturn::Failure(..)) => {
                if self.strategy >= 2 {
                    return Err(TurtleError::GpsUnavailable);
                }
                self.strategy = self.strategy + 1;
                self.step_in_strategy = -1;
                Ok(())
            },
            (TurtleAction::GpsLocate { .. }, TurtleActionReturn::Failure(..)) => {
                Err(TurtleError::GpsUnavailable)
            },
            (_, _) => {
                self.step_in_strategy = self.step_in_strategy + 1;
                Ok(())
            },
        }
    }
}


/// The closed set of program kinds.
pub enum SubProgram {
    Rotate(RotateProgram),
    No(NoProgram),
    Random(RandomProgram),
    LocationTest(LocationTestProgram),
    PathfindingTest(PathfindingTestProgram),
    InitGps(InitGpsProgram),
    FromActions(FromActionsProgram),
}

/// Well-formedness of one program.
pub open spec fn sub_wf(p: SubProgram) -> bool {
    match p {
        SubProgram::Rotate(q) => q.wf(),
        SubProgram::No(_) => true,
        SubProgram::Random(_) => true,
        SubProgram::LocationTest(_) => true,
        SubProgram::PathfindingTest(q) => q.wf(),
        SubProgram::InitGps(q) => q.wf(),
        SubProgram::FromActions(q) => q.wf(),
    }
}

/// Can this program hand out another action right now?
pub open spec fn sub_can_next(p: SubProgram) -> bool {
    match p {
        SubProgram::Rotate(q) => q.steps_remaining > 0,
        SubProgram::No(_) => false,
        SubProgram::Random(_) => true,
        SubProgram::LocationTest(_) => true,
        SubProgram::PathfindingTest(q) => q.pathfinder.pending() is Some,
        SubProgram::InitGps(q) => q.step_in_strategy != spec_strategy(q.strategy as int).len(),
        SubProgram::FromActions(q) => q.index < q.actions@.len(),
    }
}

/// Could this program have handed out this action?
pub open spec fn sub_next_spec(p: SubProgram, a: TurtleAction) -> bool {
    match p {
        SubProgram::Rotate(q) => a == (TurtleAction::Turn { direction: q.direction }),
        SubProgram::No(_) => false,
        SubProgram::Random(q) => acceptable_random(a, q),
        SubProgram::LocationTest(q) => if q.cur_step % 7 == 3 {
            a == (TurtleAction::GpsLocate { timeout_ms: 2000u32, debug: false })
        } else {
            acceptable_random(a, q.random)
        },
        SubProgram::PathfindingTest(q) => q.pathfinder.pending() == Some(a),
        SubProgram::InitGps(q) => if q.step_in_strategy == -1 {
            a == (TurtleAction::GpsLocate { timeout_ms: 2000u32, debug: false })
        } else {
            0 <= q.step_in_strategy < spec_strategy(q.strategy as int).len()
                && a == spec_strategy(q.strategy as int)[q.step_in_strategy as int]
        },
        SubProgram::FromActions(q) => q.index < q.actions@.len() && a == q.actions@[q.index as int],
    }
}

/// A program's progress fraction, as the pair it reports.
pub open spec fn sub_progress(p: SubProgram) -> (int, int) {
    match p {
        SubProgram::Rotate(q) => (q.steps - q.steps_remaining, q.steps as int),
        SubProgram::No(_) => (1, 1),
        SubProgram::Random(_) => (0, 1),
        SubProgram::LocationTest(_) => (0, 1),
        SubProgram::PathfindingTest(_) => (0, 1),
        SubProgram::InitGps(q) => if q.step_in_strategy == spec_strategy(q.strategy as int).len() {
            (1, 1)
        } else {
            (0, 1)
        },
        SubProgram::FromActions(q) => (q.index as int, q.actions@.len() as int),
    }
}

/// What one program's observation step needs of the program itself.
pub open spec fn sub_update_ready(p: SubProgram) -> bool {
    match p {
        SubProgram::Rotate(q) => q.wf() && q.steps_remaining > 0,
        SubProgram::No(_) => true,
        SubProgram::Random(_) => true,
        SubProgram::LocationTest(q) => q.wf(),
        SubProgram::PathfindingTest(q) => q.wf(),
        SubProgram::InitGps(q) => q.wf()
            && q.step_in_strategy < spec_strategy(q.strategy as int).len(),
        SubProgram::FromActions(q) => q.wf() && q.index < q.actions@.len(),
    }
}

/// What one program's observation step needs of its caller: the program
/// itself ready, and for the pathfinding driver a well-formed state.
pub open spec fn sub_update_requires(p: SubProgram, state: TurtleState) -> bool {
    sub_update_ready(p) && ((p is PathfindingTest) ==> state.wf())
}

/// The fail-fast condition of one program's observation step, if the
/// (action, outcome) pair and the state trigger one.
pub open spec fn sub_step_err(p: SubProgram, state: TurtleState, a: TurtleAction, o: TurtleActionReturn)
    -> Option<TurtleError>
{
    match p {
        SubProgram::LocationTest(_) => match a {
            TurtleAction::Move { .. } | TurtleAction::Turn { .. } => None,
            TurtleAction::GpsLocate { .. } => if !(o is Coordinate)
                && state.location@.loc_absolute is None {
                Some(TurtleError::GpsUnavailable)
            } else {
                None
            },
            _ => Some(TurtleError::UnsupportedAction),
        },
        SubProgram::InitGps(q) => match (a, o) {
            (TurtleAction::Move { .. }, TurtleActionReturn::Failure(_)) => if q.strategy >= 2 {
                Some(TurtleError::GpsUnavailable)
            } else {
                None
            },
            (TurtleAction::GpsLocate { .. }, TurtleActionReturn::Failure(_)) =>
                Some(TurtleError::GpsUnavailable),
            _ => None,
        },
        _ => None,
    }
}

/// How one program's state changes when it observes an executed action.
pub open spec fn sub_step_ok(p0: SubProgram, p1: SubProgram, state: TurtleState,
    a: TurtleAction, o: TurtleActionReturn) -> bool
{
    match (p0, p1) {
        (SubProgram::Rotate(q0), SubProgram::Rotate(q1)) => {
            q1.steps == q0.steps && q1.direction == q0.direction
                && q1.steps_remaining == q0.steps_remaining - 1
        },
        (SubProgram::No(_), SubProgram::No(_)) => true,
        (SubProgram::Random(q0), SubProgram::Random(q1)) => q1 == q0,
        (SubProgram::LocationTest(q0), SubProgram::LocationTest(q1)) => {
            q1.cur_step == q0.cur_step + 1 && q1.random == q0.random
                && q1.gps_initialized == q0.gps_initialized
        },
        (SubProgram::PathfindingTest(q0), SubProgram::PathfindingTest(q1)) => {
            let cur = Node {
                loc: state.location@.loc_absolute.unwrap(),
                dir: state.location@.direction_absolute,
            };
            let goal = q0.pathfinder.spec_goal();
            &&& q1.pathfinder.spec_goal() == goal
            &&& if state.location@.loc_absolute is None {
                (q1.pathfinder.pending() is None)
                    && q1.pathfinder.memo() == q0.pathfinder.memo()
            } else {
                q1.pathfinder.pending() == Some(
                    spec_plan(q0.pathfinder.memo(), state.world.state@, cur, goal),
                )
                && q1.pathfinder.memo() == (if cur == goal {
                    q0.pathfinder.memo()
                } else {
                    q0.pathfinder.memo().insert(
                        cur,
                        spec_second(spec_costs(q0.pathfinder.memo(), state.world.state@, cur, goal)),
                    )
                })
            }
        },
        (SubProgram::InitGps(q0), SubProgram::InitGps(q1)) => {
            &&& q1.has_gps == q0.has_gps
            &&& match (a, o) {
                (TurtleAction::Move { .. }, TurtleActionReturn::Failure(_)) => {
                    q1.strategy == q0.strategy + 1 && q1.step_in_strategy == -1
                },
                _ => q1.strategy == q0.strategy
                    && q1.step_in_strategy == q0.step_in_strategy + 1,
            }
        },
        (SubProgram::FromActions(q0), SubProgram::FromActions(q1)) => {
            q1.actions@ == q0.actions@ && q1.index == q0.index + 1
        },
        _ => false,
    }
}

impl SubProgram {
    /// The next action this program wants executed, if it has one.
    pub fn next(&self) -> (r: Result<TurtleAction, TurtleError>)
        requires
            sub_wf(*self),
        ensures
            (r is Ok) <==> sub_can_next(*self),
            r is Ok ==> sub_next_spec(*self, r.unwrap()),
            !sub_can_next(*self) ==> r == Err::<TurtleAction, TurtleError>(TurtleError::NoInstructions),
    {
        match self {
            SubProgram::Rotate(q) => q.next(),
            SubProgram::No(q) => q.next(),
            SubProgram::Random(q) => q.next(),
            SubProgram::LocationTest(q) => q.next(),
            SubProgram::PathfindingTest(q) => q.next(),
            SubProgram::InitGps(q) => q.next(),
            SubProgram::FromActions(q) => q.next(),
        }
    }

    /// The program's progress fraction.
    pub fn progress(&self) -> (r: (u32, u32))
        requires
            sub_wf(*self),
        ensures
            r.0 == sub_progress(*self).0,
            r.1 == sub_progress(*self).1,
    {
        match self {
            SubProgram::Rotate(q) => q.progress(),
            SubProgram::No(q) => q.progress(),
            SubProgram::Random(q) => q.progress(),
            SubProgram::LocationTest(q) => q.progress(),
            SubProgram::PathfindingTest(q) => q.progress(),
            SubProgram::InitGps(q) => q.progress(),
            SubProgram::FromActions(q) => q.progress(),
        }
    }

    /// The program's name.
    pub fn name(&self) -> (r: &'static str)
        ensures
            (self is Rotate) ==> r@ == "rotate"@,
            (self is No) ==> r@ == "noprogram"@,
            (self is Random) ==> r@ == "random"@,
            (self is LocationTest) ==> r@ == "locatetest"@,
            (self is PathfindingTest) ==> r@ == "pathfindtest"@,
            (self is InitGps) ==> r@ == "initgps"@,
            (self is FromActions) ==> r@ == "fromactions"@,
    {
        match self {
            SubProgram::Rotate(q) => q.name(),
            SubProgram::No(q) => q.name(),
            SubProgram::Random(q) => q.name(),
            SubProgram::LocationTest(q) => q.name(),
            SubProgram::PathfindingTest(q) => q.name(),
            SubProgram::InitGps(q) => q.name(),
            SubProgram::FromActions(q) => q.name(),
        }
    }

    /// Observe one executed action and its outcome, against the freshly
    /// updated state.
    pub fn update(&mut self, state: &TurtleState, action: &TurtleAction, result: &TurtleActionReturn)
        -> (r: Result<(), TurtleError>)
        requires
            sub_update_requires(*old(self), *state),
        ensures
            sub_wf(*final(self)),
            match sub_step_err(*old(self), *state, *action, *result) {
                Some(e) => r == Err::<(), TurtleError>(e) && *final(self) == *old(self),
                None => r is Ok && sub_step_ok(*old(self), *final(self), *state, *action, *result),
            },
    {
        match self {
            SubProgram::Rotate(q) => {
                q.update();
                Ok(())
            },
            SubProgram::No(_) => Ok(()),
            SubProgram::Random(_) => Ok(()),
            SubProgram::LocationTest(q) => q.update(state, action, result),
            SubProgram::PathfindingTest(q) => {
                q.update(state);
                Ok(())
            },
            SubProgram::InitGps(q) => q.update(action, result),
            SubProgram::FromActions(q) => {
                q.update();
                Ok(())
            },
        }
    }
}

/// The FIFO sequencing combinator: run the current program to exhaustion,
/// then each queued program in turn.
pub struct MultiProgram {
    pub programs: Vec<SubProgram>,
    pub current: SubProgram,
}

impl MultiProgram {
    pub open spec fn wf(self) -> bool {
        sub_wf(self.current)
        && forall|i: int| 0 <= i < self.programs@.len() ==> sub_wf(#[trigger] self.programs@[i])
    }

    pub fn new(first: SubProgram) -> (r: Self)
        ensures
            r.current == first,
            r.programs@ == Seq::<SubProgram>::empty(),
    {
        let r = MultiProgram { programs: Vec::new(), current: first };
        proof {
            assert(r.programs@ =~= Seq::<SubProgram>::empty());
        }
        r
    }

    /// Queue one more program behind the current one.
    pub fn add(&mut self, program: SubProgram)
        ensures
            final(self).current == old(self).current,
            final(self).programs@ == old(self).programs@.push(program),
    {
        self.programs.push(program);
    }

    /// The next action: from the current program, or from the first queued
    /// program that still has one, dropping the exhausted ones.
    pub fn next(&mut self) -> (r: Result<TurtleAction, TurtleError>)
        requires
            old(self).wf(),
        ensures
            final(self).wf(),
            r is Err ==> {
                &&& r == Err::<TurtleAction, TurtleError>(TurtleError::NoInstructions)
                &&& !sub_can_next(old(self).current)
                &&& forall|j: int| 0 <= j < old(self).programs@.len()
                    ==> !sub_can_next(#[trigger] old(self).programs@[j])
                &&& final(self).programs@.len() == 0
            },
            r is Ok ==> {
                &&& sub_can_next(final(self).current)
                &&& sub_next_spec(final(self).current, r.unwrap())
                &&& exists|k: int| #![trigger old(self).programs@.skip(k)]
                    0 <= k <= old(self).programs@.len() && (if k == 0 {
                    final(self).current == old(self).current
                        && final(self).programs@ == old(self).programs@
                } else {
                    !sub_can_next(old(self).current)
                    && final(self).current == old(self).programs@[k - 1]
                    && final(self).programs@ == old(self).programs@.skip(k)
                    && (forall|j: int| 0 <= j < k - 1 ==> !sub_can_next(#[trigger] old(self).programs@[j]))
                })
            },
    {
        let ghost k: int = 0;
        let mut from_current = self.current.next();
        while from_current.is_err()
            invariant
                old(self).wf(),
                self.wf(),
                0 <= k <= old(self).programs@.len(),
                k == 0 ==> self.current == old(self).current
                    && self.programs@ == old(self).programs@,
                k > 0 ==> !sub_can_next(old(self).current)
                    && self.current == old(self).programs@[k - 1]
                    && self.programs@ == old(self).programs@.skip(k)
                    && (forall|j: int| 0 <= j < k - 1 ==> !sub_can_next(#[trigger] old(self).programs@[j])),
                from_current is Ok ==> sub_can_next(self.current)
                    && sub_next_spec(self.current, from_current.unwrap()),
                from_current is Err ==> !sub_can_next(self.current),
            decreases self.programs@.len(),
        {
            if self.programs.len() == 0 {
                proof {
                    if k > 0 {
                        assert(old(self).programs@.skip(k).len() == 0);
                        assert forall|j: int| 0 <= j < old(self).programs@.len()
                            implies !sub_can_next(#[trigger] old(self).programs@[j]) by {
                            if j == k - 1 {
                                assert(old(self).programs@[j] == self.current);
                            }
                        }
                    }
                }
                return Err(TurtleError::NoInstructions);
            }
            let next_program = self.programs.remove(0);
            proof {
                if k > 0 {
                    assert(old(self).programs@.skip(k + 1) =~= old(self).programs@.skip(k).skip(1));
                    assert(self.programs@ =~= old(self).programs@.skip(k).skip(1));
                    assert(old(self).programs@.skip(k)[0] == old(self).programs@[k]);
                    assert forall|j: int| 0 <= j < k implies !sub_can_next(#[trigger] old(self).programs@[j]) by {
                        if j == k - 1 {
                        }
                    }
                } else {
                    assert(self.programs@ =~= old(self).programs@.skip(1));
                }
                k = k + 1;
            }
            self.current = next_program;
            from_current = self.current.next();
        }
        proof {
            // Mention the dropped-prefix witness so the existential in the
            // contract finds it.
            assert(old(self).programs@.skip(k) =~= old(self).programs@.skip(k));
        }
        match from_current {
            Ok(a) => Ok(a),
            Err(_) => Err(TurtleError::NoInstructions),
        }
    }

    /// Overall progress: the current program's numerator over its
    /// denominator plus the count of still-queued programs - a deliberately
    /// coarse signal.
    pub fn progress(&self) -> (r: (u32, u32))
        requires
            self.wf(),
            sub_progress(self.current).1 + self.programs@.len() <= u32::MAX,
        ensures
            r.0 == sub_progress(self.current).0,
            r.1 == sub_progress(self.current).1 + self.programs@.len(),
    {
        let current_progress = self.current.progress();
        (current_progress.0, current_progress.1 + (self.programs.len() as u32))
    }

    pub fn name(&self) -> (r: &'static str)
        ensures
            r@ == "multiprogram"@,
    {
        "multiprogram"
    }

    /// Observations go to the current program and to every queued program:
    /// a queued pathfinding driver must see the world unfold so that it has
    /// a plan the moment it comes up.
    pub fn update(&mut self, state: &TurtleState, action: &TurtleAction, result: &TurtleActionReturn)
        -> (r: Result<(), TurtleError>)
        requires
            old(self).wf(),
            sub_update_requires(old(self).current, *state),
            forall|j: int| 0 <= j < old(self).programs@.len()
                ==> sub_update_requires(#[trigger] old(self).programs@[j], *state),
        ensures
            final(self).wf(),
            final(self).programs@.len() == old(self).programs@.len(),
            match sub_step_err(old(self).current, *state, *action, *result) {
                Some(e) => r == Err::<(), TurtleError>(e) && final(self).current == old(self).current,
                None => r is Ok ==> sub_step_ok(old(self).current, final(self).current, *state, *action, *result),
            },
            (sub_step_err(old(self).current, *state, *action, *result) is None
                && (forall|j: int| 0 <= j < old(self).programs@.len()
                    ==> sub_step_err(#[trigger] old(self).programs@[j], *state, *action, *result) is None))
                ==> r is Ok,
            (sub_step_err(old(self).current, *state, *action, *result) is None && r is Err)
                ==> exists|j: int| 0 <= j < old(self).programs@.len()
                    && Some(r->Err_0) == sub_step_err(#[trigger] old(self).programs@[j], *state, *action, *result)
                    && (forall|i: int| 0 <= i < j
                        ==> sub_step_err(#[trigger] old(self).programs@[i], *state, *action, *result) is None),
            r is Ok ==> forall|j: int| 0 <= j < old(self).programs@.len()
                ==> sub_step_err(#[trigger] old(self).programs@[j], *state, *action, *result) is None
                    && sub_step_ok(old(self).programs@[j], final(self).programs@[j], *state, *action, *result),
    {
        match self.current.update(state, action, result) {
            Ok(()) => {},
            Err(e) => {
                return Err(e);
            },
        }
        proof {
            assert(sub_step_err(old(self).current, *state, *action, *result) is None);
        }
        let n = self.programs.len();
        let mut j: usize = 0;
        while j < n
            invariant
                n == self.programs@.len(),
                n == old(self).programs@.len(),
                j <= n,
                sub_wf(self.current),
                sub_step_err(old(self).current, *state, *action, *result) is None,
                sub_step_ok(old(self).current, self.current, *state, *action, *result),
                forall|i: int| 0 <= i < n ==> sub_update_requires(#[trigger] old(self).programs@[i], *state),
                forall|i: int| j <= i < n ==> #[trigger] self.programs@[i] == old(self).programs@[i],
                forall|i: int| 0 <= i < j
                    ==> sub_step_err(#[trigger] old(self).programs@[i], *state, *action, *result) is None
                        && sub_step_ok(old(self).programs@[i], self.programs@[i], *state, *action, *result),
                forall|i: int| 0 <= i < j ==> sub_wf(#[trigger] self.programs@[i]),
            decreases n - j,
        {
            let ghost prev = self.programs@;
            let mut p = self.programs.remove(j);
            let res = p.update(state, action, result);
            self.programs.insert(j, p);
            proof {
                assert(self.programs@ =~= prev.update(j as int, p));
            }
            match res {
                Ok(()) => {},
                Err(e) => {
                    proof {
                        assert(Some(e) == sub_step_err(old(self).programs@[j as int], *state, *action, *result));
                    }
                    return Err(e);
                },
            }
            j = j + 1;
        }
        Ok(())
    }
}


/// A whole program: a single program, or the sequencing combinator.
pub enum Program {
    Sub(SubProgram),
    Multi(MultiProgram),
}

/// Well-formedness of a whole program.
pub open spec fn program_wf(p: Program) -> bool {
    match p {
        Program::Sub(q) => sub_wf(q),
        Program::Multi(m) => m.wf(),
    }
}

/// Can the whole program hand out another action without being advanced?
pub open spec fn program_can_next(p: Program) -> bool {
    match p {
        Program::Sub(q) => sub_can_next(q),
        Program::Multi(m) => sub_can_next(m.current)
            || exists|j: int| 0 <= j < m.programs@.len() && sub_can_next(#[trigger] m.programs@[j]),
    }
}

/// The program that must observe the next executed action.
pub open spec fn program_active(p: Program) -> SubProgram {
    match p {
        Program::Sub(q) => q,
        Program::Multi(m) => m.current,
    }
}

/// The state-independent part of what an observation step needs: every
/// program that will see it is ready.
pub open spec fn program_update_ready(p: Program) -> bool {
    &&& program_wf(p)
    &&& sub_update_ready(program_active(p))
    &&& match p {
        Program::Sub(_) => true,
        Program::Multi(m) => forall|j: int| 0 <= j < m.programs@.len()
            ==> sub_update_ready(#[trigger] m.programs@[j]),
    }
}

/// What the whole program's observation step needs of its caller: the
/// active program ready, and every queued program too, since observations
/// reach them as well.
pub open spec fn program_update_requires(p: Program, state: TurtleState) -> bool {
    &&& program_wf(p)
    &&& sub_update_requires(program_active(p), state)
    &&& match p {
        Program::Sub(_) => true,
        Program::Multi(m) => forall|j: int| 0 <= j < m.programs@.len()
            ==> sub_update_requires(#[trigger] m.programs@[j], state),
    }
}

/// No program that will observe this (action, outcome) pair under this
/// state has a fail-fast condition: the observation step is owed success.
pub open spec fn program_step_err_free(p: Program, state: TurtleState, a: TurtleAction,
    o: TurtleActionReturn) -> bool
{
    &&& sub_step_err(program_active(p), state, a, o) is None
    &&& match p {
        Program::Sub(_) => true,
        Program::Multi(m) => forall|j: int| 0 <= j < m.programs@.len()
            ==> sub_step_err(#[trigger] m.programs@[j], state, a, o) is None,
    }
}

/// A program's fail-fast condition reads only the pose, never the log:
/// two states with the same location agree on it.
pub proof fn lemma_step_err_location_only(p: SubProgram, s1: TurtleState, s2: TurtleState,
    a: TurtleAction, o: TurtleActionReturn)
    requires
        s1.location == s2.location,
    ensures
        sub_step_err(p, s1, a, o) == sub_step_err(p, s2, a, o),
{
}

/// The whole program's progress fraction, as reported.
pub open spec fn program_progress(p: Program) -> (int, int) {
    match p {
        Program::Sub(q) => sub_progress(q),
        Program::Multi(m) => (sub_progress(m.current).0, sub_progress(m.current).1 + m.programs@.len()),
    }
}

impl Program {
    /// The next action to execute. The combinator may advance to a queued
    /// program to find one.
    pub fn next(&mut self) -> (r: Result<TurtleAction, TurtleError>)
        requires
            program_wf(*old(self)),
        ensures
            program_wf(*final(self)),
            (r is Ok) ==> sub_next_spec(program_active(*final(self)), r.unwrap()),
            (r is Err) ==> r == Err::<TurtleAction, TurtleError>(TurtleError::NoInstructions)
                && !program_can_next(*old(self)),
            (*old(self) is Sub) ==> *final(self) == *old(self),
    {
        match self {
            Program::Sub(q) => q.next(),
            Program::Multi(m) => {
                let r = m.next();
                proof {
                    if r is Err {
                        assert(!sub_can_next(old(self)->Multi_0.current));
                        assert forall|j: int| 0 <= j < old(self)->Multi_0.programs@.len()
                            implies !sub_can_next(#[trigger] old(self)->Multi_0.programs@[j]) by {}
                    }
                }
                r
            },
        }
    }

    /// The reported progress fraction.
    pub fn progress(&self) -> (r: (u32, u32))
        requires
            program_wf(*self),
            (self matches Program::Multi(m)
                ==> sub_progress(m.current).1 + m.programs@.len() <= u32::MAX),
        ensures
            r.0 == program_progress(*self).0,
            r.1 == program_progress(*self).1,
    {
        match self {
            Program::Sub(q) => q.progress(),
            Program::Multi(m) => m.progress(),
        }
    }

    /// The program's name.
    pub fn name(&self) -> (r: &'static str)
        ensures
            (self is Multi) ==> r@ == "multiprogram"@,
    {
        match self {
            Program::Sub(q) => q.name(),
            Program::Multi(m) => m.name(),
        }
    }

    /// Observe one executed action's outcome against the freshly updated
    /// state. The combinator hands the observation to its current program
    /// and to every queued one; the step succeeds exactly when none of them
    /// hits a fail-fast condition, and otherwise reports the first
    /// program's error.
    pub fn update(&mut self, state: &TurtleState, action: &TurtleAction, result: &TurtleActionReturn)
        -> (r: Result<(), TurtleError>)
        requires
            program_update_requires(*old(self), *state),
        ensures
            program_wf(*final(self)),
            (*old(self) is Sub) <==> (*final(self) is Sub),
            (*final(self) is Multi) ==> final(self)->Multi_0.programs@.len()
                == old(self)->Multi_0.programs@.len(),
            match sub_step_err(program_active(*old(self)), *state, *action, *result) {
                Some(e) => r == Err::<(), TurtleError>(e)
                    && program_active(*final(self)) == program_active(*old(self)),
                None => r is Ok ==> sub_step_ok(
                    program_active(*old(self)),
                    program_active(*final(self)),
                    *state, *action, *result,
                ),
            },
            (r is Ok) <==> program_step_err_free(*old(self), *state, *action, *result),
            (sub_step_err(program_active(*old(self)), *state, *action, *result) is None && r is Err)
                ==> (*old(self) is Multi) && exists|j: int|
                    0 <= j < old(self)->Multi_0.programs@.len()
                    && Some(r->Err_0) == sub_step_err(#[trigger] old(self)->Multi_0.programs@[j],
                        *state, *action, *result)
                    && (forall|i: int| 0 <= i < j
                        ==> sub_step_err(#[trigger] old(self)->Multi_0.programs@[i],
                            *state, *action, *result) is None),
            (r is Ok && *old(self) is Multi) ==> forall|j: int|
                0 <= j < old(self)->Multi_0.programs@.len()
                ==> sub_step_ok(#[trigger] old(self)->Multi_0.programs@[j],
                    final(self)->Multi_0.programs@[j], *state, *action, *result),
    {
        match self {
            Program::Sub(q) => q.update(state, action, result),
            Program::Multi(m) => m.update(state, action, result),
        }
    }
}

/// Whether a program is finished, judged from its progress fraction.
pub fn program_state(program: &Program) -> (r: ProgramState)
    requires
        program_wf(*program),
        (program matches Program::Multi(m)
            ==> sub_progress(m.current).1 + m.programs@.len() <= u32::MAX),
    ensures
        (r is Finished) <==> program_progress(*program).0 == program_progress(*program).1,
        !(r is Waiting),
{
    let progress = program.progress();
    if progress.0 == progress.1 {
        ProgramState::Finished
    } else {
        ProgramState::HasInstructions
    }
}

/// Build the program a start request names. An unknown name or a malformed
/// argument is a configuration error reported to the caller, not a crash.
pub fn create_program(msg: &StartProgramMsg) -> (r: Result<Program, TurtleError>)
    ensures
        msg.args@.len() == 0 ==> r == Err::<Program, TurtleError>(TurtleError::InvalidProgram),
        msg.args@.len() > 0 ==> {
            let name = msg.args@[0]@;
            if name == "rotate"@ {
                &&& ((r is Ok) <==> (msg.args@.len() >= 2 && spec_parse_i32(msg.args@[1]@) is Some))
                &&& (r is Ok ==> (r.unwrap() matches Program::Sub(SubProgram::Rotate(_))))
                &&& (r is Err ==> r == Err::<Program, TurtleError>(TurtleError::MalformedArgument))
            } else if name == "no"@ {
                r is Ok && (r.unwrap() matches Program::Sub(SubProgram::No(_)))
            } else if name == "random"@ {
                r is Ok && (r.unwrap() matches Program::Sub(SubProgram::Random(q))
                    && !q.drop && !q.only_move && !q.horizontal)
            } else if name == "locatetest"@ {
                r is Ok && (r.unwrap() matches Program::Sub(SubProgram::LocationTest(_)))
            } else if name == "pathfindtest"@ {
                r is Ok && (r.unwrap() matches Program::Sub(SubProgram::PathfindingTest(q))
                    && q.pathfinder.spec_goal() == (Node { loc: Vec3(0, 0, 0), dir: AxisDirection::Xp }))
            } else if name == "initgps"@ {
                r is Ok && (r.unwrap() matches Program::Sub(SubProgram::InitGps(_)))
            } else {
                r == Err::<Program, TurtleError>(TurtleError::InvalidProgram)
            }
        },
        r is Ok ==> program_wf(r.unwrap()),
{
    if msg.args.len() == 0 {
        return Err(TurtleError::InvalidProgram);
    }
    let program_name = msg.args[0].as_str();
    if str_eq(program_name, "rotate") {
        let rest: &[String] = msg.args.as_slice();
        let p = RotateProgram::new(slice_tail(rest))?;
        Ok(Program::Sub(SubProgram::Rotate(p)))
    } else if str_eq(program_name, "no") {
        Ok(Program::Sub(SubProgram::No(NoProgram {})))
    } else if str_eq(program_name, "random") {
        Ok(Program::Sub(SubProgram::Random(RandomProgram::new(false, false, false))))
    } else if str_eq(program_name, "locatetest") {
        Ok(Program::Sub(SubProgram::LocationTest(LocationTestProgram::new())))
    } else if str_eq(program_name, "pathfindtest") {
        Ok(Program::Sub(SubProgram::PathfindingTest(
            PathfindingTestProgram::new(Vec3::zero(), AxisDirection::Xp),
        )))
    } else if str_eq(program_name, "initgps") {
        Ok(Program::Sub(SubProgram::InitGps(InitGpsProgram::new())))
    } else {
        Err(TurtleError::InvalidProgram)
    }
}

/// Everything after the first element of a slice.
fn slice_tail(s: &[String]) -> (r: &[String])
    requires
        s@.len() > 0,
    ensures
        r@.len() == s@.len() - 1,
        forall|i: int| 0 <= i < r@.len() ==> r@[i] == s@[i + 1],
{
    let (_head, tail) = s.split_at(1);
    proof {
        assert forall|i: int| 0 <= i < tail@.len() implies tail@[i] == s@[i + 1] by {
            assert(tail@[i] == s@.subrange(1, s@.len() as int)[i]);
        }
    }
    tail
}

} // verus!


