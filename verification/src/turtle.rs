//! One agent session: its identity, its state, the program driving it, and
//! the last action put in flight. Requests and responses alternate in
//! lock-step: the session never issues a second action before the first's
//! outcome has been applied.

use vstd::prelude::*;
use crate::turtle_action::{TurtleAction, TurtleActionReturn, action_wf, compatible, outcome_compatible};
use crate::turtle_state::{TurtleState, StateSerializationPolicy, Block, spec_observe, world_writes};
use crate::vec3::Vec3;
use crate::turtle_rotation::AxisDirection;
use crate::location_state::LocationMode;
use crate::location_state::{LocView, lemma_update_keeps_calibration};
use crate::turtle_program::{
    Program, SubProgram, NoProgram, ProgramState, program_state, program_wf, program_active,
    program_progress, program_can_next, program_update_ready, program_step_err_free,
    lemma_step_err_location_only, sub_step_err, sub_step_ok, sub_next_spec, sub_progress,
};
use crate::run_history::RunHistory;
use crate::error::TurtleError;

verus! {

pub struct Turtle {
    pub id: String,
    pub program: Program,
    pub last_action: Option<TurtleAction>,
    pub state: TurtleState,
    pub run_history: RunHistory,
}

impl Turtle {
    /// A fresh session: an empty world map under the given persistence
    /// policy, a fresh estimator at the relative origin, an empty action
    /// log, no program, nothing in flight.
    pub fn new(name: String, ser_policy: StateSerializationPolicy) -> (r: Self)
        ensures
            r.id@ == name@,
            r.program matches Program::Sub(SubProgram::No(_)),
            r.last_action is None,
            r.state.wf(),
            r.state.location@.loc == (Vec3(0, 0, 0)),
            r.state.location@.direction == AxisDirection::Xp,
            r.state.location@.direction_absolute == AxisDirection::Xp,
            r.state.location@.loc_absolute is None,
            r.state.location@.location_precision == LocationMode::Relative(None::<(Vec3, Vec3)>),
            r.state.location@.history == Seq::<(Vec3, AxisDirection)>::empty(),
            r.state.world.state@ == Map::<Vec3, Block>::empty(),
            r.state.world.id@ == name@,
            r.state.world.ser_policy == ser_policy,
            r.state.history@ == Seq::<(TurtleAction, TurtleActionReturn)>::empty(),
    {
        let run_history = RunHistory::new(name.clone());
        let state = TurtleState::new(name.clone(), ser_policy);
        Turtle {
            id: name,
            program: Program::Sub(SubProgram::No(NoProgram {})),
            last_action: None,
            state,
            run_history,
        }
    }

    /// A session over a prepared state.
    pub fn from(name: String, state: TurtleState) -> (r: Self)
        ensures
            r.id@ == name@,
            r.program matches Program::Sub(SubProgram::No(_)),
            r.last_action is None,
            r.state == state,
    {
        let run_history = RunHistory::new(name.clone());
        Turtle {
            id: name,
            program: Program::Sub(SubProgram::No(NoProgram {})),
            last_action: None,
            state,
            run_history,
        }
    }

    /// Replace the running program wholesale.
    pub fn set_program(&mut self, program: Program)
        ensures
            final(self).program == program,
            final(self).id == old(self).id,
            final(self).last_action == old(self).last_action,
            final(self).state == old(self).state,
            final(self).run_history == old(self).run_history,
    {
        self.program = program;
    }

    /// Apply the outcome of the action in flight: pose first, then the
    /// world map against the updated pose, then the driving program, then
    /// the action log. The report says whether the world map changed and so
    /// whether a saving session must persist it. An outcome the action can
    /// never produce is fail-fast before anything changes; a later
    /// fail-fast condition stops the sequence where it arose. When nothing
    /// fails fast, the update is owed success.
    #[verifier::rlimit(100)]
    pub fn update(&mut self, result: TurtleActionReturn) -> (r: Result<bool, TurtleError>)
        requires
            old(self).last_action is Some,
            old(self).state.wf(),
            action_wf(old(self).last_action.unwrap()),
            old(self).state.location@.move_in_bounds(old(self).last_action.unwrap(), result),
            LocView::fix_in_bounds(result),
            program_update_ready(old(self).program),
        ensures
            final(self).id == old(self).id,
            final(self).last_action == old(self).last_action,
            ({
                let action = old(self).last_action.unwrap();
                if !compatible(action, result) {
                    &&& r == Err::<bool, TurtleError>(TurtleError::IncompatibleOutcome)
                    &&& final(self).state.location@ == old(self).state.location@
                    &&& final(self).state.world == old(self).state.world
                    &&& final(self).state.history@ == old(self).state.history@
                    &&& final(self).program == old(self).program
                } else {
                    match old(self).state.location@.spec_update(action, result) {
                        Err(e) => {
                            &&& r == Err::<bool, TurtleError>(e)
                            &&& final(self).state.location@ == old(self).state.location@
                            &&& final(self).state.world == old(self).state.world
                            &&& final(self).state.history@ == old(self).state.history@
                            &&& final(self).program == old(self).program
                        },
                        Ok(lv) => {
                            &&& final(self).state.location@ == lv
                            &&& final(self).state.wf()
                            &&& final(self).state.world.state@
                                == spec_observe(old(self).state.world.state@, action, result, lv)
                            &&& (r is Ok) == program_step_err_free(
                                old(self).program, final(self).state, action, result,
                            )
                            &&& match sub_step_err(program_active(old(self).program), final(self).state, action, result) {
                                Some(e) => {
                                    &&& r == Err::<bool, TurtleError>(e)
                                    &&& program_active(final(self).program)
                                        == program_active(old(self).program)
                                    &&& final(self).state.history@ == old(self).state.history@
                                },
                                None => {
                                    &&& (r is Err ==> final(self).state.history@ == old(self).state.history@)
                                    &&& r is Ok ==> {
                                    &&& sub_step_ok(
                                        program_active(old(self).program),
                                        program_active(final(self).program),
                                        final(self).state, action, result,
                                    )
                                    &&& final(self).state.history@
                                        == old(self).state.history@.push((action, result))
                                    &&& r.unwrap() == (match world_writes(
                                        old(self).state.world.state@, action, result, lv,
                                    ) {
                                        Some((c, b)) => !(old(self).state.world.state@.contains_key(c)
                                            && old(self).state.world.state@[c] == b),
                                        None => false,
                                    })
                                    }
                                },
                            }
                        },
                    }
                }
            }),
    {
        let action = self.last_action.unwrap();
        if !outcome_compatible(&action, &result) {
            return Err(TurtleError::IncompatibleOutcome);
        }
        proof {
            if self.state.location@.loc_absolute is Some
                && self.state.location@.spec_update(action, result) is Ok {
                lemma_update_keeps_calibration(self.state.location@, action, result);
            }
        }
        match self.state.location.update(&action, &result) {
            Ok(()) => {},
            Err(e) => {
                return Err(e);
            },
        }
        let changed = match self.state.world.update(&action, &result, &self.state.location) {
            Ok(c) => c,
            Err(e) => {
                proof {
                    assert(false);
                }
                return Err(e);
            },
        };
        let ghost mid = self.state;
        match self.program.update(&self.state, &action, &result) {
            Ok(()) => {},
            Err(e) => {
                return Err(e);
            },
        }
        self.state.history.update(&action, result);
        proof {
            assert(final(self).state.location == mid.location);
            lemma_step_err_location_only(program_active(old(self).program), mid,
                final(self).state, action, result);
            match old(self).program {
                Program::Sub(_) => {},
                Program::Multi(m) => {
                    assert forall|j: int| 0 <= j < m.programs@.len()
                        implies sub_step_err(#[trigger] m.programs@[j], final(self).state,
                            action, result)
                            == sub_step_err(m.programs@[j], mid, action, result) by {
                        lemma_step_err_location_only(m.programs@[j], mid, final(self).state,
                            action, result);
                    }
                },
            }
        }
        Ok(changed)
    }

    /// The next action to put in flight: what the program asks for, or
    /// `Stop` once the program reports itself finished. The chosen action
    /// is recorded as in flight.
    pub fn next(&mut self) -> (r: Result<TurtleAction, TurtleError>)
        requires
            program_wf(old(self).program),
            (old(self).program matches Program::Multi(m)
                ==> sub_progress(m.current).1 + m.programs@.len() <= u32::MAX),
        ensures
            program_wf(final(self).program),
            final(self).id == old(self).id,
            final(self).state == old(self).state,
            program_progress(old(self).program).0 == program_progress(old(self).program).1
                ==> r == Ok::<TurtleAction, TurtleError>(TurtleAction::Stop)
                    && final(self).last_action == Some(TurtleAction::Stop)
                    && final(self).program == old(self).program,
            r is Ok ==> final(self).last_action == Some(r.unwrap()),
            (r is Ok && program_progress(old(self).program).0 != program_progress(old(self).program).1)
                ==> sub_next_spec(program_active(final(self).program), r.unwrap()),
            r is Err ==> r == Err::<TurtleAction, TurtleError>(TurtleError::NoInstructions)
                && !program_can_next(old(self).program)
                && final(self).last_action == old(self).last_action,
    {
        let action = match program_state(&self.program) {
            ProgramState::HasInstructions => {
                match self.program.next() {
                    Ok(a) => a,
                    Err(e) => {
                        return Err(e);
                    },
                }
            },
            ProgramState::Finished => TurtleAction::Stop,
            ProgramState::Waiting => {
                proof {
                    // program_state never reports a wait.
                    assert(false);
                }
                TurtleAction::Stop
            },
        };
        self.last_action = Some(action);
        Ok(action)
    }
}

} // verus!
