//! The world knowledge map and the shared per-agent state. The world map is
//! a sparse classification of absolute cells, written only when an action's
//! outcome discloses a cell, and persisted (by the surrounding session)
//! whenever a cell's classification actually changes.

use vstd::prelude::*;
use crate::vec3::{Vec3, spec_add};
use crate::turtle_rotation::{AxisDirection, RelativeDirection, dest_dir_of};
use crate::turtle_action::{TurtleAction, TurtleActionReturn, FailureReason, action_wf, compatible, outcome_compatible};
use crate::location_state::{LocationState, LocView, coord_bounded, COORD_LIMIT};
use crate::cell_grid::CellGrid;
use crate::error::TurtleError;

verus! {

/// When the world map is loaded at session start and when it is written
/// back. The directories name where the surrounding session keeps the state
/// files.
#[derive(Clone, Debug)]
pub enum StateSerializationPolicy {
    /// Load state upon initialization, and save after each modification.
    LoadAndSave { load_dir: String, save_dir: String },
    /// Load state upon initialization, never save.
    LoadOnly { load_dir: String },
    /// Start from a clean slate, and save after each modification.
    SaveOnly { save_dir: String },
    /// Don't load anything, forget everything.
    Discard,
}

impl StateSerializationPolicy {
    /// Does this policy ask for changed state to be written back?
    pub open spec fn spec_saves(self) -> bool {
        match self {
            StateSerializationPolicy::LoadAndSave { .. } | StateSerializationPolicy::SaveOnly { .. } => true,
            StateSerializationPolicy::LoadOnly { .. } | StateSerializationPolicy::Discard => false,
        }
    }

    /// Exec mirror of `spec_saves`.
    pub fn saves(&self) -> (r: bool)
        ensures
            r == self.spec_saves(),
    {
        match self {
            StateSerializationPolicy::LoadAndSave { .. } | StateSerializationPolicy::SaveOnly { .. } => true,
            StateSerializationPolicy::LoadOnly { .. } | StateSerializationPolicy::Discard => false,
        }
    }
}

/// A grid coordinate, as the state modules name it.
pub type Coord = Vec3;

/// The four-way occupancy classification of a map cell.
#[derive(PartialEq, Eq, Structural, Clone, Copy, Hash, Debug)]
pub enum Block {
    Unknown,
    Air,
    AirOrGravityBlock,
    Block,
}

/// The persisted symbol for each classification.
pub open spec fn block_char(b: Block) -> char {
    match b {
        Block::Unknown => ' ',
        Block::Air => '.',
        Block::Block => '\u{2588}',
        Block::AirOrGravityBlock => '^',
    }
}

/// The classification a persisted symbol stands for, if it is one of the
/// four.
pub open spec fn spec_block_of(c: char) -> Option<Block> {
    if c == ' ' {
        Some(Block::Unknown)
    } else if c == '.' {
        Some(Block::Air)
    } else if c == '\u{2588}' {
        Some(Block::Block)
    } else if c == '^' {
        Some(Block::AirOrGravityBlock)
    } else {
        None
    }
}

impl Block {
    /// The persisted symbol for this classification.
    pub fn to_ascii(&self) -> (r: char)
        ensures
            r == block_char(*self),
    {
        match self {
            Block::Unknown => ' ',
            Block::Air => '.',
            Block::Block => '\u{2588}',
            Block::AirOrGravityBlock => '^',
        }
    }

    /// The classification of a persisted symbol; only the four symbols of
    /// the format are legal.
    pub fn from(c: char) -> (r: Self)
        requires
            spec_block_of(c) is Some,
        ensures
            Some(r) == spec_block_of(c),
    {
        if c == ' ' {
            Block::Unknown
        } else if c == '.' {
            Block::Air
        } else if c == '\u{2588}' {
            Block::Block
        } else {
            Block::AirOrGravityBlock
        }
    }

    /// The classification of a persisted symbol, total: unrecognized
    /// symbols are reported.
    pub fn try_from_char(c: char) -> (r: Option<Self>)
        ensures
            r == spec_block_of(c),
    {
        if c == ' ' {
            Some(Block::Unknown)
        } else if c == '.' {
            Some(Block::Air)
        } else if c == '\u{2588}' {
            Some(Block::Block)
        } else if c == '^' {
            Some(Block::AirOrGravityBlock)
        } else {
            None
        }
    }
}

/// The classification of a cell: what the map records, `Unknown` for an
/// absent cell.
pub open spec fn block_at(m: Map<Vec3, Block>, c: Vec3) -> Block {
    if m.contains_key(c) {
        m[c]
    } else {
        Block::Unknown
    }
}

/// Is there a solid cell somewhere above `c`, reachable by climbing through
/// consecutively known-passable cells? This decides whether a downward move
/// vacated a cell that could since have been filled by a falling block.
pub open spec fn solid_above(m: Map<Vec3, Block>, c: Vec3) -> bool {
    exists|h: int| c.1 < h <= i32::MAX
        && #[trigger] block_at(m, Vec3(c.0, h as i32, c.2)) == Block::Block
        && (forall|y: int| c.1 < y < h ==> block_at(m, Vec3(c.0, #[trigger] (y as i32), c.2)) == Block::Air)
}

/// The single cell (and classification) one observed action outcome
/// discloses, if any: a successful forward/backward/up move vacated the
/// cell the agent was in; a successful down move vacated it too, but only
/// provably so if something solid hangs above it; an obstructed move
/// reveals the destination cell; a detect probe classifies its target; a
/// "no block to inspect" failure reveals air. Nothing is attributable to a
/// coordinate while the absolute frame is unknown.
pub open spec fn world_writes(m: Map<Vec3, Block>, a: TurtleAction, o: TurtleActionReturn, lv: LocView)
    -> Option<(Vec3, Block)>
{
    if lv.loc_absolute is None {
        None
    } else {
        let la = lv.loc_absolute.unwrap();
        match (a, o) {
            (TurtleAction::Move { direction }, TurtleActionReturn::Success) => {
                if direction == RelativeDirection::Forward || direction == RelativeDirection::Backward
                    || direction == RelativeDirection::Up {
                    Some((la, Block::Air))
                } else {
                    Some((la, if solid_above(m, la) { Block::Air } else { Block::AirOrGravityBlock }))
                }
            },
            (TurtleAction::Move { direction }, TurtleActionReturn::Failure(_)) => {
                Some((spec_add(la, dest_dir_of(lv.direction_absolute, direction)), Block::Block))
            },
            (TurtleAction::Detect { direction }, TurtleActionReturn::Boolean(v)) => {
                Some((
                    spec_add(la, dest_dir_of(lv.direction_absolute, direction)),
                    if v { Block::Block } else { Block::Air },
                ))
            },
            (TurtleAction::Inspect { direction }, TurtleActionReturn::Failure(reason)) => {
                if reason == FailureReason::NoBlockToInspect {
                    Some((spec_add(la, dest_dir_of(lv.direction_absolute, direction)), Block::Air))
                } else {
                    None
                }
            },
            _ => None,
        }
    }
}

/// The map after observing one action outcome: at most one cell written.
pub open spec fn spec_observe(m: Map<Vec3, Block>, a: TurtleAction, o: TurtleActionReturn, lv: LocView)
    -> Map<Vec3, Block>
{
    match world_writes(m, a, o, lv) {
        None => m,
        Some((c, b)) => m.insert(c, b),
    }
}

/// The sparse world knowledge map, with its persistence identity and
/// policy.
pub struct WorldState {
    pub state: CellGrid,
    pub id: String,
    pub ser_policy: StateSerializationPolicy,
}

impl WorldState {
    /// Every recorded cell is a coordinate the estimator could have
    /// attributed an observation to.
    pub open spec fn wf(self) -> bool {
        self.state.wf()
        && forall|k: Vec3| #[trigger] self.state@.contains_key(k) ==> coord_bounded(k, 4)
    }

    /// A fresh, empty map under the given identity and policy. Loading a
    /// persisted snapshot is the surrounding session's business: it reads
    /// the file and merges through `update_all`.
    pub fn new(id: String, ser_policy: StateSerializationPolicy) -> (r: Self)
        ensures
            r.wf(),
            r.state@ == Map::<Vec3, Block>::empty(),
            r.id@ == id@,
            r.ser_policy == ser_policy,
    {
        WorldState { state: CellGrid::new(), id, ser_policy }
    }

    /// Is movement into this cell known to be blocked? `Some(false)` only
    /// for known air; unknown and possibly-collapsed cells give no answer.
    pub fn is_obstructed(&self, coord: &Vec3) -> (r: Option<bool>)
        requires
            self.wf(),
        ensures
            r == (match block_at(self.state@, *coord) {
                Block::Block => Some(true),
                Block::Air => Some(false),
                Block::Unknown | Block::AirOrGravityBlock => None::<bool>,
            }),
    {
        match self.state.lookup(coord) {
            Some(block) => match block {
                Block::Unknown | Block::AirOrGravityBlock => None,
                Block::Air => Some(false),
                Block::Block => Some(true),
            },
            None => None,
        }
    }

    /// The recorded classification of a cell; absent cells are `Unknown`.
    pub fn get(&self, loc_absolute: &Vec3) -> (r: Block)
        requires
            self.wf(),
        ensures
            r == block_at(self.state@, *loc_absolute),
    {
        match self.state.lookup(loc_absolute) {
            Some(block) => block,
            None => Block::Unknown,
        }
    }

    /// Record a cell's classification. The report says whether the map
    /// actually changed: under a saving policy, that is exactly when the
    /// session must write the snapshot back.
    pub fn update_at(&mut self, loc_absolute: Vec3, block: Block) -> (changed: bool)
        requires
            old(self).wf(),
            coord_bounded(loc_absolute, 4),
        ensures
            final(self).wf(),
            final(self).state@ == old(self).state@.insert(loc_absolute, block),
            final(self).id == old(self).id,
            final(self).ser_policy == old(self).ser_policy,
            changed == !(old(self).state@.contains_key(loc_absolute)
                && old(self).state@[loc_absolute] == block),
    {
        let prev = self.state.insert(loc_absolute, block);
        match prev {
            Some(oldblock) => oldblock != block,
            None => true,
        }
    }

    /// Merge a batch of cells (a loaded snapshot) into the map; the batch
    /// wins where both record a cell.
    pub fn update_all(&mut self, blocks: CellGrid) -> (changed: bool)
        requires
            old(self).wf(),
            blocks.wf(),
            forall|k: Vec3| #[trigger] blocks@.contains_key(k) ==> coord_bounded(k, 4),
        ensures
            final(self).wf(),
            final(self).state@ == old(self).state@.union_prefer_right(blocks@),
            final(self).id == old(self).id,
            final(self).ser_policy == old(self).ser_policy,
    {
        proof {
            blocks.lemma_entries();
        }
        let n = blocks.len();
        let mut changed = false;
        let mut i: usize = 0;
        while i < n
            invariant
                self.wf(),
                blocks.wf(),
                n == blocks.entries().len(),
                i <= n,
                self.id == old(self).id,
                self.ser_policy == old(self).ser_policy,
                forall|k: Vec3| #[trigger] blocks@.contains_key(k) ==> coord_bounded(k, 4),
                forall|k: Vec3| #[trigger] self.state@.contains_key(k)
                    <==> (old(self).state@.contains_key(k)
                        || exists|j: int| 0 <= j < i && (#[trigger] blocks.entries()[j]).0 == k),
                forall|j: int| 0 <= j < i ==> self.state@.contains_key((#[trigger] blocks.entries()[j]).0)
                    && self.state@[blocks.entries()[j].0] == blocks.entries()[j].1,
                forall|k: Vec3| (forall|j: int| 0 <= j < i ==> (#[trigger] blocks.entries()[j]).0 != k)
                    ==> ((#[trigger] self.state@.contains_key(k)) == old(self).state@.contains_key(k)
                        && (old(self).state@.contains_key(k) ==> self.state@[k] == old(self).state@[k])),
            decreases n - i,
        {
            let (coord, block) = blocks.entry(i);
            proof {
                blocks.lemma_entries();
                assert(blocks@.contains_key((blocks.entries()[i as int]).0));
            }
            let c = self.update_at(coord, block);
            changed = changed || c;
            proof {
                assert forall|k: Vec3| (forall|j: int| 0 <= j < i + 1 ==> (#[trigger] blocks.entries()[j]).0 != k)
                    implies ((#[trigger] self.state@.contains_key(k)) == old(self).state@.contains_key(k)
                        && (old(self).state@.contains_key(k) ==> self.state@[k] == old(self).state@[k])) by {
                    assert(blocks.entries()[i as int].0 != k);
                    assert(forall|j: int| 0 <= j < i ==> (#[trigger] blocks.entries()[j]).0 != k);
                }
            }
            i = i + 1;
        }
        proof {
            blocks.lemma_entries();
            assert(self.state@ =~= old(self).state@.union_prefer_right(blocks@));
        }
        changed
    }

    /// Is there a solid block at some height above `loc`, with only known
    /// air in between?
    fn is_solid_above(&self, loc: &Vec3) -> (r: bool)
        requires
            self.wf(),
            coord_bounded(*loc, 3),
        ensures
            r == solid_above(self.state@, *loc),
    {
        proof {
            self.state.lemma_entries();
        }
        let n = self.state.len();
        let mut maxy: i32 = loc.1;
        let mut i: usize = 0;
        while i < n
            invariant
                self.wf(),
                n == self.state.entries().len(),
                i <= n,
                loc.1 <= maxy,
                maxy <= 4 * (COORD_LIMIT as int),
                coord_bounded(*loc, 3),
                forall|j: int| 0 <= j < i ==> (#[trigger] self.state.entries()[j]).0.1 <= maxy,
            decreases n - i,
        {
            let (k, _b) = self.state.entry(i);
            proof {
                self.state.lemma_entries();
                assert(self.state@.contains_key(self.state.entries()[i as int].0));
            }
            if k.1 > maxy {
                maxy = k.1;
            }
            i = i + 1;
        }
        proof {
            self.state.lemma_entries();
            assert forall|k: Vec3| #[trigger] self.state@.contains_key(k) implies k.1 <= maxy by {
                let j = choose|j: int| 0 <= j < self.state.entries().len()
                    && (#[trigger] self.state.entries()[j]).0 == k;
            }
        }
        let mut y: i32 = loc.1 + 1;
        while y <= maxy
            invariant
                self.wf(),
                coord_bounded(*loc, 3),
                loc.1 < y <= maxy + 1,
                maxy <= 4 * (COORD_LIMIT as int),
                forall|k: Vec3| #[trigger] self.state@.contains_key(k) ==> k.1 <= maxy,
                forall|yy: int| loc.1 < yy < y
                    ==> block_at(self.state@, Vec3(loc.0, #[trigger] (yy as i32), loc.2)) == Block::Air,
            decreases maxy + 1 - y,
        {
            let cell = Vec3(loc.0, y, loc.2);
            match self.state.lookup(&cell) {
                Some(b) => match b {
                    Block::Block => {
                        proof {
                            assert(block_at(self.state@, Vec3(loc.0, (y as int) as i32, loc.2)) == Block::Block);
                        }
                        return true;
                    },
                    Block::Air => {},
                    Block::Unknown | Block::AirOrGravityBlock => {
                        proof {
                            lemma_not_solid(self.state@, *loc, y as int);
                        }
                        return false;
                    },
                },
                None => {
                    proof {
                        lemma_not_solid(self.state@, *loc, y as int);
                    }
                    return false;
                },
            }
            y = y + 1;
        }
        proof {
            assert forall|h: int| #![trigger block_at(self.state@, Vec3(loc.0, h as i32, loc.2))]
                loc.1 < h <= i32::MAX
                && (forall|yy: int| loc.1 < yy < h
                    ==> block_at(self.state@, Vec3(loc.0, #[trigger] (yy as i32), loc.2)) == Block::Air)
                implies block_at(self.state@, Vec3(loc.0, h as i32, loc.2)) != Block::Block by {
                if h < y {
                    assert(block_at(self.state@, Vec3(loc.0, (h as i32), loc.2)) == Block::Air);
                } else {
                    assert(!self.state@.contains_key(Vec3(loc.0, h as i32, loc.2)));
                }
            }
        }
        false
    }

    /// Observe one executed action's outcome and record what it disclosed,
    /// per `world_writes`. An action paired with an outcome it can never
    /// produce means the protocol has diverged: that is fail-fast, not a
    /// silent no-op. On success the report says whether a cell's
    /// classification actually changed (and so whether a saving session
    /// must persist).
    pub fn update(&mut self, action: &TurtleAction, result: &TurtleActionReturn, loc: &LocationState)
        -> (r: Result<bool, TurtleError>)
        requires
            old(self).wf(),
            action_wf(*action),
            loc@.wf(),
        ensures
            final(self).wf(),
            final(self).id == old(self).id,
            final(self).ser_policy == old(self).ser_policy,
            !compatible(*action, *result) ==> r == Err::<bool, TurtleError>(TurtleError::IncompatibleOutcome)
                && final(self).state@ == old(self).state@,
            compatible(*action, *result) ==> {
                &&& final(self).state@ == spec_observe(old(self).state@, *action, *result, loc@)
                &&& r == Ok::<bool, TurtleError>(match world_writes(old(self).state@, *action, *result, loc@) {
                    Some((c, b)) => !(old(self).state@.contains_key(c) && old(self).state@[c] == b),
                    None => false,
                })
            },
    {
        if !outcome_compatible(action, result) {
            return Err(TurtleError::IncompatibleOutcome);
        }
        let loc_absolute = match &loc.loc_absolute {
            Some(la) => *la,
            None => {
                return Ok(false);
            },
        };
        proof {
            crate::location_state::lemma_wf_absolute_bounded(loc@);
        }
        let changed = match (action, result) {
            (TurtleAction::Move { direction }, TurtleActionReturn::Success) => {
                if matches!(direction, RelativeDirection::Forward | RelativeDirection::Backward | RelativeDirection::Up) {
                    self.update_at(loc_absolute, Block::Air)
                } else {
                    let is_block_above = self.is_solid_above(&loc_absolute);
                    if is_block_above {
                        self.update_at(loc_absolute, Block::Air)
                    } else {
                        self.update_at(loc_absolute, Block::AirOrGravityBlock)
                    }
                }
            },
            (TurtleAction::Move { direction }, TurtleActionReturn::Failure(_reason)) => {
                let unit_dir = loc.get_dest_direction_absolute(direction).unwrap();
                let dest = loc_absolute.add(&unit_dir);
                self.update_at(dest, Block::Block)
            },
            (TurtleAction::Detect { direction }, TurtleActionReturn::Boolean(value)) => {
                let dest_loc = loc.get_dest_position_absolute(direction).unwrap();
                let block = if *value {
                    Block::Block
                } else {
                    Block::Air
                };
                self.update_at(dest_loc, block)
            },
            (TurtleAction::Inspect { direction }, TurtleActionReturn::Failure(reason)) => {
                if matches!(reason, FailureReason::NoBlockToInspect) {
                    let dest_loc = loc.get_dest_position_absolute(direction).unwrap();
                    self.update_at(dest_loc, Block::Air)
                } else {
                    false
                }
            },
            _ => false,
        };
        Ok(changed)
    }
}

/// If the cell directly above the climb frontier is not known air and not
/// solid, nothing qualifies as solid-above.
proof fn lemma_not_solid(m: Map<Vec3, Block>, c: Vec3, y: int)
    requires
        c.1 < y <= i32::MAX,
        forall|yy: int| c.1 < yy < y ==> block_at(m, Vec3(c.0, #[trigger] (yy as i32), c.2)) == Block::Air,
        block_at(m, Vec3(c.0, y as i32, c.2)) != Block::Air,
        block_at(m, Vec3(c.0, y as i32, c.2)) != Block::Block,
    ensures
        !solid_above(m, c),
{
    assert forall|h: int| #![trigger block_at(m, Vec3(c.0, h as i32, c.2))]
        c.1 < h <= i32::MAX
        && (forall|yy: int| c.1 < yy < h
            ==> block_at(m, Vec3(c.0, #[trigger] (yy as i32), c.2)) == Block::Air)
        implies block_at(m, Vec3(c.0, h as i32, c.2)) != Block::Block by {
        if h < y {
            assert(block_at(m, Vec3(c.0, (h as i32), c.2)) == Block::Air);
        } else if h == y {
        } else {
            assert(block_at(m, Vec3(c.0, (y as i32), c.2)) == Block::Air);
        }
    }
}


/// Actions that move or turn the agent, as counted by the step log.
pub open spec fn is_move_step(a: TurtleAction) -> bool {
    a is Move || a is Turn
}

/// How many executed actions in a log were moves or turns.
pub open spec fn spec_move_steps(s: Seq<(TurtleAction, TurtleActionReturn)>) -> nat
    decreases s.len(),
{
    if s.len() == 0 {
        0
    } else {
        spec_move_steps(s.drop_last()) + if is_move_step(s.last().0) { 1nat } else { 0nat }
    }
}

/// The log of every executed action and its outcome, in order.
pub struct ActionHistory {
    history: Vec<(TurtleAction, TurtleActionReturn)>,
}

impl View for ActionHistory {
    type V = Seq<(TurtleAction, TurtleActionReturn)>;

    closed spec fn view(&self) -> Seq<(TurtleAction, TurtleActionReturn)> {
        self.history@
    }
}

impl ActionHistory {
    pub fn new() -> (r: Self)
        ensures
            r@ == Seq::<(TurtleAction, TurtleActionReturn)>::empty(),
    {
        let r = ActionHistory { history: Vec::new() };
        proof {
            assert(r.history@ =~= Seq::<(TurtleAction, TurtleActionReturn)>::empty());
        }
        r
    }

    /// How many logged actions were moves or turns.
    pub fn move_steps_len(&self) -> (r: usize)
        ensures
            r == spec_move_steps(self@),
    {
        let mut count: usize = 0;
        let mut i: usize = 0;
        while i < self.history.len()
            invariant
                i <= self.history@.len(),
                count == spec_move_steps(self.history@.subrange(0, i as int)),
                count <= i,
            decreases self.history@.len() - i,
        {
            let is_step = match &self.history[i].0 {
                TurtleAction::Move { .. } | TurtleAction::Turn { .. } => true,
                _ => false,
            };
            proof {
                assert(self.history@.subrange(0, i + 1).drop_last() =~= self.history@.subrange(0, i as int));
            }
            if is_step {
                count = count + 1;
            }
            i = i + 1;
        }
        proof {
            assert(self.history@.subrange(0, self.history@.len() as int) =~= self.history@);
        }
        count
    }

    /// Log one executed action and its outcome.
    pub fn update(&mut self, action: &TurtleAction, response: TurtleActionReturn)
        ensures
            final(self)@ == old(self)@.push((*action, response)),
    {
        self.history.push((*action, response));
    }
}

/// The whole per-agent state: the location estimator, the world knowledge
/// map, and the action log, updated together after every executed action.
pub struct TurtleState {
    pub location: LocationState,
    pub world: WorldState,
    pub history: ActionHistory,
}

impl TurtleState {
    /// The estimator and the map are each well-formed.
    pub open spec fn wf(self) -> bool {
        self.location@.wf() && self.world.wf()
    }

    /// A fresh state: everything unknown. A persisted world snapshot, if the
    /// policy loads one, is merged in by the surrounding session through
    /// `update_all`.
    pub fn new(id: String, serialization: StateSerializationPolicy) -> (r: Self)
        ensures
            r.wf(),
            r.location@.loc == (Vec3(0, 0, 0)),
            r.location@.direction == AxisDirection::Xp,
            r.location@.direction_absolute == AxisDirection::Xp,
            r.location@.loc_absolute is None,
            r.location@.location_precision == crate::location_state::LocationMode::Relative(None::<(Vec3, Vec3)>),
            r.location@.history == Seq::<(Vec3, AxisDirection)>::empty(),
            r.world.state@ == Map::<Vec3, Block>::empty(),
            r.world.id@ == id@,
            r.world.ser_policy == serialization,
            r.history@ == Seq::<(TurtleAction, TurtleActionReturn)>::empty(),
    {
        TurtleState {
            location: LocationState::new(),
            world: WorldState::new(id, serialization),
            history: ActionHistory::new(),
        }
    }

    /// Assemble a state from a prepared estimator and map.
    pub fn from(location: LocationState, world: WorldState) -> (r: Self)
        ensures
            r.location == location,
            r.world == world,
            r.history@ == Seq::<(TurtleAction, TurtleActionReturn)>::empty(),
    {
        TurtleState {
            location,
            world,
            history: ActionHistory::new(),
        }
    }

    /// Apply one executed action's outcome to all three components, in
    /// order: pose first, then the world map (which reads the updated
    /// pose, as the vacated-cell rules require), then the log. The report
    /// says whether the world map changed and so whether a saving session
    /// must persist it. An outcome the action can never produce, an
    /// unhandled action kind or a contradictory fix is fail-fast, and
    /// leaves the whole state untouched.
    pub fn update(&mut self, action: &TurtleAction, result: TurtleActionReturn)
        -> (r: Result<bool, TurtleError>)
        requires
            old(self).wf(),
            action_wf(*action),
            old(self).location@.move_in_bounds(*action, result),
            LocView::fix_in_bounds(result),
        ensures
            !compatible(*action, result) ==> {
                &&& r == Err::<bool, TurtleError>(TurtleError::IncompatibleOutcome)
                &&& final(self).location@ == old(self).location@
                &&& final(self).world == old(self).world
                &&& final(self).history@ == old(self).history@
            },
            compatible(*action, result) ==> match old(self).location@.spec_update(*action, result) {
                Ok(lv) => {
                    &&& r is Ok
                    &&& final(self).wf()
                    &&& final(self).location@ == lv
                    &&& final(self).world.state@ == spec_observe(old(self).world.state@, *action, result, lv)
                    &&& final(self).world.id == old(self).world.id
                    &&& final(self).world.ser_policy == old(self).world.ser_policy
                    &&& final(self).history@ == old(self).history@.push((*action, result))
                    &&& r.unwrap() == (match world_writes(old(self).world.state@, *action, result, lv) {
                        Some((c, b)) => !(old(self).world.state@.contains_key(c)
                            && old(self).world.state@[c] == b),
                        None => false,
                    })
                },
                Err(e) => {
                    &&& r == Err::<bool, TurtleError>(e)
                    &&& final(self).location@ == old(self).location@
                    &&& final(self).world == old(self).world
                    &&& final(self).history@ == old(self).history@
                },
            },
    {
        if !outcome_compatible(action, &result) {
            return Err(TurtleError::IncompatibleOutcome);
        }
        match self.location.update(action, &result) {
            Ok(()) => {},
            Err(e) => {
                return Err(e);
            },
        }
        let changed = match self.world.update(action, &result, &self.location) {
            Ok(c) => c,
            Err(e) => {
                return Err(e);
            },
        };
        self.history.update(action, result);
        Ok(changed)
    }
}

/// The obstruction-inference law: an obstructed forward move marks the
/// destination cell - never the agent's own cell - as solid, and a
/// subsequent detect probe of that same cell reporting `true` leaves the
/// classification at solid.
pub proof fn lemma_obstruction_inference(m: Map<Vec3, Block>, lv: LocView)
    requires
        lv.wf(),
        (lv.loc_absolute is Some),
    ensures
        ({
            let a = TurtleAction::Move { direction: RelativeDirection::Forward };
            let o = TurtleActionReturn::Failure(FailureReason::MovementObstructed);
            let la = lv.loc_absolute.unwrap();
            let dest = spec_add(la, dest_dir_of(lv.direction_absolute, RelativeDirection::Forward));
            let m1 = spec_observe(m, a, o, lv);
            &&& world_writes(m, a, o, lv) == Some((dest, Block::Block))
            &&& dest != la
            &&& block_at(m1, dest) == Block::Block
            &&& block_at(m1, la) == block_at(m, la)
            &&& block_at(
                spec_observe(m1, TurtleAction::Detect { direction: RelativeDirection::Forward },
                    TurtleActionReturn::Boolean(true), lv),
                dest,
            ) == Block::Block
        }),
{
    crate::location_state::lemma_wf_absolute_bounded(lv);
    let la = lv.loc_absolute.unwrap();
    let u = dest_dir_of(lv.direction_absolute, RelativeDirection::Forward);
    match lv.direction_absolute {
        AxisDirection::Xp | AxisDirection::Xm => {
            assert(spec_add(la, u).0 != la.0);
        },
        AxisDirection::Zp | AxisDirection::Zm => {
            assert(spec_add(la, u).2 != la.2);
        },
        _ => {
            assert(false);
        },
    }
}

/// The action/outcome pairings that disclose a cell to the world map.
pub open spec fn world_observes(a: TurtleAction, o: TurtleActionReturn) -> bool {
    match (a, o) {
        (TurtleAction::Move { .. }, TurtleActionReturn::Success) => true,
        (TurtleAction::Move { .. }, TurtleActionReturn::Failure(_)) => true,
        (TurtleAction::Detect { .. }, TurtleActionReturn::Boolean(_)) => true,
        (TurtleAction::Inspect { .. }, TurtleActionReturn::Failure(reason)) =>
            reason == FailureReason::NoBlockToInspect,
        _ => false,
    }
}

/// The world map's half of the vocabulary-exhaustiveness law: with the
/// absolute frame known, an observation writes a cell exactly for the
/// documented disclosing pairings, every disclosing pairing is one the
/// protocol can legitimately produce, and nothing is written before
/// calibration. Pairings outside the protocol never reach these rules at
/// all: `WorldState::update` fails fast on them.
pub proof fn lemma_world_vocabulary(m: Map<Vec3, Block>, a: TurtleAction, o: TurtleActionReturn, lv: LocView)
    ensures
        (lv.loc_absolute is None) ==> world_writes(m, a, o, lv) is None,
        (lv.loc_absolute is Some) ==> ((world_writes(m, a, o, lv) is Some) <==> world_observes(a, o)),
        world_observes(a, o) ==> compatible(a, o),
{
}

} // verus!

