//! The real-time heuristic pathfinder. Given the current absolute pose and
//! a goal pose it emits one action per planning cycle, against a lazily
//! built memo of per-node heuristic values: the agent commits to the
//! cheapest successor but memoizes the second-cheapest distinct cost, so
//! that repeated visits refine the estimate without a global frontier.

use vstd::prelude::*;
use crate::vec3::{Vec3, spec_add, spec_sub};
use crate::turtle_rotation::{
    AxisDirection, RelativeDirection, Rotation, left_of, right_of, dest_dir_of, unit_vec_of,
    is_horizontal, axis_dot,
};
use crate::turtle_action::TurtleAction;
use crate::turtle_state::{Block, block_at, TurtleState, WorldState};
use crate::location_state::{coord_bounded, COORD_LIMIT};
use crate::error::TurtleError;

verus! {

/// A search node: a cell and a facing.
#[derive(PartialEq, Eq, Structural, Clone, Copy, Hash, Debug)]
pub struct Node {
    pub loc: Vec3,
    pub dir: AxisDirection,
}

/// The map denoted by a memo entry sequence: later entries win.
pub open spec fn memo_map_of(s: Seq<(Node, u64)>) -> Map<Node, u64>
    decreases s.len(),
{
    if s.len() == 0 {
        Map::empty()
    } else {
        memo_map_of(s.drop_last()).insert(s.last().0, s.last().1)
    }
}

/// No node occurs twice in a memo entry sequence.
pub open spec fn memo_unique(s: Seq<(Node, u64)>) -> bool {
    forall|i: int, j: int| 0 <= i < j < s.len() ==> (#[trigger] s[i]).0 != (#[trigger] s[j]).0
}

/// Does some memo entry hold node `k`?
pub open spec fn memo_has(s: Seq<(Node, u64)>, k: Node) -> bool {
    exists|i: int| 0 <= i < s.len() && (#[trigger] s[i]).0 == k
}

proof fn lemma_memo_entries(s: Seq<(Node, u64)>)
    ensures
        forall|k: Node| #[trigger] memo_map_of(s).contains_key(k) <==> memo_has(s, k),
        memo_unique(s) ==> forall|i: int| 0 <= i < s.len()
            ==> memo_map_of(s).contains_key((#[trigger] s[i]).0) && memo_map_of(s)[s[i].0] == s[i].1,
    decreases s.len(),
{
    if s.len() > 0 {
        let s0 = s.drop_last();
        lemma_memo_entries(s0);
        assert forall|k: Node| #[trigger] memo_map_of(s).contains_key(k) implies memo_has(s, k) by {
            if k == s.last().0 {
                assert((s[s.len() - 1]).0 == k);
            } else {
                assert(memo_map_of(s0).contains_key(k));
                assert(memo_has(s0, k));
                let i = choose|i: int| 0 <= i < s0.len() && (#[trigger] s0[i]).0 == k;
                assert((s[i]).0 == k);
            }
        }
        assert forall|k: Node| memo_has(s, k) implies memo_map_of(s).contains_key(k) by {
            let i = choose|i: int| 0 <= i < s.len() && (#[trigger] s[i]).0 == k;
            if i < s.len() - 1 {
                assert((s0[i]).0 == k);
                assert(memo_has(s0, k));
            }
        }
        if memo_unique(s) {
            assert(memo_unique(s0));
            assert forall|i: int| 0 <= i < s.len()
                implies memo_map_of(s).contains_key((#[trigger] s[i]).0)
                    && memo_map_of(s)[s[i].0] == s[i].1 by {
                if i < s.len() - 1 {
                    assert((s0[i]).0 == s[i].0);
                    assert(s[i].0 != s.last().0);
                }
            }
        }
    }
}

/// The memo of per-node heuristic values.
struct NodeMap {
    cells: Vec<(Node, u64)>,
}

impl View for NodeMap {
    type V = Map<Node, u64>;

    closed spec fn view(&self) -> Map<Node, u64> {
        memo_map_of(self.cells@)
    }
}

impl NodeMap {
    spec fn wf(self) -> bool {
        memo_unique(self.cells@)
    }

    fn new() -> (r: Self)
        ensures
            r.wf(),
            r@ == Map::<Node, u64>::empty(),
    {
        NodeMap { cells: Vec::new() }
    }

    fn lookup(&self, k: &Node) -> (r: Option<u64>)
        requires
            self.wf(),
        ensures
            match r {
                Some(v) => self@.contains_key(*k) && self@[*k] == v,
                None => !self@.contains_key(*k),
            },
    {
        proof {
            lemma_memo_entries(self.cells@);
        }
        let mut i: usize = 0;
        while i < self.cells.len()
            invariant
                self.wf(),
                i <= self.cells@.len(),
                forall|j: int| 0 <= j < i ==> (#[trigger] self.cells@[j]).0 != *k,
            decreases self.cells@.len() - i,
        {
            let (ck, cv) = self.cells[i];
            if ck.loc.eq_v(&k.loc) && ck.dir == k.dir {
                proof {
                    lemma_memo_entries(self.cells@);
                    assert((self.cells@[i as int]).0 == *k);
                    assert(memo_map_of(self.cells@)[(self.cells@[i as int]).0] == (self.cells@[i as int]).1);
                }
                return Some(cv);
            }
            i = i + 1;
        }
        None
    }

    fn insert(&mut self, k: Node, v: u64)
        requires
            old(self).wf(),
        ensures
            final(self).wf(),
            final(self)@ == old(self)@.insert(k, v),
    {
        proof {
            lemma_memo_entries(self.cells@);
        }
        let mut i: usize = 0;
        while i < self.cells.len()
            invariant
                old(self).wf(),
                self == old(self),
                i <= self.cells@.len(),
                forall|j: int| 0 <= j < i ==> (#[trigger] self.cells@[j]).0 != k,
            decreases self.cells@.len() - i,
        {
            let (ck, _cv) = self.cells[i];
            if ck.loc.eq_v(&k.loc) && ck.dir == k.dir {
                proof {
                    lemma_memo_entries(self.cells@);
                    assert((self.cells@[i as int]).0 == k);
                }
                self.cells.set(i, (k, v));
                proof {
                    lemma_memo_replace(old(self).cells@, i as int, k, v);
                }
                return;
            }
            i = i + 1;
        }
        self.cells.push((k, v));
        proof {
            assert(self.cells@.drop_last() =~= old(self).cells@);
        }
    }
}

proof fn lemma_memo_replace(s: Seq<(Node, u64)>, i: int, k: Node, v: u64)
    requires
        memo_unique(s),
        0 <= i < s.len(),
        s[i].0 == k,
    ensures
        memo_unique(s.update(i, (k, v))),
        memo_map_of(s.update(i, (k, v))) == memo_map_of(s).insert(k, v),
    decreases s.len(),
{
    let s2 = s.update(i, (k, v));
    assert forall|x: int, y: int| 0 <= x < y < s2.len()
        implies (#[trigger] s2[x]).0 != (#[trigger] s2[y]).0 by {
        assert(s[x].0 != s[y].0);
    }
    if s.len() > 0 {
        if i == s.len() - 1 {
            assert(s2.drop_last() =~= s.drop_last());
            assert(memo_map_of(s2) =~= memo_map_of(s).insert(k, v));
        } else {
            assert(memo_unique(s.drop_last()));
            assert(s2.drop_last() =~= s.drop_last().update(i, (k, v)));
            lemma_memo_replace(s.drop_last(), i, k, v);
            assert(s.last().0 != k);
            assert(memo_map_of(s2) =~= memo_map_of(s).insert(k, v));
        }
    }
}

/// The fixed successor set of a node, in the order the search examines it:
/// the two turns, then the four translational moves.
pub open spec fn spec_neighbors(n: Node) -> Seq<(Node, TurtleAction)> {
    seq![
        (Node { loc: n.loc, dir: left_of(n.dir) },
            TurtleAction::Turn { direction: RelativeDirection::Left }),
        (Node { loc: n.loc, dir: right_of(n.dir) },
            TurtleAction::Turn { direction: RelativeDirection::Right }),
        (Node { loc: spec_add(n.loc, dest_dir_of(n.dir, RelativeDirection::Forward)), dir: n.dir },
            TurtleAction::Move { direction: RelativeDirection::Forward }),
        (Node { loc: spec_add(n.loc, dest_dir_of(n.dir, RelativeDirection::Backward)), dir: n.dir },
            TurtleAction::Move { direction: RelativeDirection::Backward }),
        (Node { loc: spec_add(n.loc, dest_dir_of(n.dir, RelativeDirection::Up)), dir: n.dir },
            TurtleAction::Move { direction: RelativeDirection::Up }),
        (Node { loc: spec_add(n.loc, dest_dir_of(n.dir, RelativeDirection::Down)), dir: n.dir },
            TurtleAction::Move { direction: RelativeDirection::Down }),
    ]
}

/// Exec mirror of `spec_neighbors`.
fn generate_neighbors(node: &Node) -> (r: Vec<(Node, TurtleAction)>)
    requires
        is_horizontal(node.dir),
        coord_bounded(node.loc, 4),
    ensures
        r@ == spec_neighbors(*node),
{
    let mut result: Vec<(Node, TurtleAction)> = Vec::new();
    let turn_left = node.dir.rotate_left();
    let turn_right = node.dir.rotate_right();
    result.push((Node { loc: node.loc, dir: turn_left },
        TurtleAction::Turn { direction: RelativeDirection::Left }));
    result.push((Node { loc: node.loc, dir: turn_right },
        TurtleAction::Turn { direction: RelativeDirection::Right }));
    let fwd = crate::turtle_rotation::get_dest_axisdirection(&node.dir, &RelativeDirection::Forward);
    result.push((Node { loc: node.loc.add(&fwd), dir: node.dir },
        TurtleAction::Move { direction: RelativeDirection::Forward }));
    let bwd = crate::turtle_rotation::get_dest_axisdirection(&node.dir, &RelativeDirection::Backward);
    result.push((Node { loc: node.loc.add(&bwd), dir: node.dir },
        TurtleAction::Move { direction: RelativeDirection::Backward }));
    result.push((Node { loc: node.loc.add(&Vec3(0, 1, 0)), dir: node.dir },
        TurtleAction::Move { direction: RelativeDirection::Up }));
    result.push((Node { loc: node.loc.add(&Vec3(0, -1i32, 0)), dir: node.dir },
        TurtleAction::Move { direction: RelativeDirection::Down }));
    proof {
        assert(result@ =~= spec_neighbors(*node));
    }
    result
}

/// The cost a known-solid cell gets when digging is disabled: effectively
/// infinite, a forbidden node.
pub open spec fn blocked_cost() -> int {
    999999
}

/// The distance heuristic: forbidden if the node is known-solid and digging
/// is off; otherwise the Manhattan distance to the goal plus a turn cost
/// derived from the yaw between the node's facing and the goal facing -
/// aligned facing costs nothing extra only when the remaining run is a
/// straight line home.
pub open spec fn spec_dist_heuristic(
    m: Map<Vec3, Block>,
    start: Node,
    end: Node,
    can_dig: bool,
    cur_cost: u64,
) -> int {
    if !can_dig && block_at(m, start.loc) == Block::Block {
        blocked_cost()
    } else {
        let rotation_needed = axis_dot(start.dir, end.dir);
        let dist = spec_sub(end.loc, start.loc);
        let rotation_cost: int = match rotation_needed {
            Rotation::Y0 => {
                if dist.0 == 0 || dist.2 == 0 {
                    let d = Vec3(
                        if dist.0 == 0 { 0 } else { 1 },
                        0,
                        if dist.2 == 0 { 0 } else { 1 },
                    );
                    if d == (Vec3(0, 0, 0)) || d == unit_vec_of(end.dir)
                        || d == (Vec3(
                            -unit_vec_of(end.dir).0 as i32,
                            -unit_vec_of(end.dir).1 as i32,
                            -unit_vec_of(end.dir).2 as i32,
                        )) {
                        0
                    } else {
                        2
                    }
                } else {
                    2
                }
            },
            Rotation::Y90 | Rotation::Y270 => 1,
            Rotation::Y180 => 2,
        };
        cur_cost + dist.manhattan() + rotation_cost
    }
}

/// Exec mirror of `spec_dist_heuristic`.
fn dist_heuristic(state: &WorldState, start: &Node, end: &Node, can_dig: bool, cur_cost: u64)
    -> (r: u64)
    requires
        state.wf(),
        is_horizontal(start.dir),
        is_horizontal(end.dir),
        coord_bounded(start.loc, 4),
        coord_bounded(end.loc, 3),
        cur_cost < 0x1000_0000_0000_0000,
    ensures
        r == spec_dist_heuristic(state.state@, *start, *end, can_dig, cur_cost),
        r <= cur_cost + 0x1_0000_0000,
{
    let block = state.get(&start.loc);
    if !can_dig && matches!(block, Block::Block) {
        return 999999;
    }
    let rotation_needed = AxisDirection::dot(&start.dir, &end.dir);
    let distance_needed = end.loc.sub(&start.loc);
    let rotation_cost: u64 = match rotation_needed {
        Rotation::Y0 => {
            if distance_needed.0 == 0 || distance_needed.2 == 0 {
                let d = Vec3(
                    if distance_needed.0 == 0 { 0 } else { 1 },
                    0,
                    if distance_needed.2 == 0 { 0 } else { 1 },
                );
                let unit = end.dir.to_unit_vector();
                if d.eq_v(&Vec3(0, 0, 0)) || d.eq_v(&unit) || d.eq_v(&unit.neg()) {
                    0
                } else {
                    2
                }
            } else {
                2
            }
        },
        Rotation::Y90 | Rotation::Y270 => 1,
        Rotation::Y180 => 2,
    };
    cur_cost + distance_needed.manhattan_u64() + rotation_cost
}

/// The greedy probe's one step: the first axis (in the fixed examination
/// order) that makes progress toward the goal and whose next cell the map
/// has no entry for.
pub open spec fn spec_block_step(m: Map<Vec3, Block>, c: Vec3, g: Vec3) -> Option<Vec3> {
    let d = spec_sub(g, c);
    if d.0 > 0 && !m.contains_key(spec_add(c, Vec3(1, 0, 0))) {
        Some(spec_add(c, Vec3(1, 0, 0)))
    } else if d.2 > 0 && !m.contains_key(spec_add(c, Vec3(0, 0, 1))) {
        Some(spec_add(c, Vec3(0, 0, 1)))
    } else if d.0 < 0 && !m.contains_key(spec_add(c, Vec3(-1i32, 0, 0))) {
        Some(spec_add(c, Vec3(-1i32, 0, 0)))
    } else if d.2 < 0 && !m.contains_key(spec_add(c, Vec3(0, 0, -1i32))) {
        Some(spec_add(c, Vec3(0, 0, -1i32)))
    } else if d.1 > 0 && !m.contains_key(spec_add(c, Vec3(0, 1, 0))) {
        Some(spec_add(c, Vec3(0, 1, 0)))
    } else if d.1 < 0 && !m.contains_key(spec_add(c, Vec3(0, -1i32, 0))) {
        Some(spec_add(c, Vec3(0, -1i32, 0)))
    } else {
        None
    }
}

/// The blocking penalty: walk a greedy straight-line path from `c` toward
/// `g` through unexplored cells only; if at some point every axis toward
/// the goal is already explored, a penalty of one discourages (but does not
/// forbid) the route.
pub open spec fn spec_blocking(m: Map<Vec3, Block>, c: Vec3, g: Vec3) -> int
    decreases spec_sub(g, c).manhattan()
        when coord_bounded(c, 4) && coord_bounded(g, 3)
{
    let d = spec_sub(g, c);
    if d == (Vec3(0, 0, 0)) {
        0
    } else {
        match spec_block_step(m, c, g) {
            None => 1,
            Some(next) => spec_blocking(m, next, g),
        }
    }
}

/// Exec mirror of `spec_blocking`, by the same recursion.
fn blocking_from(state: &WorldState, current: Vec3, goal: Vec3) -> (r: u64)
    requires
        state.wf(),
        coord_bounded(current, 4),
        coord_bounded(goal, 3),
    ensures
        r == spec_blocking(state.state@, current, goal),
        r <= 1,
    decreases spec_sub(goal, current).manhattan(),
{
    let d = goal.sub(&current);
    if d.0 == 0 && d.1 == 0 && d.2 == 0 {
        return 0;
    }
    if d.0 > 0 {
        let dest = current.add(&Vec3(1, 0, 0));
        if state.state.lookup(&dest).is_none() {
            return blocking_from(state, dest, goal);
        }
    }
    if d.2 > 0 {
        let dest = current.add(&Vec3(0, 0, 1));
        if state.state.lookup(&dest).is_none() {
            return blocking_from(state, dest, goal);
        }
    }
    if d.0 < 0 {
        let dest = current.add(&Vec3(-1i32, 0, 0));
        if state.state.lookup(&dest).is_none() {
            return blocking_from(state, dest, goal);
        }
    }
    if d.2 < 0 {
        let dest = current.add(&Vec3(0, 0, -1i32));
        if state.state.lookup(&dest).is_none() {
            return blocking_from(state, dest, goal);
        }
    }
    if d.1 > 0 {
        let dest = current.add(&Vec3(0, 1, 0));
        if state.state.lookup(&dest).is_none() {
            return blocking_from(state, dest, goal);
        }
    }
    if d.1 < 0 {
        let dest = current.add(&Vec3(0, -1i32, 0));
        if state.state.lookup(&dest).is_none() {
            return blocking_from(state, dest, goal);
        }
    }
    1
}

/// The blocking penalty from a node toward a goal node.
pub fn blocking_path(state: &WorldState, start: &Node, end: &Node) -> (r: u64)
    requires
        state.wf(),
        coord_bounded(start.loc, 4),
        coord_bounded(end.loc, 3),
    ensures
        r == spec_blocking(state.state@, start.loc, end.loc),
        r <= 1,
{
    blocking_from(state, start.loc, end.loc)
}

/// The cost assigned to one successor: a memoized node costs one step plus
/// its remembered residual; a fresh node costs one step plus the distance
/// heuristic plus the blocking penalty.
pub open spec fn spec_cost(h: Map<Node, u64>, m: Map<Vec3, Block>, n: Node, goal: Node) -> u64 {
    if h.contains_key(n) {
        if h[n] == u64::MAX {
            u64::MAX
        } else {
            (h[n] + 1) as u64
        }
    } else {
        (1 + spec_dist_heuristic(m, n, goal, false, 0) + spec_blocking(m, n.loc, goal.loc)) as u64
    }
}

/// The cost vector of a node's six successors.
pub open spec fn spec_costs(h: Map<Node, u64>, m: Map<Vec3, Block>, cur: Node, goal: Node) -> Seq<u64> {
    Seq::new(6, |i: int| spec_cost(h, m, spec_neighbors(cur)[i].0, goal))
}

/// The minimum of a nonempty cost sequence.
pub open spec fn seq_min(s: Seq<u64>) -> u64
    decreases s.len(),
{
    if s.len() <= 1 {
        s[0]
    } else {
        let m = seq_min(s.drop_last());
        if s.last() < m {
            s.last()
        } else {
            m
        }
    }
}

/// How many entries equal `v`.
pub open spec fn count_eq(s: Seq<u64>, v: u64) -> nat
    decreases s.len(),
{
    if s.len() == 0 {
        0
    } else {
        count_eq(s.drop_last(), v) + if s.last() == v { 1nat } else { 0nat }
    }
}

/// The minimum among entries strictly above `v`, if any.
pub open spec fn min_above(s: Seq<u64>, v: u64) -> Option<u64>
    decreases s.len(),
{
    if s.len() == 0 {
        None
    } else {
        let rest = min_above(s.drop_last(), v);
        if s.last() > v {
            match rest {
                None => Some(s.last()),
                Some(x) => Some(if s.last() < x { s.last() } else { x }),
            }
        } else {
            rest
        }
    }
}

/// The second-cheapest distinct cost: the shared minimum when it is not
/// unique, else the cheapest cost above it, else the minimum itself. This
/// is the value the search memoizes against the node it leaves.
pub open spec fn spec_second(s: Seq<u64>) -> u64 {
    let m = seq_min(s);
    if count_eq(s, m) > 1 {
        m
    } else {
        match min_above(s, m) {
            Some(x) => x,
            None => m,
        }
    }
}

/// The successor the search commits to: among the minimum-cost successors,
/// the first translational move if any ties, else the first turn.
pub open spec fn spec_select(s: Seq<u64>) -> int {
    let m = seq_min(s);
    if s[2] == m {
        2
    } else if s[3] == m {
        3
    } else if s[4] == m {
        4
    } else if s[5] == m {
        5
    } else if s[0] == m {
        0
    } else {
        1
    }
}

/// Exec minimum of a nonempty cost vector.
fn vec_min(costs: &Vec<u64>) -> (r: u64)
    requires
        costs@.len() > 0,
    ensures
        r == seq_min(costs@),
    {
    let mut m = costs[0];
    let mut i: usize = 1;
    while i < costs.len()
        invariant
            1 <= i <= costs@.len(),
            m == seq_min(costs@.subrange(0, i as int)),
        decreases costs@.len() - i,
    {
        proof {
            assert(costs@.subrange(0, i + 1).drop_last() =~= costs@.subrange(0, i as int));
        }
        if costs[i] < m {
            m = costs[i];
        }
        i = i + 1;
    }
    proof {
        assert(costs@.subrange(0, costs@.len() as int) =~= costs@);
    }
    m
}

/// The pathfinder: the memo, the fixed goal pose, and the action chosen by
/// the last planning cycle.
pub struct RTAStar {
    h: NodeMap,
    goal: Node,
    next: Option<TurtleAction>,
}

impl RTAStar {
    /// The memoized heuristic values.
    pub closed spec fn memo(self) -> Map<Node, u64> {
        self.h@
    }

    /// The goal pose.
    pub closed spec fn spec_goal(self) -> Node {
        self.goal
    }

    /// The action chosen by the last planning cycle, if one has run.
    pub closed spec fn pending(self) -> Option<TurtleAction> {
        self.next
    }

    /// The memo is sound and the goal is a bounded, horizontal pose.
    pub closed spec fn wf(self) -> bool {
        self.h.wf() && coord_bounded(self.goal.loc, 3) && is_horizontal(self.goal.dir)
    }

    /// A pathfinder for a goal pose, with an empty memo and no plan yet.
    pub fn new(goal_loc: Vec3, goal_dir: AxisDirection) -> (r: Self)
        requires
            coord_bounded(goal_loc, 3),
            is_horizontal(goal_dir),
        ensures
            r.wf(),
            r.memo() == Map::<Node, u64>::empty(),
            r.spec_goal() == (Node { loc: goal_loc, dir: goal_dir }),
            r.pending() is None,
    {
        RTAStar {
            h: NodeMap::new(),
            goal: Node { loc: goal_loc, dir: goal_dir },
            next: None,
        }
    }

    /// One planning cycle, per the specs above: `Stop` at the goal pose;
    /// otherwise commit to the selected successor and memoize the
    /// second-cheapest distinct cost against the node being left.
    fn next_node(&mut self, state: &TurtleState) -> (r: TurtleAction)
        requires
            old(self).wf(),
            state.wf(),
            (state.location@.loc_absolute is Some),
        ensures
            final(self).wf(),
            final(self).spec_goal() == old(self).spec_goal(),
            final(self).pending() == old(self).pending(),
            ({
                let cur = Node {
                    loc: state.location@.loc_absolute.unwrap(),
                    dir: state.location@.direction_absolute,
                };
                if cur == old(self).spec_goal() {
                    r == TurtleAction::Stop && final(self).memo() == old(self).memo()
                } else {
                    let costs = spec_costs(old(self).memo(), state.world.state@, cur, old(self).spec_goal());
                    &&& r == spec_neighbors(cur)[spec_select(costs)].1
                    &&& final(self).memo() == old(self).memo().insert(cur, spec_second(costs))
                }
            }),
    {
        let loc = state.location.loc_absolute.unwrap();
        let dir = state.location.direction_absolute;
        let cur_node = Node { loc, dir };
        if cur_node == self.goal {
            return TurtleAction::Stop;
        }
        proof {
            crate::location_state::lemma_wf_absolute_bounded(state.location@);
        }
        let successors = generate_neighbors(&cur_node);
        let ghost gcosts = spec_costs(self.h@, state.world.state@, cur_node, self.goal);
        let mut costs: Vec<u64> = Vec::new();
        let mut i: usize = 0;
        while i < successors.len()
            invariant
                self.wf(),
                self == old(self),
                state.wf(),
                coord_bounded(cur_node.loc, 3),
                is_horizontal(cur_node.dir),
                successors@ == spec_neighbors(cur_node),
                gcosts == spec_costs(self.h@, state.world.state@, cur_node, self.goal),
                i <= 6,
                successors@.len() == 6,
                costs@.len() == i,
                forall|j: int| 0 <= j < i ==> costs@[j] == gcosts[j],
            decreases successors@.len() - i,
        {
            let node = successors[i];
            proof {
                assert(coord_bounded(node.0.loc, 4));
                assert(is_horizontal(node.0.dir));
            }
            let cost: u64 = match self.h.lookup(&node.0) {
                Some(hval) => {
                    if hval == u64::MAX {
                        u64::MAX
                    } else {
                        hval + 1
                    }
                },
                None => {
                    let dh = dist_heuristic(&state.world, &node.0, &self.goal, false, 0);
                    let bp = blocking_path(&state.world, &node.0, &self.goal);
                    proof {
                        assert(dh <= 0x1_0000_0000);
                        assert(bp <= 1);
                    }
                    1 + dh + bp
                },
            };
            costs.push(cost);
            i = i + 1;
        }
        proof {
            assert(costs@ =~= gcosts);
        }
        let min_cost = vec_min(&costs);
        let index: usize = if costs[2] == min_cost {
            2
        } else if costs[3] == min_cost {
            3
        } else if costs[4] == min_cost {
            4
        } else if costs[5] == min_cost {
            5
        } else if costs[0] == min_cost {
            0
        } else {
            1
        };
        let second_cost = self.get_second_cost(&costs);
        let best = successors[index];
        self.h.insert(cur_node, second_cost);
        best.1
    }

    /// Exec mirror of `spec_second`.
    fn get_second_cost(&self, costs: &Vec<u64>) -> (r: u64)
        requires
            costs@.len() > 0,
        ensures
            r == spec_second(costs@),
    {
        let min_cost = vec_min(costs);
        let mut count: usize = 0;
        let mut above: Option<u64> = None;
        let mut i: usize = 0;
        while i < costs.len()
            invariant
                i <= costs@.len(),
                count == count_eq(costs@.subrange(0, i as int), min_cost),
                count <= i,
                above == min_above(costs@.subrange(0, i as int), min_cost),
            decreases costs@.len() - i,
        {
            proof {
                assert(costs@.subrange(0, i + 1).drop_last() =~= costs@.subrange(0, i as int));
            }
            let c = costs[i];
            if c == min_cost {
                count = count + 1;
            }
            if c > min_cost {
                above = match above {
                    None => Some(c),
                    Some(x) => Some(if c < x { c } else { x }),
                };
            }
            i = i + 1;
        }
        proof {
            assert(costs@.subrange(0, costs@.len() as int) =~= costs@);
        }
        if count > 1 {
            min_cost
        } else {
            match above {
                Some(x) => x,
                None => min_cost,
            }
        }
    }

    /// Run one planning cycle against the freshly updated state and hold
    /// the chosen action for the next `next()` call. Before the absolute
    /// frame is known there is nothing to plan against: the plan is
    /// withdrawn, not guessed.
    pub fn update(&mut self, state: &TurtleState)
        requires
            old(self).wf(),
            state.wf(),
        ensures
            final(self).wf(),
            final(self).spec_goal() == old(self).spec_goal(),
            (state.location@.loc_absolute is None) ==> (final(self).pending() is None)
                && final(self).memo() == old(self).memo(),
            (state.location@.loc_absolute is Some) ==> ({
                let cur = Node {
                    loc: state.location@.loc_absolute.unwrap(),
                    dir: state.location@.direction_absolute,
                };
                &&& final(self).pending() == Some(spec_plan(
                    old(self).memo(), state.world.state@, cur, old(self).spec_goal(),
                ))
                &&& (if cur == old(self).spec_goal() {
                    final(self).memo() == old(self).memo()
                } else {
                    let costs = spec_costs(old(self).memo(), state.world.state@, cur, old(self).spec_goal());
                    final(self).memo() == old(self).memo().insert(cur, spec_second(costs))
                })
            }),
    {
        if state.location.loc_absolute.is_none() {
            self.next = None;
            return;
        }
        let next = self.next_node(state);
        self.next = Some(next);
    }

    /// The action the last planning cycle chose; asking before any cycle
    /// has run is reported.
    pub fn next(&self) -> (r: Result<TurtleAction, TurtleError>)
        ensures
            match self.pending() {
                Some(a) => r == Ok::<TurtleAction, TurtleError>(a),
                None => r == Err::<TurtleAction, TurtleError>(TurtleError::NoInstructions),
            },
    {
        match &self.next {
            Some(a) => Ok(*a),
            None => Err(TurtleError::NoInstructions),
        }
    }
}

/// The action one planning cycle commits to, as a function of the memo,
/// the world map, the current pose and the goal pose.
pub open spec fn spec_plan(h: Map<Node, u64>, m: Map<Vec3, Block>, cur: Node, goal: Node) -> TurtleAction {
    if cur == goal {
        TurtleAction::Stop
    } else {
        spec_neighbors(cur)[spec_select(spec_costs(h, m, cur, goal))].1
    }
}

/// The pathfinder's termination law: at the goal pose, the planning cycle
/// emits `Stop` at once, whatever the memo and the map hold.
pub proof fn lemma_pathfinder_stop(h: Map<Node, u64>, m: Map<Vec3, Block>, goal: Node)
    ensures
        spec_plan(h, m, goal, goal) == TurtleAction::Stop,
{
}

} // verus!
