use vstd::prelude::*;
use rand::Rng;
use crate::components::{dir_opposite, phase_step_ok, Direction, Food, GameState, SnakeHead};
use crate::resources::{GridSize, LastTailPosition, Score, SnakeSegments};
use crate::components::Position;
use std::collections::VecDeque;

verus! {

/// Horizontal offset of one step along a heading.
pub open spec fn dir_dx(d: Direction) -> int {
    match d {
        Direction::Left => -1,
        Direction::Right => 1,
        Direction::Up => 0,
        Direction::Down => 0,
    }
}

/// Vertical offset of one step along a heading.
pub open spec fn dir_dy(d: Direction) -> int {
    match d {
        Direction::Left => 0,
        Direction::Right => 0,
        Direction::Up => 1,
        Direction::Down => -1,
    }
}

/// x coordinate one cell ahead of `p` along `d`.
pub open spec fn next_x(p: Position, d: Direction) -> int {
    p.x + dir_dx(d)
}

/// y coordinate one cell ahead of `p` along `d`.
pub open spec fn next_y(p: Position, d: Direction) -> int {
    p.y + dir_dy(d)
}

/// Whether `(x, y)` lies on the play field.
pub open spec fn in_grid(x: int, y: int, g: GridSize) -> bool {
    0 <= x < g.x && 0 <= y < g.y
}

/// Whether some cell of `s` is `(x, y)`.
pub open spec fn occupies(s: Seq<Position>, x: int, y: int) -> bool {
    exists|i: int| 0 <= i < s.len() && s[i].x == x && s[i].y == y
}

/// Whether the cells of `s` are pairwise distinct.
pub open spec fn distinct_positions(s: Seq<Position>) -> bool {
    forall|i: int, j: int| 0 <= i < j < s.len() ==> s[i] != s[j]
}

/// A well-sized play field: non-empty in both axes and addressable with
/// signed 32-bit coordinates.
pub open spec fn grid_wf(g: GridSize) -> bool {
    0 < g.x <= 0x7fff_ffff && 0 < g.y <= 0x7fff_ffff
}

/// The heading the pressed keys ask for, before the reversal rule:
/// left wins over right, right over down, down over up; with no key
/// pressed the current heading stands.
pub open spec fn resolve_direction(
    left: bool,
    right: bool,
    down: bool,
    up: bool,
    current: Direction,
) -> Direction {
    if left {
        Direction::Left
    } else if right {
        Direction::Right
    } else if down {
        Direction::Down
    } else if up {
        Direction::Up
    } else {
        current
    }
}

/// The heading the head ends up with: the asked-for heading, unless it
/// is the exact opposite of the current one, which is refused.
pub open spec fn apply_input(
    left: bool,
    right: bool,
    down: bool,
    up: bool,
    current: Direction,
) -> Direction {
    let candidate = resolve_direction(left, right, down, up, current);
    if candidate == dir_opposite(current) {
        current
    } else {
        candidate
    }
}

/// Reads the tick's directional key state and commits a new heading to
/// the head, refusing an instant reversal.  Frozen once the game is
/// over.  The head never ends up headed exactly opposite to where it
/// was headed before the call.
pub fn snake_movement_input(
    left: bool,
    right: bool,
    down: bool,
    up: bool,
    head: &mut SnakeHead,
    phase: &GameState,
)
    ensures
        *phase == GameState::Playing ==> final(head).direction == apply_input(
            left,
            right,
            down,
            up,
            old(head).direction,
        ),
        *phase == GameState::GameOver ==> *final(head) == *old(head),
        final(head).direction != dir_opposite(old(head).direction),
{
    if *phase == GameState::GameOver {
        return;
    }
    let dir: Direction = if left {
        Direction::Left
    } else if right {
        Direction::Right
    } else if down {
        Direction::Down
    } else if up {
        Direction::Up
    } else {
        head.direction
    };

    if dir != head.direction.opposite() {
        head.direction = dir;
    }
}

/// Whether one movement step from the snake laid out as `s`, headed
/// along `d`, ends the game: the cell one ahead of the head either is
/// held by some body part (the pre-move snapshot, the tail included)
/// or lies off the play field `g`.
pub open spec fn movement_collides(s: Seq<Position>, d: Direction, g: GridSize) -> bool {
    occupies(s, next_x(s[0], d), next_y(s[0], d)) || !in_grid(next_x(s[0], d), next_y(s[0], d), g)
}

/// Whether some body cell of the snake is `(x, y)`.
pub fn contains_cell(segments: &SnakeSegments, x: i32, y: i32) -> (r: bool)
    ensures
        r == occupies(segments.0@, x as int, y as int),
{
    let len: usize = segments.0.len();
    let mut i: usize = 0;
    let mut found = false;
    while i < len
        invariant
            i <= len,
            len == segments.0@.len(),
            found == occupies(segments.0@.subrange(0, i as int), x as int, y as int),
        decreases len - i,
    {
        let p: Position = segments.0[i];
        proof {
            assert(segments.0@.subrange(0, i + 1) == segments.0@.subrange(0, i as int).push(
                segments.0@[i as int],
            ));
            assert(forall|k: int|
                0 <= k < i + 1 ==> segments.0@.subrange(0, i + 1)[k] == segments.0@[k]);
        }
        if p.x == x && p.y == y {
            found = true;
            proof {
                assert(segments.0@.subrange(0, i + 1)[i as int] == p);
            }
        } else {
            proof {
                if occupies(segments.0@.subrange(0, i + 1), x as int, y as int) {
                    let k = choose|k: int|
                        0 <= k < i + 1 && (#[trigger] segments.0@.subrange(0, i + 1)[k]).x == x
                            && segments.0@.subrange(0, i + 1)[k].y == y;
                    if k == i {
                        assert(false);
                    } else {
                        assert(segments.0@.subrange(0, i as int)[k] == segments.0@[k]);
                    }
                }
            }
        }
        i += 1;
    }
    proof {
        assert(segments.0@.subrange(0, len as int) == segments.0@);
    }
    found
}

/// Advances the snake by one cell along the head's heading, detecting
/// self and wall collisions against the pre-move snapshot.  On a
/// collision the game ends and nothing moves; otherwise the head takes
/// the new cell, every other part takes the cell of the part ahead of
/// it, and the vacated tail cell is cached for growth.  Frozen once the
/// game is over, and a snake laid out on distinct cells stays on
/// distinct cells.
pub fn snake_movement(
    grid: &GridSize,
    head: &SnakeHead,
    segments: &mut SnakeSegments,
    last_tail: &mut LastTailPosition,
    phase: &mut GameState,
)
    requires
        grid_wf(*grid),
        old(segments).0@.len() > 0,
        in_grid(old(segments).0@[0].x as int, old(segments).0@[0].y as int, *grid),
    ensures
        phase_step_ok(*old(phase), *final(phase)),
        *old(phase) == GameState::GameOver ==> *final(phase) == GameState::GameOver
            && final(segments).0@ == old(segments).0@ && *final(last_tail) == *old(last_tail),
        *old(phase) == GameState::Playing && movement_collides(
            old(segments).0@,
            head.direction,
            *grid,
        ) ==> *final(phase) == GameState::GameOver && final(segments).0@ == old(segments).0@
            && *final(last_tail) == *old(last_tail),
        *old(phase) == GameState::Playing && !movement_collides(
            old(segments).0@,
            head.direction,
            *grid,
        ) ==> {
            let s = old(segments).0@;
            &&& *final(phase) == GameState::Playing
            &&& final(segments).0@.len() == s.len()
            &&& final(segments).0@[0].x as int == next_x(s[0], head.direction)
            &&& final(segments).0@[0].y as int == next_y(s[0], head.direction)
            &&& forall|i: int| 1 <= i < s.len() ==> final(segments).0@[i] == s[i - 1]
            &&& in_grid(
                final(segments).0@[0].x as int,
                final(segments).0@[0].y as int,
                *grid,
            )
            &&& s.len() >= 2 ==> *final(last_tail) == (LastTailPosition(
                Some(s[s.len() - 1]),
            ))
            &&& s.len() == 1 ==> *final(last_tail) == *old(last_tail)
            &&& distinct_positions(s) ==> distinct_positions(final(segments).0@)
        },
{
    if *phase == GameState::GameOver {
        return;
    }

    let head_pos: Position = segments.0[0];

    let new_head_pos = match head.direction {
        Direction::Left => Position { x: head_pos.x - 1, y: head_pos.y },
        Direction::Right => Position { x: head_pos.x + 1, y: head_pos.y },
        Direction::Up => Position { x: head_pos.x, y: head_pos.y + 1 },
        Direction::Down => Position { x: head_pos.x, y: head_pos.y - 1 },
    };

    // Self-collision: the new head cell against the pre-move snapshot.
    if contains_cell(segments, new_head_pos.x, new_head_pos.y) {
        *phase = GameState::GameOver;
        return;
    }

    // Wall collision: the new head cell against the play field bounds.
    if new_head_pos.x < 0 || new_head_pos.x >= grid.x as i32 || new_head_pos.y < 0
        || new_head_pos.y >= grid.y as i32 {
        *phase = GameState::GameOver;
        return;
    }

    let ghost s = segments.0@;

    // Commit: cache the vacated tail cell, then shift the chain.
    let len: usize = segments.0.len();
    if len >= 2 {
        let tail: Position = segments.0[len - 1];
        last_tail.0 = Some(tail);
    }
    segments.0.pop_back();
    segments.0.push_front(new_head_pos);

    proof {
        assert(segments.0@ == seq![new_head_pos] + s.subrange(0, s.len() - 1));
        assert forall|i: int| 1 <= i < s.len() implies segments.0@[i] == s[i - 1] by {
            assert(segments.0@[i] == s.subrange(0, s.len() - 1)[i - 1]);
        }
        if distinct_positions(s) {
            assert forall|i: int, j: int| 0 <= i < j < segments.0@.len() implies segments.0@[i]
                != segments.0@[j] by {
                if i == 0 {
                    assert(segments.0@[j] == s[j - 1]);
                    if segments.0@[0] == s[j - 1] {
                        assert(s[j - 1].x as int == next_x(s[0], head.direction));
                        assert(s[j - 1].y as int == next_y(s[0], head.direction));
                        assert(occupies(s, next_x(s[0], head.direction), next_y(
                            s[0],
                            head.direction,
                        )));
                    }
                } else {
                    assert(segments.0@[i] == s[i - 1]);
                    assert(segments.0@[j] == s[j - 1]);
                }
            }
        }
    }
}

/// How many food items a food state holds: one while a cell is set,
/// none otherwise.  It can never exceed one.
pub open spec fn spec_food_count(f: Food) -> nat {
    if f.0 is Some {
        1nat
    } else {
        0nat
    }
}

/// Relies on rand's `Rng::gen_range` on the thread-local generator: a
/// sample from `0..bound` lies in `[0, bound)`; the range must not be
/// empty.
#[verifier::external_body]
fn random_coord(bound: i32) -> (r: i32)
    requires
        bound > 0,
    ensures
        0 <= r < bound,
{
    rand::thread_rng().gen_range(0..bound)
}

/// How often the spawner resamples a random cell before it falls back
/// to scanning for a free cell directly, so that it terminates even on
/// a crowded play field.
pub const FOOD_RESAMPLE_TRIES: u32 = 1000;

/// The first unoccupied cell of the play field in column-major scan
/// order, or `None` when every cell is held by a snake part.
fn free_cell_scan(grid: &GridSize, segments: &SnakeSegments) -> (r: Option<Position>)
    requires
        grid_wf(*grid),
    ensures
        r matches Some(p) ==> in_grid(p.x as int, p.y as int, *grid) && !occupies(
            segments.0@,
            p.x as int,
            p.y as int,
        ),
        r is None ==> forall|a: int, b: int|
            in_grid(a, b, *grid) ==> occupies(segments.0@, a, b),
{
    let gx: i32 = grid.x as i32;
    let gy: i32 = grid.y as i32;
    let mut x: i32 = 0;
    while x < gx
        invariant
            0 <= x <= gx,
            gx == grid.x as int,
            gy == grid.y as int,
            grid_wf(*grid),
            forall|a: int, b: int|
                0 <= a < x && 0 <= b < gy ==> occupies(segments.0@, a, b),
        decreases gx - x,
    {
        let mut y: i32 = 0;
        while y < gy
            invariant
                0 <= x < gx,
                0 <= y <= gy,
                gx == grid.x as int,
                gy == grid.y as int,
                grid_wf(*grid),
                forall|a: int, b: int|
                    0 <= a < x && 0 <= b < gy ==> occupies(segments.0@, a, b),
                forall|b: int| 0 <= b < y ==> occupies(segments.0@, x as int, b),
            decreases gy - y,
        {
            if !contains_cell(segments, x, y) {
                return Some(Position { x, y });
            }
            y += 1;
        }
        x += 1;
    }
    None
}

/// Places one food item on a uniformly drawn cell that no snake part
/// holds, resampling when an occupied cell comes up; after too many
/// occupied samples it takes the first free cell directly, and only a
/// fully occupied play field leaves it without food.  A no-op while a
/// food item is live, and frozen once the game is over; never more
/// than one food item exists afterwards.
pub fn food_spawning(grid: &GridSize, segments: &SnakeSegments, food: &mut Food, phase: &GameState)
    requires
        grid_wf(*grid),
    ensures
        spec_food_count(*final(food)) <= 1,
        *phase == GameState::GameOver ==> final(food).0 == old(food).0,
        *phase == GameState::Playing && old(food).0 is Some ==> final(food).0 == old(food).0,
        *phase == GameState::Playing && old(food).0 is None ==> (final(food).0 matches Some(p)
            && in_grid(p.x as int, p.y as int, *grid) && !occupies(
            segments.0@,
            p.x as int,
            p.y as int,
        )) || (final(food).0 is None && forall|a: int, b: int|
            in_grid(a, b, *grid) ==> occupies(segments.0@, a, b)),
{
    if *phase == GameState::GameOver {
        return;
    }
    if food.0.is_none() {
        let gx: i32 = grid.x as i32;
        let gy: i32 = grid.y as i32;
        let mut x: i32 = random_coord(gx);
        let mut y: i32 = random_coord(gy);
        let mut occupied: bool = contains_cell(segments, x, y);
        let mut tries: u32 = 0;
        while occupied && tries < FOOD_RESAMPLE_TRIES
            invariant
                0 <= x < gx,
                0 <= y < gy,
                gx == grid.x as int,
                gy == grid.y as int,
                grid_wf(*grid),
                tries <= FOOD_RESAMPLE_TRIES,
                occupied == occupies(segments.0@, x as int, y as int),
            decreases FOOD_RESAMPLE_TRIES - tries,
        {
            x = random_coord(gx);
            y = random_coord(gy);
            occupied = contains_cell(segments, x, y);
            tries += 1;
        }
        if occupied {
            // The play field is crowded: take a free cell directly.
            food.0 = free_cell_scan(grid, segments);
        } else {
            food.0 = Some(Position { x, y });
        }
    }
}

/// Collects a food item the head has reached: the food disappears, the
/// score rises by exactly one, and, when a vacated tail cell is cached,
/// a new segment is appended there at the tail end.  With no cached
/// cell yet, growth is skipped.  A no-op when no food sits on the
/// head's cell, and frozen once the game is over; never more than one
/// food item exists afterwards.
pub fn food_collection(
    head_pos: &Position,
    segments: &mut SnakeSegments,
    score: &mut Score,
    food: &mut Food,
    last_tail: &LastTailPosition,
    phase: &GameState,
)
    requires
        *phase == GameState::Playing && old(food).0 == Some(*head_pos) ==> old(score).value
            < u32::MAX,
    ensures
        spec_food_count(*final(food)) <= 1,
        *phase == GameState::GameOver ==> final(food).0 == old(food).0 && *final(score) == *old(
            score,
        ) && final(segments).0@ == old(segments).0@,
        *phase == GameState::Playing && old(food).0 != Some(*head_pos) ==> final(food).0 == old(
            food,
        ).0 && *final(score) == *old(score) && final(segments).0@ == old(segments).0@,
        *phase == GameState::Playing && old(food).0 == Some(*head_pos) ==> {
            &&& final(food).0 is None
            &&& final(score).value == old(score).value + 1
            &&& (last_tail.0 matches Some(lt) ==> final(segments).0@ == old(segments).0@.push(lt))
            &&& (last_tail.0 is None ==> final(segments).0@ == old(segments).0@)
        },
{
    if *phase == GameState::GameOver {
        return;
    }
    let collected: bool = match food.0 {
        Some(p) => p.x == head_pos.x && p.y == head_pos.y,
        None => false,
    };
    if collected {
        food.0 = None;
        score.value = score.value + 1;
        match last_tail.0 {
            Some(lt) => segments.0.push_back(lt),
            None => {},
        }
    }
}

/// Lays out the starting snake: the head on cell (3, 3) headed up, one
/// segment behind it on (3, 2).
pub fn spawn_snake(segments: &mut SnakeSegments) -> (head: SnakeHead)
    ensures
        final(segments).0@.len() == 2,
        final(segments).0@[0] == (Position { x: 3, y: 3 }),
        final(segments).0@[1] == (Position { x: 3, y: 2 }),
        head.direction == Direction::Up,
        distinct_positions(final(segments).0@),
{
    segments.0 = VecDeque::new();
    segments.0.push_front(Position { x: 3, y: 3 });
    segments.0.push_back(Position { x: 3, y: 2 });
    SnakeHead { direction: Direction::Up }
}

/// The cell one step ahead of the head of `s` along `d`.  Meaningful
/// when the step stays on a well-sized play field, so that the
/// coordinates fit their machine type.
pub open spec fn stepped_head(s: Seq<Position>, d: Direction) -> Position {
    Position { x: next_x(s[0], d) as i32, y: next_y(s[0], d) as i32 }
}

/// A simulation state that is well formed at a tick boundary: the
/// snake has its head and at least one further segment, the head lies
/// on the play field, no two body parts share a cell, and a live food
/// item sits on a cell no body part holds.
pub open spec fn sim_wf(grid: GridSize, segments: Seq<Position>, food: Food) -> bool {
    &&& segments.len() >= 2
    &&& in_grid(segments[0].x as int, segments[0].y as int, grid)
    &&& distinct_positions(segments)
    &&& (food.0 matches Some(p) ==> !occupies(segments, p.x as int, p.y as int))
}

/// What one spawner firing may leave behind: an untouched state while
/// food lives or the countdown has not fired, else a food item on some
/// free cell of `s`, or nothing only when `s` fills the play field.
pub open spec fn spawn_outcome(
    grid: GridSize,
    s: Seq<Position>,
    before: Food,
    fired: bool,
    after: Food,
) -> bool {
    if !fired || before.0 is Some {
        after.0 == before.0
    } else {
        (after.0 matches Some(p) && in_grid(p.x as int, p.y as int, grid) && !occupies(
            s,
            p.x as int,
            p.y as int,
        )) || (after.0 is None && forall|a: int, b: int|
            in_grid(a, b, grid) ==> occupies(s, a, b))
    }
}

/// One full simulation tick in the scheduler's order: the input
/// resolver, then a movement step when its countdown fired, then a
/// spawner firing when its countdown fired, then growth/collection.
/// A well-formed state stays well formed, the snake never shrinks, the
/// score rises by exactly one per collected food and never falls, and
/// an ended game stays ended with the whole state frozen.
pub fn tick(
    grid: &GridSize,
    move_fired: bool,
    spawn_fired: bool,
    left: bool,
    right: bool,
    down: bool,
    up: bool,
    head: &mut SnakeHead,
    segments: &mut SnakeSegments,
    last_tail: &mut LastTailPosition,
    food: &mut Food,
    score: &mut Score,
    phase: &mut GameState,
)
    requires
        grid_wf(*grid),
        sim_wf(*grid, old(segments).0@, *old(food)),
        old(score).value < u32::MAX,
    ensures
        phase_step_ok(*old(phase), *final(phase)),
        sim_wf(*grid, final(segments).0@, *final(food)),
        final(segments).0@.len() >= old(segments).0@.len(),
        old(score).value <= final(score).value <= old(score).value + 1,
        spec_food_count(*final(food)) <= 1,
        *old(phase) == GameState::GameOver ==> *final(head) == *old(head) && final(segments).0@
            == old(segments).0@ && *final(last_tail) == *old(last_tail) && final(food).0 == old(
            food,
        ).0 && *final(score) == *old(score) && *final(phase) == GameState::GameOver,
        *old(phase) == GameState::Playing ==> {
            let d1 = apply_input(left, right, down, up, old(head).direction);
            let s = old(segments).0@;
            let collected = old(food).0 matches Some(p) && p == stepped_head(s, d1);
            &&& final(head).direction == d1
            &&& (!move_fired ==> *final(phase) == GameState::Playing && final(segments).0@ == s
                && *final(last_tail) == *old(last_tail) && *final(score) == *old(score)
                && spawn_outcome(*grid, s, *old(food), spawn_fired, *final(food)))
            &&& (move_fired && movement_collides(s, d1, *grid) ==> *final(phase)
                == GameState::GameOver && final(segments).0@ == s && *final(last_tail) == *old(
                last_tail,
            ) && *final(score) == *old(score) && final(food).0 == old(food).0)
            &&& (move_fired && !movement_collides(s, d1, *grid) ==> {
                &&& *final(phase) == GameState::Playing
                &&& final(segments).0@[0] == stepped_head(s, d1)
                &&& forall|i: int| 1 <= i < s.len() ==> final(segments).0@[i] == s[i - 1]
                &&& *final(last_tail) == (LastTailPosition(Some(s[s.len() - 1])))
                &&& (collected ==> final(segments).0@.len() == s.len() + 1
                    && final(segments).0@[s.len() as int] == s[s.len() - 1]
                    && final(score).value == old(score).value + 1 && final(food).0 is None)
                &&& (!collected ==> final(segments).0@.len() == s.len() && *final(score) == *old(
                    score,
                ) && spawn_outcome(
                    *grid,
                    seq![stepped_head(s, d1)] + s.subrange(0, s.len() - 1),
                    *old(food),
                    spawn_fired,
                    *final(food),
                ))
            })
        },
{
    let ghost s = old(segments).0@;
    let ph0: GameState = *phase;
    snake_movement_input(left, right, down, up, head, &ph0);
    let ghost d1 = head.direction;
    if move_fired {
        snake_movement(grid, head, segments, last_tail, phase);
    }
    let ghost s_mid = segments.0@;
    proof {
        // After a committed move the chain is exactly the stepped head
        // followed by every cell but the old tail's.
        if *old(phase) == GameState::Playing && move_fired && !movement_collides(s, d1, *grid) {
            let moved = seq![stepped_head(s, d1)] + s.subrange(0, s.len() - 1);
            assert(s_mid.len() == moved.len());
            assert(s_mid[0].x == stepped_head(s, d1).x && s_mid[0].y == stepped_head(s, d1).y);
            assert forall|i: int| 0 <= i < s_mid.len() implies s_mid[i] == moved[i] by {
                if i >= 1 {
                    assert(moved[i] == s.subrange(0, s.len() - 1)[i - 1]);
                }
            }
            assert(s_mid =~= moved);
        }
    }
    let ph1: GameState = *phase;
    if spawn_fired {
        food_spawning(grid, segments, food, &ph1);
    }
    let head_cell: Position = segments.0[0];
    let ph2: GameState = *phase;
    food_collection(&head_cell, segments, score, food, last_tail, &ph2);
}

/// One movement step changes the head's cell by exactly one unit along
/// exactly one axis, the one its heading names.
pub proof fn lemma_step_unit(p: Position, d: Direction)
    ensures
        d == Direction::Left ==> next_x(p, d) == p.x - 1 && next_y(p, d) == p.y,
        d == Direction::Right ==> next_x(p, d) == p.x + 1 && next_y(p, d) == p.y,
        d == Direction::Up ==> next_x(p, d) == p.x && next_y(p, d) == p.y + 1,
        d == Direction::Down ==> next_x(p, d) == p.x && next_y(p, d) == p.y - 1,
        (next_x(p, d) != p.x && next_y(p, d) == p.y) || (next_x(p, d) == p.x && next_y(p, d)
            != p.y),
{
}

} // verus!
