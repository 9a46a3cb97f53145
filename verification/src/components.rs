use vstd::prelude::*;

verus! {

/// One cell of the play field: 0-based integer coordinates.
#[derive(Clone, Copy, Debug, PartialEq, Eq, Structural)]
pub struct Position {
    pub x: i32,
    pub y: i32,
}

/// The snake's head: it carries the heading the snake is committed to.
#[derive(Clone, Copy, Debug, PartialEq, Eq, Structural)]
pub struct SnakeHead {
    pub direction: Direction,
}

/// The single food item: its cell while one is live, `None` otherwise.
/// Holding it as one optional cell keeps more than one food from ever
/// existing.
#[derive(Clone, Copy, Debug)]
pub struct Food(pub Option<Position>);

/// A heading on the grid.
#[derive(Clone, Copy, Debug, PartialEq, Eq, Structural)]
pub enum Direction {
    Left,
    Up,
    Right,
    Down,
}

/// The mathematical opposite of a heading.
pub open spec fn dir_opposite(d: Direction) -> Direction {
    match d {
        Direction::Left => Direction::Right,
        Direction::Right => Direction::Left,
        Direction::Up => Direction::Down,
        Direction::Down => Direction::Up,
    }
}

impl Direction {
    /// The heading that points the other way; a head may never turn to it
    /// in one step.
    pub fn opposite(&self) -> (r: Self)
        ensures
            r == dir_opposite(*self),
    {
        match self {
            Self::Left => Self::Right,
            Self::Right => Self::Left,
            Self::Up => Self::Down,
            Self::Down => Self::Up,
        }
    }
}

/// The phase of a game: `Playing` until a collision, then `GameOver`,
/// which is terminal.
#[derive(Clone, Copy, Debug, PartialEq, Eq, Hash, Structural)]
pub enum GameState {
    Playing,
    GameOver,
}

impl Default for GameState {
    fn default() -> (r: Self)
        ensures
            r == GameState::Playing,
    {
        GameState::Playing
    }
}

/// How the phase may change over one tick: once the game is over it
/// stays over.
pub open spec fn phase_step_ok(before: GameState, after: GameState) -> bool {
    before == GameState::GameOver ==> after == GameState::GameOver
}

/// Once some tick of a run has ended the game, every later tick of the
/// run leaves it ended: the phase never goes back to `Playing`.
pub proof fn lemma_game_over_terminal(ph: Seq<GameState>, i: int, j: int)
    requires
        forall|k: int| 0 <= k < ph.len() - 1 ==> phase_step_ok(#[trigger] ph[k], ph[k + 1]),
        0 <= i <= j < ph.len(),
        ph[i] == GameState::GameOver,
    ensures
        ph[j] == GameState::GameOver,
    decreases j - i,
{
    if i < j {
        assert(phase_step_ok(ph[i], ph[i + 1]));
        lemma_game_over_terminal(ph, i + 1, j);
    }
}

/// Over any run of ticks, the phase moves from `Playing` to `GameOver`
/// at most once: two ticks that each end the game are the same tick.
pub proof fn lemma_game_over_once(ph: Seq<GameState>, k1: int, k2: int)
    requires
        forall|k: int| 0 <= k < ph.len() - 1 ==> phase_step_ok(#[trigger] ph[k], ph[k + 1]),
        0 <= k1 < ph.len() - 1,
        0 <= k2 < ph.len() - 1,
        ph[k1] == GameState::Playing && ph[k1 + 1] == GameState::GameOver,
        ph[k2] == GameState::Playing && ph[k2 + 1] == GameState::GameOver,
    ensures
        k1 == k2,
{
    if k1 < k2 {
        lemma_game_over_terminal(ph, k1 + 1, k2);
    } else if k2 < k1 {
        lemma_game_over_terminal(ph, k2 + 1, k1);
    }
}

} // verus!
