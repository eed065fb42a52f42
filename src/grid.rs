use vstd::prelude::*;

use crate::color::Color;
use crate::player::Player;

verus! {

/// Number of columns of the board.
pub const GRID_WIDTH: usize = 5;

/// Number of rows of the board.
pub const GRID_HEIGHT: usize = 7;

/// What one cell of the board holds.
#[derive(Clone, Copy, Debug, PartialEq, Eq, Structural)]
pub enum Cell {
    /// The marker of a player: the cell the opponent must reach to win.
    Player(Player),
    /// A cell that holds nothing.
    Uncolored,
    /// A segment of a snake of this player and color.
    Colored(Player, Color),
}

/// Why a move is refused. A refused move leaves the board as it was.
#[derive(Clone, Copy, Debug, PartialEq, Eq, Structural)]
pub enum RuleViolation {
    /// The player aimed at their own marker.
    OwnInvocatorTargeted,
    /// The player has a snake of this color and the cell does not extend its head.
    DoesNotGrowSnake,
    /// The player has no snake of this color and the cell is off their own edge row.
    MustStartOnInvocationLine,
    /// The targeted segment's color is not beaten by the player's color.
    ColorTooWeak,
}

/// The board: `GRID_HEIGHT` rows of `GRID_WIDTH` cells, stored row by row.
#[derive(Debug)]
pub struct Grid {
    cells: Vec<Cell>,
}

// ---------------------------------------------------------------------------
// The model of the board: a sequence of cells, row by row.
// ---------------------------------------------------------------------------

/// Whether (x, y) lies on the board.
pub open spec fn in_bounds(x: int, y: int) -> bool {
    0 <= x < GRID_WIDTH && 0 <= y < GRID_HEIGHT
}

/// The cell at column `x` and row `y` of a board.
pub open spec fn cell_at(b: Seq<Cell>, x: int, y: int) -> Cell {
    b[y * GRID_WIDTH + x]
}

/// The edge row on which a player starts new snakes.
pub open spec fn invocation_row(p: Player) -> int {
    match p {
        Player::Top => 0,
        Player::Bottom => GRID_HEIGHT - 1,
    }
}

/// How many rows row `y` lies away from the player's own edge row.
pub open spec fn progress(p: Player, y: int) -> int {
    match p {
        Player::Top => y,
        Player::Bottom => GRID_HEIGHT - 1 - y,
    }
}

/// How many rows a snake of `p` can still grow beyond row `y`.
pub open spec fn rows_left(p: Player, y: int) -> int {
    GRID_HEIGHT - 1 - progress(p, y)
}

/// The segment that follows (x, y) in a snake of player `p` and color `c`:
/// on the next row in `p`'s direction, the first of columns x - 1, x, x + 1
/// (those on the board) that holds `Colored(p, c)`.
pub open spec fn next_segment(b: Seq<Cell>, p: Player, c: Color, x: int, y: int) -> Option<(int, int)> {
    let ny = y + p.direction();
    if !(0 <= ny < GRID_HEIGHT) {
        None
    } else if x > 0 && cell_at(b, x - 1, ny) == Cell::Colored(p, c) {
        Some((x - 1, ny))
    } else if cell_at(b, x, ny) == Cell::Colored(p, c) {
        Some((x, ny))
    } else if x + 1 < GRID_WIDTH && cell_at(b, x + 1, ny) == Cell::Colored(p, c) {
        Some((x + 1, ny))
    } else {
        None
    }
}

/// The last segment reached by following the snake from (x, y).
pub open spec fn head_from(b: Seq<Cell>, p: Player, c: Color, x: int, y: int) -> (int, int)
    decreases rows_left(p, y),
{
    if in_bounds(x, y) {
        match next_segment(b, p, c, x, y) {
            Some(n) => head_from(b, p, c, n.0, n.1),
            None => (x, y),
        }
    } else {
        (x, y)
    }
}

/// Whether (tx, ty) is (x, y) or one of the segments that follow it.
pub open spec fn on_trail(b: Seq<Cell>, p: Player, c: Color, x: int, y: int, tx: int, ty: int) -> bool
    decreases rows_left(p, y),
{
    if tx == x && ty == y {
        true
    } else if in_bounds(x, y) {
        match next_segment(b, p, c, x, y) {
            Some(n) => on_trail(b, p, c, n.0, n.1, tx, ty),
            None => false,
        }
    } else {
        false
    }
}

/// The head of the snake of player `p` and color `c`, if they have one: the
/// snake starts at the first of columns 0, 1, 3, 4 of `p`'s edge row that
/// holds `Colored(p, c)`.
pub open spec fn snake_head(b: Seq<Cell>, p: Player, c: Color) -> Option<(int, int)> {
    let r = invocation_row(p);
    if cell_at(b, 0, r) == Cell::Colored(p, c) {
        Some(head_from(b, p, c, 0, r))
    } else if cell_at(b, 1, r) == Cell::Colored(p, c) {
        Some(head_from(b, p, c, 1, r))
    } else if cell_at(b, 3, r) == Cell::Colored(p, c) {
        Some(head_from(b, p, c, 3, r))
    } else if cell_at(b, 4, r) == Cell::Colored(p, c) {
        Some(head_from(b, p, c, 4, r))
    } else {
        None
    }
}

/// Whether (nx, ny) extends a head at (hx, hy): one row on in `p`'s
/// direction, at most one column aside.
pub open spec fn grows(p: Player, hx: int, hy: int, nx: int, ny: int) -> bool {
    ny - hy == p.direction() && -1 <= nx - hx <= 1
}

/// Where the player may put color `c`: next to the head of their snake of
/// that color, or anywhere on their own edge row if they have none.
pub open spec fn placement(b: Seq<Cell>, p: Player, c: Color, x: int, y: int) -> Result<(), RuleViolation> {
    match snake_head(b, p, c) {
        Some(h) => if grows(p, h.0, h.1, x, y) {
            Ok(())
        } else {
            Err(RuleViolation::DoesNotGrowSnake)
        },
        None => if y == invocation_row(p) {
            Ok(())
        } else {
            Err(RuleViolation::MustStartOnInvocationLine)
        },
    }
}

/// The verdict on player `p` putting color `c` at (x, y): `Ok(true)` for a
/// move that takes the opponent's marker, `Ok(false)` for another legal move.
pub open spec fn move_outcome(b: Seq<Cell>, p: Player, c: Color, x: int, y: int) -> Result<bool, RuleViolation> {
    match cell_at(b, x, y) {
        Cell::Player(q) => if q == p {
            Err(RuleViolation::OwnInvocatorTargeted)
        } else {
            match snake_head(b, p, c) {
                Some(h) => if grows(p, h.0, h.1, x, y) {
                    Ok(true)
                } else {
                    Err(RuleViolation::DoesNotGrowSnake)
                },
                None => if y == invocation_row(p) {
                    Ok(false)
                } else {
                    Err(RuleViolation::MustStartOnInvocationLine)
                },
            }
        },
        Cell::Colored(_, d) => match placement(b, p, c, x, y) {
            Err(e) => Err(e),
            Ok(()) => if c.beats_spec(d) {
                Ok(false)
            } else {
                Err(RuleViolation::ColorTooWeak)
            },
        },
        Cell::Uncolored => match placement(b, p, c, x, y) {
            Err(e) => Err(e),
            Ok(()) => Ok(false),
        },
    }
}

/// Whether a move at (x, y) eats the cell (tx, ty): the move lands on a
/// snake segment, and (tx, ty) is that segment or one that follows it in the
/// eaten snake's own direction.
pub open spec fn eaten_by_move(b: Seq<Cell>, x: int, y: int, tx: int, ty: int) -> bool {
    match cell_at(b, x, y) {
        Cell::Colored(q, d) => on_trail(b, q, d, x, y, tx, ty),
        _ => false,
    }
}

/// The cell (tx, ty) after player `p` puts color `c` at (x, y).
pub open spec fn cell_after_move(b: Seq<Cell>, p: Player, c: Color, x: int, y: int, tx: int, ty: int) -> Cell {
    if tx == x && ty == y {
        Cell::Colored(p, c)
    } else if eaten_by_move(b, x, y, tx, ty) {
        Cell::Uncolored
    } else {
        cell_at(b, tx, ty)
    }
}

/// The cell (x, y) of a new board: the two markers mid-way along the edge
/// rows, every other cell empty.
pub open spec fn initial_cell(x: int, y: int) -> Cell {
    if x == 2 && y == 0 {
        Cell::Player(Player::Top)
    } else if x == 2 && y == GRID_HEIGHT - 1 {
        Cell::Player(Player::Bottom)
    } else {
        Cell::Uncolored
    }
}

// ---------------------------------------------------------------------------
// Facts about trails.
// ---------------------------------------------------------------------------

/// A trail only moves away from its owner's edge row: every cell on the trail
/// from (x, y) lies further on than (x, y), except (x, y) itself.
pub proof fn lemma_trail_moves_on(b: Seq<Cell>, p: Player, c: Color, x: int, y: int, tx: int, ty: int)
    requires
        on_trail(b, p, c, x, y, tx, ty),
    ensures
        progress(p, ty) >= progress(p, y),
        progress(p, ty) == progress(p, y) ==> tx == x && ty == y,
    decreases rows_left(p, y),
{
    if !(tx == x && ty == y) {
        let n = next_segment(b, p, c, x, y)->Some_0;
        lemma_trail_moves_on(b, p, c, n.0, n.1, tx, ty);
    }
}

/// The trail from (x, y) depends only on the rows further on than row `y`.
proof fn lemma_trail_frame(b1: Seq<Cell>, b2: Seq<Cell>, p: Player, c: Color, x: int, y: int, tx: int, ty: int)
    requires
        in_bounds(x, y),
        forall|i: int, j: int|
            in_bounds(i, j) && progress(p, j) > progress(p, y) ==> #[trigger] cell_at(b1, i, j) == cell_at(b2, i, j),
    ensures
        next_segment(b1, p, c, x, y) == next_segment(b2, p, c, x, y),
        on_trail(b1, p, c, x, y, tx, ty) == on_trail(b2, p, c, x, y, tx, ty),
    decreases rows_left(p, y),
{
    if let Some(n) = next_segment(b1, p, c, x, y) {
        lemma_trail_frame(b1, b2, p, c, n.0, n.1, tx, ty);
    }
}

impl View for Grid {
    type V = Seq<Cell>;

    closed spec fn view(&self) -> Seq<Cell> {
        self.cells@
    }
}

impl Grid {
    /// A board holds exactly `GRID_WIDTH * GRID_HEIGHT` cells.
    pub open spec fn wf(&self) -> bool {
        self@.len() == GRID_WIDTH * GRID_HEIGHT
    }

    /// The cell at column `x`, row `y`.
    pub fn cell(&self, x: usize, y: usize) -> (r: Cell)
        requires
            self.wf(),
            x < GRID_WIDTH,
            y < GRID_HEIGHT,
        ensures
            r == cell_at(self@, x as int, y as int),
    {
        self.cells[y * GRID_WIDTH + x]
    }

    /// Replaces the cell at column `x`, row `y` with `v`.
    fn set_cell(&mut self, x: usize, y: usize, v: Cell)
        requires
            old(self).wf(),
            x < GRID_WIDTH,
            y < GRID_HEIGHT,
        ensures
            final(self).wf(),
            forall|i: int, j: int|
                in_bounds(i, j) ==> #[trigger] cell_at(final(self)@, i, j) == if i == x && j == y {
                    v
                } else {
                    cell_at(old(self)@, i, j)
                },
    {
        self.cells.set(y * GRID_WIDTH + x, v);
        assert forall|i: int, j: int| in_bounds(i, j) implies #[trigger] cell_at(self@, i, j) == if i == x && j == y {
            v
        } else {
            cell_at(old(self)@, i, j)
        } by {
            assert((i == x && j == y) <==> j * 5 + i == y * 5 + x);
        }
    }

    /// The next row of a snake of `p` after row `y`, if the board has one.
    fn next_row(p: &Player, y: usize) -> (r: Option<usize>)
        requires
            y < GRID_HEIGHT,
        ensures
            r == (if 0 <= y + p.direction() < GRID_HEIGHT {
                Some((y + p.direction()) as usize)
            } else {
                None::<usize>
            }),
    {
        match p {
            Player::Top => if y + 1 < GRID_HEIGHT {
                Some(y + 1)
            } else {
                None
            },
            Player::Bottom => if y > 0 {
                Some(y - 1)
            } else {
                None
            },
        }
    }

    /// The segment that follows (x, y) in the snake of `player` and `color`.
    fn next_segment(&self, player: &Player, color: &Color, x: usize, y: usize) -> (r: Option<(usize, usize)>)
        requires
            self.wf(),
            x < GRID_WIDTH,
            y < GRID_HEIGHT,
        ensures
            match r {
                Some(n) => next_segment(self@, *player, *color, x as int, y as int) == Some((n.0 as int, n.1 as int))
                    && in_bounds(n.0 as int, n.1 as int),
                None => next_segment(self@, *player, *color, x as int, y as int) is None,
            },
    {
        let ny = match Grid::next_row(player, y) {
            Some(ny) => ny,
            None => return None,
        };
        let segment = Cell::Colored(*player, *color);
        if x > 0 && self.cell(x - 1, ny) == segment {
            Some((x - 1, ny))
        } else if self.cell(x, ny) == segment {
            Some((x, ny))
        } else if x + 1 < GRID_WIDTH && self.cell(x + 1, ny) == segment {
            Some((x + 1, ny))
        } else {
            None
        }
    }

    /// Follows the snake from (x, y) to its last segment.
    fn find_snake_head_rec(&self, player: &Player, color: &Color, x: usize, y: usize) -> (r: (usize, usize))
        requires
            self.wf(),
            x < GRID_WIDTH,
            y < GRID_HEIGHT,
        ensures
            (r.0 as int, r.1 as int) == head_from(self@, *player, *color, x as int, y as int),
            r.0 < GRID_WIDTH,
            r.1 < GRID_HEIGHT,
        decreases rows_left(*player, y as int),
    {
        match self.next_segment(player, color, x, y) {
            Some((nx, ny)) => self.find_snake_head_rec(player, color, nx, ny),
            None => (x, y),
        }
    }

    /// Clears the segment at (x, y) and every segment that follows it in the
    /// snake of `player` and `color`.
    fn eat_snake_rec(&mut self, player: &Player, color: &Color, x: usize, y: usize)
        requires
            old(self).wf(),
            x < GRID_WIDTH,
            y < GRID_HEIGHT,
        ensures
            final(self).wf(),
            forall|i: int, j: int|
                in_bounds(i, j) ==> #[trigger] cell_at(final(self)@, i, j) == if on_trail(
                    old(self)@,
                    *player,
                    *color,
                    x as int,
                    y as int,
                    i,
                    j,
                ) {
                    Cell::Uncolored
                } else {
                    cell_at(old(self)@, i, j)
                },
        decreases rows_left(*player, y as int),
    {
        let ghost b0 = self@;
        self.set_cell(x, y, Cell::Uncolored);
        let ghost b1 = self@;
        proof {
            assert forall|i: int, j: int|
                in_bounds(i, j) && progress(*player, j) > progress(*player, y as int) implies #[trigger] cell_at(b1, i, j)
                == cell_at(b0, i, j) by {}
        }
        match self.next_segment(player, color, x, y) {
            Some((nx, ny)) => {
                self.eat_snake_rec(player, color, nx, ny);
                proof {
                    assert forall|i: int, j: int| in_bounds(i, j) implies #[trigger] cell_at(self@, i, j) == if on_trail(
                        b0,
                        *player,
                        *color,
                        x as int,
                        y as int,
                        i,
                        j,
                    ) {
                        Cell::Uncolored
                    } else {
                        cell_at(b0, i, j)
                    } by {
                        lemma_trail_frame(b1, b0, *player, *color, x as int, y as int, i, j);
                        lemma_trail_frame(b1, b0, *player, *color, nx as int, ny as int, i, j);
                        if on_trail(b1, *player, *color, nx as int, ny as int, i, j) {
                            lemma_trail_moves_on(b1, *player, *color, nx as int, ny as int, i, j);
                        }
                    }
                }
            },
            None => {
                proof {
                    assert forall|i: int, j: int| in_bounds(i, j) implies #[trigger] cell_at(self@, i, j) == if on_trail(
                        b0,
                        *player,
                        *color,
                        x as int,
                        y as int,
                        i,
                        j,
                    ) {
                        Cell::Uncolored
                    } else {
                        cell_at(b0, i, j)
                    } by {
                        lemma_trail_frame(b1, b0, *player, *color, x as int, y as int, i, j);
                    }
                }
            },
        }
    }

    /// The head of the snake of `player` and `color`, if they have one.
    fn find_snake_head(&self, player: &Player, color: &Color) -> (r: Option<(usize, usize)>)
        requires
            self.wf(),
        ensures
            match r {
                Some(h) => snake_head(self@, *player, *color) == Some((h.0 as int, h.1 as int))
                    && h.0 < GRID_WIDTH && h.1 < GRID_HEIGHT,
                None => snake_head(self@, *player, *color) is None,
            },
    {
        let y: usize = match player {
            Player::Top => 0,
            Player::Bottom => GRID_HEIGHT - 1,
        };
        let segment = Cell::Colored(*player, *color);
        if self.cell(0, y) == segment {
            Some(self.find_snake_head_rec(player, color, 0, y))
        } else if self.cell(1, y) == segment {
            Some(self.find_snake_head_rec(player, color, 1, y))
        } else if self.cell(3, y) == segment {
            Some(self.find_snake_head_rec(player, color, 3, y))
        } else if self.cell(4, y) == segment {
            Some(self.find_snake_head_rec(player, color, 4, y))
        } else {
            None
        }
    }

    /// Whether (next_x, next_y) extends a head at (snake_head_x, snake_head_y).
    fn grows_head(player: &Player, snake_head_x: usize, snake_head_y: usize, next_x: usize, next_y: usize) -> (r:
        bool)
        requires
            snake_head_x < GRID_WIDTH,
            snake_head_y < GRID_HEIGHT,
            next_x < GRID_WIDTH,
            next_y < GRID_HEIGHT,
        ensures
            r == grows(*player, snake_head_x as int, snake_head_y as int, next_x as int, next_y as int),
    {
        let row_ok = match player {
            Player::Top => next_y == snake_head_y + 1,
            Player::Bottom => next_y + 1 == snake_head_y,
        };
        row_ok && next_x <= snake_head_x + 1 && snake_head_x <= next_x + 1
    }

    /// Where `player` may put `color` at (x, y), judged by their snake of
    /// that color alone.
    fn placement(&self, player: &Player, color: &Color, x: usize, y: usize) -> (r: Result<(), RuleViolation>)
        requires
            self.wf(),
            x < GRID_WIDTH,
            y < GRID_HEIGHT,
        ensures
            r == placement(self@, *player, *color, x as int, y as int),
    {
        match self.find_snake_head(player, color) {
            Some((hx, hy)) => {
                if Grid::grows_head(player, hx, hy, x, y) {
                    Ok(())
                } else {
                    Err(RuleViolation::DoesNotGrowSnake)
                }
            },
            None => {
                if Grid::on_invocation_line(player, y) {
                    Ok(())
                } else {
                    Err(RuleViolation::MustStartOnInvocationLine)
                }
            },
        }
    }

    fn on_invocation_line(player: &Player, y: usize) -> (r: bool)
        ensures
            r == (y == invocation_row(*player)),
    {
        match player {
            Player::Top => y == 0,
            Player::Bottom => y == GRID_HEIGHT - 1,
        }
    }

    /// Judges player `player` putting `color` at (x, y) on this board, without
    /// changing it. `Ok(true)` means the move takes the opponent's marker and
    /// wins; `Ok(false)` that it is legal and does not win.
    pub fn is_valid_move(&self, player: &Player, color: &Color, x: usize, y: usize) -> (r: Result<bool, RuleViolation>)
        requires
            self.wf(),
            x < GRID_WIDTH,
            y < GRID_HEIGHT,
        ensures
            r == move_outcome(self@, *player, *color, x as int, y as int),
    {
        match self.cell(x, y) {
            Cell::Player(targeted_player) => {
                if *player == targeted_player {
                    return Err(RuleViolation::OwnInvocatorTargeted);
                }
                match self.find_snake_head(player, color) {
                    Some((hx, hy)) => {
                        if !Grid::grows_head(player, hx, hy, x, y) {
                            return Err(RuleViolation::DoesNotGrowSnake);
                        }
                        Ok(true)
                    },
                    None => {
                        if !Grid::on_invocation_line(player, y) {
                            return Err(RuleViolation::MustStartOnInvocationLine);
                        }
                        Ok(false)
                    },
                }
            },
            Cell::Colored(_, targeted_color) => {
                self.placement(player, color, x, y)?;
                if !color.beats(&targeted_color) {
                    return Err(RuleViolation::ColorTooWeak);
                }
                Ok(false)
            },
            Cell::Uncolored => {
                self.placement(player, color, x, y)?;
                Ok(false)
            },
        }
    }

    /// Puts `color` of `player` at (x, y). Where the cell held a snake
    /// segment, that segment and every segment that follows it, in the eaten
    /// snake's own direction, are cleared first. No rule is checked here:
    /// call `is_valid_move` first.
    pub fn play_move(&mut self, player: &Player, color: &Color, x: usize, y: usize)
        requires
            old(self).wf(),
            x < GRID_WIDTH,
            y < GRID_HEIGHT,
        ensures
            final(self).wf(),
            forall|i: int, j: int|
                in_bounds(i, j) ==> #[trigger] cell_at(final(self)@, i, j) == cell_after_move(
                    old(self)@,
                    *player,
                    *color,
                    x as int,
                    y as int,
                    i,
                    j,
                ),
    {
        if let Cell::Colored(targeted_player, targeted_color) = self.cell(x, y) {
            self.eat_snake_rec(&targeted_player, &targeted_color, x, y);
        }
        self.set_cell(x, y, Cell::Colored(*player, *color));
    }
}

impl Default for Grid {
    /// A new board: both markers in place, every other cell empty.
    fn default() -> (g: Grid)
        ensures
            g.wf(),
            forall|i: int, j: int| in_bounds(i, j) ==> #[trigger] cell_at(g@, i, j) == initial_cell(i, j),
    {
        let mut cells: Vec<Cell> = Vec::new();
        let n: usize = GRID_WIDTH * GRID_HEIGHT;
        let mut k: usize = 0;
        while k < n
            invariant
                n == GRID_WIDTH * GRID_HEIGHT,
                k <= n,
                cells@.len() == k,
                forall|m: int| 0 <= m < k ==> cells@[m] == Cell::Uncolored,
            decreases n - k,
        {
            cells.push(Cell::Uncolored);
            k = k + 1;
        }
        let mut grid = Grid { cells };
        grid.set_cell(2, 0, Cell::Player(Player::Top));
        grid.set_cell(2, GRID_HEIGHT - 1, Cell::Player(Player::Bottom));
        grid
    }
}

impl RuleViolation {
    /// The sentence shown to a player whose move is refused.
    pub open spec fn message_spec(self) -> Seq<char> {
        match self {
            RuleViolation::OwnInvocatorTargeted => "You can't place a color on your own invocator"@,
            RuleViolation::DoesNotGrowSnake => "The cell you picked does not grow your existing snake"@,
            RuleViolation::MustStartOnInvocationLine => "You must invoke your snake on your invocation line"@,
            RuleViolation::ColorTooWeak => "This snake is not strong enough to beat the targeted snake"@,
        }
    }

    /// The sentence shown to a player whose move is refused.
    pub fn message(&self) -> (r: &'static str)
        ensures
            r@ == self.message_spec(),
    {
        match self {
            RuleViolation::OwnInvocatorTargeted => "You can't place a color on your own invocator",
            RuleViolation::DoesNotGrowSnake => "The cell you picked does not grow your existing snake",
            RuleViolation::MustStartOnInvocationLine => "You must invoke your snake on your invocation line",
            RuleViolation::ColorTooWeak => "This snake is not strong enough to beat the targeted snake",
        }
    }
}

// ---------------------------------------------------------------------------
// Laws of the game.
// ---------------------------------------------------------------------------

/// Judging a move has no effect and depends on nothing but the board and the
/// move: two boards that hold the same cells give the same verdict.
pub proof fn lemma_validation_is_repeatable(g1: Grid, g2: Grid, p: Player, c: Color, x: int, y: int)
    requires
        g1.wf(),
        g1@ == g2@,
        in_bounds(x, y),
    ensures
        move_outcome(g1@, p, c, x, y) == move_outcome(g2@, p, c, x, y),
{
}

/// A move wins exactly when it lands on the opponent's marker and extends
/// the head of the player's snake of that color; playing it puts the
/// player's color on the marker's cell.
pub proof fn lemma_win_takes_opponent_marker(b: Seq<Cell>, p: Player, c: Color, x: int, y: int)
    requires
        b.len() == GRID_WIDTH * GRID_HEIGHT,
        in_bounds(x, y),
    ensures
        move_outcome(b, p, c, x, y) == Ok::<bool, RuleViolation>(true) <==> {
            &&& cell_at(b, x, y) == Cell::Player(p.opponent())
            &&& snake_head(b, p, c) matches Some(h)
            &&& grows(p, h.0, h.1, x, y)
        },
        cell_after_move(b, p, c, x, y, x, y) == Cell::Colored(p, c),
{
}

/// A capture at (x, y) spares the eaten snake behind the point of impact:
/// every cell nearer to the eaten snake's own edge row than row `y` keeps
/// what it held.
pub proof fn lemma_capture_spares_tail(b: Seq<Cell>, p: Player, c: Color, x: int, y: int, tx: int, ty: int)
    requires
        b.len() == GRID_WIDTH * GRID_HEIGHT,
        in_bounds(x, y),
        in_bounds(tx, ty),
        cell_at(b, x, y) matches Cell::Colored(q, _) && progress(q, ty) < progress(q, y),
    ensures
        cell_after_move(b, p, c, x, y, tx, ty) == cell_at(b, tx, ty),
{
    if let Cell::Colored(q, d) = cell_at(b, x, y) {
        if on_trail(b, q, d, x, y, tx, ty) {
            lemma_trail_moves_on(b, q, d, x, y, tx, ty);
        }
    }
}

} // verus!
