//! The game simulation: the snake, its food, the score and the pace of play.

use vstd::prelude::*;

use crate::food::{covers, free_cells, has_free_cell, lemma_short_body_leaves_free_cell, random_below};
use crate::grid::{adjacent, Direction, Position, GRID_HEIGHT, GRID_WIDTH};

verus! {

/// Time between two moves at the start of a game, in microseconds.
pub const INITIAL_GAME_SPEED: u64 = 200_000;

/// Shortest time between two moves, in microseconds.
pub const MIN_GAME_SPEED: u64 = 100_000;

/// Random draws of a cell tried before food is placed by picking among the free cells.
const MAX_FOOD_DRAWS: u32 = 64;

/// Every segment of `body` lies on the grid.
pub open spec fn body_in_grid(body: Seq<Position>) -> bool {
    forall|i: int| 0 <= i < body.len() ==> #[trigger] body[i].in_grid()
}

/// Consecutive segments of `body` share a side.
pub open spec fn body_connected(body: Seq<Position>) -> bool {
    forall|i: int| 0 <= i < body.len() - 1 ==> #[trigger] adjacent(body[i], body[i + 1])
}

/// The interval between moves after a meal: ninety-five percent of `speed`,
/// rounded up to the microsecond, and never below `MIN_GAME_SPEED`.
pub open spec fn faster(speed: u64) -> u64 {
    if speed - speed / 20 > MIN_GAME_SPEED {
        (speed - speed / 20) as u64
    } else {
        MIN_GAME_SPEED
    }
}

/// The snake of a fresh game: head at the centre, two segments trailing to its left.
pub open spec fn initial_body() -> Seq<Position> {
    let x = GRID_WIDTH / 2;
    let y = GRID_HEIGHT / 2;
    seq![
        Position { x: x as i32, y: y as i32 },
        Position { x: (x - 1) as i32, y: y as i32 },
        Position { x: (x - 2) as i32, y: y as i32 },
    ]
}

/// What a player can ask of a game.
#[derive(Debug, Clone, Copy, PartialEq, Eq, Structural)]
pub enum Command {
    /// Steer towards a heading.
    Turn(Direction),
    /// Start a fresh game.
    Restart,
}

/// The whole state of one game.
pub struct GameState {
    /// Segments of the snake, head first.
    pub snake: Vec<Position>,
    /// Heading of the last move.
    pub direction: Direction,
    /// Heading that the next move takes.
    pub next_direction: Direction,
    pub food: Position,
    pub score: u32,
    pub high_score: u32,
    pub game_over: bool,
    /// Time between two moves, in microseconds.
    pub game_speed: u64,
    /// Time of the last move, in microseconds.
    pub last_update: u64,
}

impl GameState {
    /// The invariant of a game in play: a snake of at least three connected,
    /// distinct segments on the grid, food on a free cell of the grid, a pace
    /// no faster than the minimum, and ten points per segment grown.
    pub open spec fn wf(self) -> bool {
        &&& self.snake@.len() >= 3
        &&& body_in_grid(self.snake@)
        &&& body_connected(self.snake@)
        &&& self.snake@.no_duplicates()
        &&& self.food.in_grid()
        &&& !self.snake@.contains(self.food)
        &&& MIN_GAME_SPEED <= self.game_speed
        &&& self.score <= 10 * (self.snake@.len() - 3)
    }

    /// `self` is a fresh game whose high score is `high_score`.
    pub open spec fn is_fresh(self, high_score: u32) -> bool {
        &&& self.snake@ == initial_body()
        &&& self.direction == Direction::Right
        &&& self.next_direction == Direction::Right
        &&& self.food.in_grid()
        &&& !self.snake@.contains(self.food)
        &&& self.score == 0
        &&& self.high_score == high_score
        &&& !self.game_over
        &&& self.game_speed == INITIAL_GAME_SPEED
        &&& self.last_update == 0
    }

    /// Moving the head to `p` ends the game: `p` is off the grid, or on a
    /// segment other than the tail, which leaves its cell on the same move.
    pub open spec fn collides(self, p: Position) -> bool {
        !p.in_grid() || self.snake@.drop_last().contains(p)
    }

    /// The state after an input of heading `d`: a reversal of the last move is ignored.
    pub open spec fn steered(self, d: Direction) -> GameState {
        if d != self.direction.opposite_spec() {
            GameState { next_direction: d, ..self }
        } else {
            self
        }
    }

    /// The state after a check for a new high score.
    pub open spec fn with_record(self) -> GameState {
        if self.score > self.high_score {
            GameState { high_score: self.score, ..self }
        } else {
            self
        }
    }

    /// The cell the head enters on the next move.
    pub open spec fn next_head(self) -> Position {
        self.snake@[0].stepped(self.direction)
    }

    /// What a move needs: a head that can step along the heading, and, when
    /// the move eats, a cell left for new food and room in the score.
    pub open spec fn can_move(self) -> bool {
        &&& self.snake@.len() >= 1
        &&& self.snake@[0].can_step(self.direction)
        &&& self.next_head() == self.food ==> {
            &&& self.snake@.len() + 1 < GRID_WIDTH * GRID_HEIGHT
            &&& self.score + 10 <= u32::MAX
        }
    }

    /// `next` is a state that one move makes of `self`. On a collision the
    /// game ends with the snake in place; on the food the snake grows by its
    /// new head, scores ten points, speeds up and gets new food on a free
    /// cell; otherwise the head advances and the tail leaves its cell.
    pub open spec fn moves_to(self, next: GameState) -> bool {
        let head = self.next_head();
        if self.collides(head) {
            next == GameState { game_over: true, ..self.with_record() }
        } else if head == self.food {
            &&& next.snake@ == seq![head] + self.snake@
            &&& next.food.in_grid()
            &&& !next.snake@.contains(next.food)
            &&& next == (GameState {
                snake: next.snake,
                food: next.food,
                score: (self.score + 10) as u32,
                game_speed: faster(self.game_speed),
                ..self
            })
        } else {
            &&& next.snake@ == seq![head] + self.snake@.drop_last()
            &&& next == (GameState { snake: next.snake, ..self })
        }
    }

    /// The state at the start of a tick, with the pending heading taken up.
    pub open spec fn committed(self) -> GameState {
        GameState { direction: self.next_direction, ..self }
    }

    /// At time `now` a running game has waited its interval since the last move.
    pub open spec fn due(self, now: u64) -> bool {
        &&& !self.game_over
        &&& self.last_update <= now
        &&& now - self.last_update >= self.game_speed
    }

    /// A fresh game with no high score stored.
    pub fn new() -> (r: Self)
        ensures
            r.is_fresh(0),
            r.wf(),
    {
        Self::with_high_score(0)
    }

    /// A fresh game that starts from the stored `high_score`.
    pub fn with_high_score(high_score: u32) -> (r: Self)
        ensures
            r.is_fresh(high_score),
            r.wf(),
    {
        let initial_snake: Vec<Position> = vec![
            Position::new(GRID_WIDTH / 2, GRID_HEIGHT / 2),
            Position::new(GRID_WIDTH / 2 - 1, GRID_HEIGHT / 2),
            Position::new(GRID_WIDTH / 2 - 2, GRID_HEIGHT / 2),
        ];
        assert(initial_snake@ == initial_body());
        proof {
            lemma_short_body_leaves_free_cell(initial_snake@);
        }
        let food = Self::generate_food_position(initial_snake.as_slice());
        let r = Self {
            snake: initial_snake,
            direction: Direction::Right,
            next_direction: Direction::Right,
            food,
            score: 0,
            high_score,
            game_over: false,
            game_speed: INITIAL_GAME_SPEED,
            last_update: 0,
        };
        assert(r.snake@.no_duplicates()) by {
            assert forall|i: int, j: int|
                0 <= i < 3 && 0 <= j < 3 && i != j implies r.snake@[i] != r.snake@[j] by {
                assert(r.snake@[i].x == 10 - i && r.snake@[j].x == 10 - j);
            }
        }
        r
    }

    /// Replaces the game with a fresh one that starts from the stored
    /// `high_score`, whatever the state before.
    pub fn reset(&mut self, high_score: u32)
        ensures
            final(self).is_fresh(high_score),
            final(self).wf(),
    {
        *self = Self::with_high_score(high_score);
    }

    /// Reacts to a player's command; returns whether a fresh game is due. A
    /// turn steers a running game. A restart is granted with the control key
    /// held, or while the game runs; the caller then resets the game.
    pub fn handle_command(&mut self, command: Command, ctrl_held: bool) -> (restart: bool)
        ensures
            match command {
                Command::Turn(d) => {
                    &&& !restart
                    &&& *final(self) == if old(self).game_over {
                        *old(self)
                    } else {
                        old(self).steered(d)
                    }
                },
                Command::Restart => {
                    &&& restart == (ctrl_held || !old(self).game_over)
                    &&& *final(self) == *old(self)
                },
            },
    {
        match command {
            Command::Turn(d) => {
                if !self.game_over {
                    self.handle_input(d);
                }
                false
            },
            Command::Restart => ctrl_held || !self.game_over,
        }
    }

    /// A random cell of the grid that `snake` leaves free. Cells are drawn
    /// uniformly until a free one comes up; after `MAX_FOOD_DRAWS` misses one
    /// of the free cells is picked uniformly instead. Needs a free cell.
    pub fn generate_food_position(snake: &[Position]) -> (r: Position)
        requires
            has_free_cell(snake@),
        ensures
            r.in_grid(),
            !snake@.contains(r),
    {
        let mut draws: u32 = 0;
        while draws < MAX_FOOD_DRAWS
            invariant
                draws <= MAX_FOOD_DRAWS,
            decreases MAX_FOOD_DRAWS - draws,
        {
            let x = random_below(GRID_WIDTH as usize) as i32;
            let y = random_below(GRID_HEIGHT as usize) as i32;
            let food = Position::new(x, y);
            if !covers(snake, snake.len(), food) {
                assert(snake@.subrange(0, snake@.len() as int) == snake@);
                return food;
            }
            draws = draws + 1;
        }
        let free = free_cells(snake);
        proof {
            let p = choose|p: Position| p.in_grid() && !snake@.contains(p);
            assert(free@.contains(p));
        }
        let k = random_below(free.len());
        let food = free[k];
        assert(free@.contains(food));
        assert(food.in_grid());
        assert(!snake@.contains(food));
        food
    }

    /// Whether moving the head to `new_head` ends the game.
    pub fn would_collide(&self, new_head: Position) -> (r: bool)
        requires
            self.snake@.len() >= 1,
        ensures
            r == self.collides(new_head),
    {
        !new_head.is_valid() || covers(self.snake.as_slice(), self.snake.len() - 1, new_head)
    }

    /// Takes `direction` as the next heading unless it reverses the last move.
    pub fn handle_input(&mut self, direction: Direction)
        ensures
            *final(self) == old(self).steered(direction),
    {
        if direction != self.direction.opposite() {
            self.next_direction = direction;
        }
    }

    /// Moves the snake one cell along its heading: it dies on a collision,
    /// grows on the food, and otherwise keeps its length.
    pub fn move_snake(&mut self)
        requires
            old(self).can_move(),
        ensures
            old(self).moves_to(*final(self)),
    {
        let head = self.snake[0];
        let new_head = head.move_in_direction(self.direction);
        if self.would_collide(new_head) {
            self.game_over = true;
            self.update_high_score();
            return;
        }
        let ghost body = self.snake@;
        self.snake.insert(0, new_head);
        assert(self.snake@ =~= seq![new_head] + body);
        if new_head == self.food {
            self.score = self.score + 10;
            proof {
                lemma_short_body_leaves_free_cell(self.snake@);
            }
            self.food = Self::generate_food_position(self.snake.as_slice());
            let reduced = self.game_speed - self.game_speed / 20;
            self.game_speed = if reduced > MIN_GAME_SPEED {
                reduced
            } else {
                MIN_GAME_SPEED
            };
        } else {
            self.snake.pop();
            assert(self.snake@ =~= seq![new_head] + body.drop_last());
        }
    }

    /// One tick of a running game: the pending heading becomes the heading
    /// and the snake moves. Once the game is over nothing changes.
    pub fn advance(&mut self)
        requires
            old(self).game_over || old(self).committed().can_move(),
        ensures
            old(self).game_over ==> *final(self) == *old(self),
            !old(self).game_over ==> old(self).committed().moves_to(*final(self)),
            old(self).wf() ==> final(self).wf(),
    {
        if self.game_over {
            return;
        }
        let ghost start = self.committed();
        self.direction = self.next_direction;
        self.move_snake();
        proof {
            if old(self).wf() {
                lemma_move_keeps_wf(start, *self);
            }
        }
    }

    /// Advances the game when its interval has passed at `now`, the time in
    /// microseconds on the same clock as `last_update`.
    pub fn update(&mut self, now: u64)
        requires
            old(self).due(now) ==> old(self).committed().can_move(),
        ensures
            old(self).due(now) ==> {
                &&& final(self).last_update == now
                &&& old(self).committed().moves_to(
                    GameState { last_update: old(self).last_update, ..*final(self) },
                )
            },
            !old(self).due(now) ==> *final(self) == *old(self),
            old(self).wf() ==> final(self).wf(),
    {
        if self.game_over {
            return;
        }
        if now >= self.last_update && now - self.last_update >= self.game_speed {
            self.advance();
            self.last_update = now;
        }
    }

    /// Raises the high score to the score when the score is higher.
    pub fn update_high_score(&mut self)
        ensures
            *final(self) == old(self).with_record(),
    {
        if self.score > self.high_score {
            self.high_score = self.score;
        }
    }
}

impl Default for GameState {
    fn default() -> (r: Self)
        ensures
            r.is_fresh(0),
    {
        Self::new()
    }
}

/// A move keeps the invariant of a game in play.
pub proof fn lemma_move_keeps_wf(before: GameState, after: GameState)
    requires
        before.wf(),
        before.can_move(),
        before.moves_to(after),
    ensures
        after.wf(),
{
    let head = before.next_head();
    let body = before.snake@;
    if !before.collides(head) {
        assert(adjacent(body[0], head));
        let rest = if head == before.food {
            body
        } else {
            body.drop_last()
        };
        assert(after.snake@ == seq![head] + rest);
        assert(!rest.contains(head));
        assert forall|i: int| 0 <= i < after.snake@.len() implies #[trigger] after.snake@[i].in_grid() by {
            if i > 0 {
                assert(after.snake@[i] == body[i - 1]);
            }
        }
        assert forall|i: int| 0 <= i < after.snake@.len() - 1 implies #[trigger] adjacent(
            after.snake@[i],
            after.snake@[i + 1],
        ) by {
            if i > 0 {
                assert(after.snake@[i] == body[i - 1] && after.snake@[i + 1] == body[i]);
                assert(adjacent(body[i - 1], body[(i - 1) + 1]));
            } else {
                assert(after.snake@[1] == body[0]);
                assert(adjacent(head, body[0]));
            }
        }
        assert forall|i: int, j: int|
            0 <= i < after.snake@.len() && 0 <= j < after.snake@.len() && i != j implies
                after.snake@[i] != after.snake@[j] by {
            if i > 0 && j > 0 {
                assert(after.snake@[i] == body[i - 1] && after.snake@[j] == body[j - 1]);
            } else if i == 0 {
                assert(after.snake@[j] == rest[j - 1]);
            } else {
                assert(after.snake@[i] == rest[i - 1]);
            }
        }
        if head != before.food {
            if after.snake@.contains(after.food) {
                let k = choose|k: int| 0 <= k < after.snake@.len() && after.snake@[k] == after.food;
                assert(after.snake@[k] == rest[k - 1]);
                assert(body.contains(after.food));
            }
        }
    }
}

/// Eating: when the next head lands on the food, the snake grows by one
/// segment, the score rises by ten, the interval between moves does not grow
/// and stays at least `MIN_GAME_SPEED`, and the new food is elsewhere.
pub proof fn lemma_eating(before: GameState, after: GameState)
    requires
        before.can_move(),
        before.moves_to(after),
        !before.collides(before.next_head()),
        before.next_head() == before.food,
        MIN_GAME_SPEED <= before.game_speed,
    ensures
        after.snake@.len() == before.snake@.len() + 1,
        after.score == before.score + 10,
        after.game_speed <= before.game_speed,
        MIN_GAME_SPEED <= after.game_speed,
        after.food != before.food,
{
    assert(after.snake@[0] == before.food);
}

/// A move that neither collides nor eats keeps the length of the snake.
pub proof fn lemma_moving_without_food(before: GameState, after: GameState)
    requires
        before.can_move(),
        before.moves_to(after),
        !before.collides(before.next_head()),
        before.next_head() != before.food,
    ensures
        after.snake@.len() == before.snake@.len(),
{
}

} // verus!
