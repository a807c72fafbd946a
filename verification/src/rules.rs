//! The rules of the snake game as mathematics: the snake and the game as
//! values, and what a frame, a collision and a meal make of them.

use crate::clock::{is_more_than, Timestamp};
use crate::game::{
    sprite_food, sprite_snake, Coordinates, Direction, GameState, BASE_MOVE_FREQUENCY_MS,
    MAX_MOVE_FREQUENCY_MS, WALL_RIGHT, WALL_TOP,
};
use crate::grid::{decimal, Grid};
use crate::input::{Key, Keys};
use vstd::prelude::*;

verus! {

/// Where the snake starts, and starts again after a game is over.
pub open spec fn start_position() -> Coordinates {
    Coordinates { x: 15, y: 8 }
}

/// Strictly between the walls.
pub open spec fn inside_walls(c: Coordinates) -> bool {
    0 < c.x < WALL_RIGHT && 0 < c.y < WALL_TOP
}

/// Where food may appear: columns 2 to 27 and rows 2 to 11.
pub open spec fn food_range(c: Coordinates) -> bool {
    2 <= c.x < 28 && 2 <= c.y < 12
}

pub open spec fn fifth_power(n: nat) -> nat {
    n * n * n * n * n
}

pub open spec fn seventh_power(n: nat) -> nat {
    n * n * n * n * n * n * n
}

/// The search for `slowdown`: the first `k` from `from` on whose successor
/// has a fifth power above the seventh power of `score`, and 70 where there
/// is none below it.
pub open spec fn slowdown_from(score: nat, from: nat) -> nat
    decreases 70 - from,
{
    if from >= 70 || fifth_power(from + 1) > seventh_power(score) {
        from
    } else {
        slowdown_from(score, from + 1)
    }
}

/// By how many milliseconds a score shortens the time between two moves:
/// the whole part of `score` to the power of 7/5, and at most 70, which
/// leaves the shortest time of the base time.
pub open spec fn slowdown(score: nat) -> nat {
    slowdown_from(score, 0)
}

/// The time between two moves at a score, in milliseconds.
pub open spec fn move_frequency_for(score: nat) -> int {
    BASE_MOVE_FREQUENCY_MS - slowdown(score)
}

/// Where a key that was pressed in this frame turns the snake; W, A, S, D
/// in this order of precedence.
pub open spec fn steer(direction: Direction, keys: Keys) -> Direction {
    if keys.pressed.contains(Key::W) {
        Direction::North
    } else if keys.pressed.contains(Key::A) {
        Direction::West
    } else if keys.pressed.contains(Key::S) {
        Direction::South
    } else if keys.pressed.contains(Key::D) {
        Direction::East
    } else {
        direction
    }
}

/// The neighbour of a cell in a direction. North is up, towards larger y.
pub open spec fn step(c: Coordinates, direction: Direction) -> Coordinates {
    match direction {
        Direction::North => Coordinates { x: c.x, y: (c.y + 1) as i32 },
        Direction::South => Coordinates { x: c.x, y: (c.y - 1) as i32 },
        Direction::East => Coordinates { x: (c.x + 1) as i32, y: c.y },
        Direction::West => Coordinates { x: (c.x - 1) as i32, y: c.y },
        Direction::Still => c,
    }
}

/// Each segment but the head takes the place of the one before it.
pub open spec fn shifted(segments: Seq<Coordinates>) -> Seq<Coordinates> {
    Seq::new(
        segments.len(),
        |i: int|
            if i == 0 {
                segments[0]
            } else {
                segments[i - 1]
            },
    )
}

/// The snake, as a value.
pub struct SnakeModel {
    /// The cells of the snake, head first.
    pub segments: Seq<Coordinates>,
    pub direction: Direction,
    /// Milliseconds that must pass before the next move.
    pub move_frequency: i64,
    pub last_move_time: Timestamp,
    /// Whether the last frame was one in which a move was due.
    pub has_moved: bool,
}

impl SnakeModel {
    /// One frame at time `now`: the snake turns to a key pressed in the
    /// frame, and if more than `move_frequency` has passed since the last
    /// move, a snake with a direction moves one cell.
    pub open spec fn moved(self, keys: Keys, now: Timestamp) -> SnakeModel {
        let direction = steer(self.direction, keys);
        if is_more_than(self.last_move_time, now, self.move_frequency) {
            SnakeModel {
                segments: if direction != Direction::Still {
                    shifted(self.segments).update(0, step(self.segments[0], direction))
                } else {
                    self.segments
                },
                direction,
                last_move_time: now,
                has_moved: true,
                ..self
            }
        } else {
            SnakeModel { direction, has_moved: false, ..self }
        }
    }

    /// One more segment, on the head's cell.
    pub open spec fn grown(self) -> SnakeModel {
        SnakeModel { segments: self.segments.push(self.segments[0]), ..self }
    }
}

/// A snake of one segment at `position` that stands still, with `now` as
/// the time of its last move.
pub open spec fn new_snake(position: Coordinates, now: Timestamp) -> SnakeModel {
    SnakeModel {
        segments: seq![position],
        direction: Direction::Still,
        move_frequency: BASE_MOVE_FREQUENCY_MS,
        last_move_time: now,
        has_moved: false,
    }
}

/// The grid after the segments were drawn, first segment first.
pub open spec fn put_segments(grid: Grid, segments: Seq<Coordinates>) -> Grid
    decreases segments.len(),
{
    if segments.len() == 0 {
        grid
    } else {
        put_segments(grid, segments.drop_last()).put(
            segments.last().x as int,
            segments.last().y as int,
            sprite_snake(),
        )
    }
}

/// The line that shows the score.
pub open spec fn score_text(score: nat) -> Seq<char> {
    "SCORE: "@ + decimal(score)
}

/// The grid after a frame of the game was drawn onto it.
pub open spec fn drawn(grid: Grid, game: GameModel) -> Grid {
    let with_snake = put_segments(grid, game.snake.segments);
    let with_food = match game.food_position {
        Some(food) => with_snake.put(food.x as int, food.y as int, sprite_food()),
        None => with_snake,
    };
    let framed = with_food.put_string(1, 14, score_text(game.score)).put_box(0, 0, 29, 14);
    if game.state == GameState::GameOver {
        framed.put_string(1, 1, "Press SPACE to play again."@)
    } else if game.snake.direction == Direction::Still {
        framed.put_string(1, 1, "Use the WASD keys to move."@)
    } else {
        framed
    }
}

/// The game, as a value.
pub struct GameModel {
    pub snake: SnakeModel,
    pub food_position: Option<Coordinates>,
    pub score: nat,
    pub state: GameState,
}

/// The game as it starts: the snake at the start position with `now` as
/// the time of its last move, no food, no score.
pub open spec fn new_game(now: Timestamp) -> GameModel {
    GameModel {
        snake: new_snake(start_position(), now),
        food_position: None,
        score: 0,
        state: GameState::Playing,
    }
}

impl GameModel {
    pub open spec fn head(self) -> Coordinates {
        self.snake.segments[0]
    }

    /// The snake has a head, and while the game is on the head is strictly
    /// between the walls.
    pub open spec fn wf(self) -> bool {
        &&& self.snake.segments.len() > 0
        &&& self.state == GameState::Playing ==> inside_walls(self.head())
    }

    /// The head of a snake that moved in this frame is on another of its
    /// segments.
    pub open spec fn hits_self(self) -> bool {
        &&& self.snake.has_moved
        &&& self.snake.direction != Direction::Still
        &&& exists|i: int|
            1 <= i < self.snake.segments.len() && #[trigger] self.snake.segments[i] == self.head()
    }

    /// The head is on a wall or beyond it.
    pub open spec fn hits_wall(self) -> bool {
        !inside_walls(self.head())
    }

    /// The game is over: the food is gone, the snake stands still and is
    /// back at its first speed.
    pub open spec fn over(self) -> GameModel {
        GameModel {
            snake: SnakeModel {
                direction: Direction::Still,
                move_frequency: BASE_MOVE_FREQUENCY_MS,
                ..self.snake
            },
            food_position: None,
            state: GameState::GameOver,
            ..self
        }
    }

    /// The snake eats: its speed is set from the score so far, new food
    /// lies at `food`, the snake grows and the score goes up by one.
    pub open spec fn fed(self, food: Coordinates) -> GameModel {
        GameModel {
            snake: SnakeModel {
                move_frequency: move_frequency_for(self.score) as i64,
                ..self.snake.grown()
            },
            food_position: Some(food),
            score: self.score + 1,
            ..self
        }
    }

    /// The head on a segment or a wall ends the game; a head on the food
    /// of a game that goes on eats it, and the next food lies at `food`.
    pub open spec fn collided(self, food: Coordinates) -> GameModel {
        let checked = if self.hits_self() || self.hits_wall() {
            self.over()
        } else {
            self
        };
        if checked.food_position == Some(self.head()) {
            checked.fed(food)
        } else {
            checked
        }
    }

    /// A new game on the same board: the snake is one segment at the start
    /// position and the score is zero. Nothing else changes: no food is
    /// laid out.
    pub open spec fn restarted(self) -> GameModel {
        GameModel {
            snake: SnakeModel { segments: seq![start_position()], ..self.snake },
            score: 0,
            state: GameState::Playing,
            ..self
        }
    }

    /// One frame at time `now`. While the game is on the snake moves and
    /// collisions are handled; when it is over the space key starts a new
    /// one.
    pub open spec fn updated(self, keys: Keys, now: Timestamp, food: Coordinates) -> GameModel {
        match self.state {
            GameState::Playing => (GameModel { snake: self.snake.moved(keys, now), ..self }).collided(
                food,
            ),
            GameState::GameOver => if keys.pressed.contains(Key::Space) {
                self.restarted()
            } else {
                self
            },
        }
    }
}

/// `slowdown` is the whole part of `score` to the power of 7/5 where that
/// is below 70, and 70 from there on.
pub proof fn lemma_slowdown(score: nat)
    ensures
        slowdown(score) <= 70,
        fifth_power(slowdown(score)) <= seventh_power(score),
        slowdown(score) < 70 ==> seventh_power(score) < fifth_power(slowdown(score) + 1),
        MAX_MOVE_FREQUENCY_MS <= move_frequency_for(score) <= BASE_MOVE_FREQUENCY_MS,
{
    lemma_slowdown_from(score, 0);
}

proof fn lemma_slowdown_from(score: nat, from: nat)
    requires
        from <= 70,
        fifth_power(from) <= seventh_power(score),
    ensures
        from <= slowdown_from(score, from) <= 70,
        fifth_power(slowdown_from(score, from)) <= seventh_power(score),
        slowdown_from(score, from) < 70 ==> seventh_power(score) < fifth_power(
            slowdown_from(score, from) + 1,
        ),
    decreases 70 - from,
{
    if from < 70 && fifth_power(from + 1) <= seventh_power(score) {
        lemma_slowdown_from(score, from + 1);
    }
}

/// From a score of 22 on the slowdown is 70, from wherever the search
/// starts.
pub proof fn lemma_slowdown_saturates(score: nat, from: nat)
    requires
        score >= 22,
        from <= 70,
    ensures
        slowdown_from(score, from) == 70,
    decreases 70 - from,
{
    if from < 70 {
        let next = from + 1;
        assert(fifth_power(next) <= 1680700000) by (nonlinear_arith)
            requires
                next <= 70,
        {
            assert(next * next <= 4900);
            assert(next * next * next <= 343000);
            assert(next * next * next * next <= 24010000);
        }
        assert(seventh_power(score) >= 2494357888) by (nonlinear_arith)
            requires
                score >= 22,
        {
            assert(score * score >= 484);
            assert(score * score * score >= 10648);
            assert(score * score * score * score >= 234256);
            assert(score * score * score * score * score >= 5153632);
            assert(score * score * score * score * score * score >= 113379904);
        }
        lemma_slowdown_saturates(score, next);
    }
}

} // verus!
