//! The snake game: the snake, the food, the score, and what one frame does
//! to them.

use crate::clock::{now, Timestamp};
use crate::gfx::{
    color_green, color_white, draw_box, draw_cell, draw_number, draw_string, Renderer, Sprite,
};
use crate::grid::{decimal, lemma_put_string_concat, white, written};
use crate::input::{is_key_pressed, InputMan, Key};
use crate::rules::{
    drawn, fifth_power, food_range, lemma_slowdown_saturates, move_frequency_for, new_game,
    new_snake, put_segments, seventh_power, shifted, slowdown, slowdown_from, start_position,
    steer, step, GameModel, SnakeModel,
};
use vstd::prelude::*;

verus! {

/// The generator that `rand::thread_rng` hands out.
#[verifier::external_type_specification]
#[verifier::external_body]
pub struct ExThreadRng(rand::ThreadRng);

/// The shortest time between two moves of the snake, in milliseconds.
pub const MAX_MOVE_FREQUENCY_MS: i64 = 30;

/// The time between two moves of a snake that has eaten nothing, in
/// milliseconds.
pub const BASE_MOVE_FREQUENCY_MS: i64 = 100;

/// The column of the right wall; the left wall is column 0.
pub const WALL_RIGHT: i32 = 28;

/// The row of the top wall; the bottom wall is row 0.
pub const WALL_TOP: i32 = 13;

pub open spec fn spec_sprite_snake() -> Sprite {
    white('\u{1}')
}

/// A segment of the snake.
#[verifier::when_used_as_spec(spec_sprite_snake)]
pub fn sprite_snake() -> (sprite: Sprite)
    ensures
        sprite == spec_sprite_snake(),
{
    Sprite::new('\u{1}', color_white())
}

pub open spec fn spec_sprite_food() -> Sprite {
    Sprite { graphic: '$', color: crate::gfx::Color { r: 0, g: 255, b: 0, a: 255 } }
}

/// The food.
#[verifier::when_used_as_spec(spec_sprite_food)]
pub fn sprite_food() -> (sprite: Sprite)
    ensures
        sprite == spec_sprite_food(),
{
    Sprite::new('$', color_green())
}

#[derive(Copy, Clone, PartialEq, Eq, Structural, Debug)]
pub enum Direction {
    /// The snake does not move.
    Still,
    North,
    South,
    East,
    West,
}

#[derive(Copy, Clone, PartialEq, Eq, Structural, Debug)]
pub enum GameState {
    Playing,
    GameOver,
}

/// A cell of the grid.
#[derive(Copy, Clone, PartialEq, Eq, Structural, Debug)]
pub struct Coordinates {
    pub x: i32,
    pub y: i32,
}

impl Coordinates {
    pub fn new(x: i32, y: i32) -> (coordinates: Coordinates)
        ensures
            coordinates == (Coordinates { x, y }),
    {
        Coordinates { x, y }
    }
}

pub struct Snake {
    segments: Vec<Coordinates>,
    direction: Direction,
    move_frequency: i64,
    last_move_time: Timestamp,
    has_moved: bool,
}

impl View for Snake {
    type V = SnakeModel;

    closed spec fn view(&self) -> SnakeModel {
        SnakeModel {
            segments: self.segments@,
            direction: self.direction,
            move_frequency: self.move_frequency,
            last_move_time: self.last_move_time,
            has_moved: self.has_moved,
        }
    }
}

impl Snake {
    /// A snake of one segment at `position` that stands still, with the
    /// clock's time as the time of its last move.
    pub fn new(position: Coordinates) -> (snake: Snake)
        ensures
            snake@ == new_snake(position, snake@.last_move_time),
    {
        Snake::new_at(position, now())
    }

    /// A snake of one segment at `position` that stands still, with `now`
    /// as the time of its last move.
    pub fn new_at(position: Coordinates, now: Timestamp) -> (snake: Snake)
        ensures
            snake@ == new_snake(position, now),
    {
        let mut segments: Vec<Coordinates> = Vec::new();
        segments.push(position);
        Snake {
            segments,
            direction: Direction::Still,
            move_frequency: BASE_MOVE_FREQUENCY_MS,
            last_move_time: now,
            has_moved: false,
        }
    }

    /// The cells of the snake, head first.
    pub fn segments(&self) -> (segments: &Vec<Coordinates>)
        ensures
            segments@ == self@.segments,
    {
        &self.segments
    }

    pub fn direction(&self) -> (direction: Direction)
        ensures
            direction == self@.direction,
    {
        self.direction
    }

    /// Milliseconds that must pass before the next move.
    pub fn move_frequency(&self) -> (millis: i64)
        ensures
            millis == self@.move_frequency,
    {
        self.move_frequency
    }

    pub fn last_move_time(&self) -> (time: Timestamp)
        ensures
            time == self@.last_move_time,
    {
        self.last_move_time
    }

    pub fn has_moved(&self) -> (moved: bool)
        ensures
            moved == self@.has_moved,
    {
        self.has_moved
    }
}

/// Adds a segment on the head's cell.
pub fn grow_snake(snake: &mut Snake)
    requires
        old(snake)@.segments.len() > 0,
    ensures
        final(snake)@ == old(snake)@.grown(),
{
    let head = snake.segments[0];
    snake.segments.push(head);
}

pub struct Game {
    snake: Snake,
    food_position: Option<Coordinates>,
    score: u32,
    state: GameState,
}

impl View for Game {
    type V = GameModel;

    closed spec fn view(&self) -> GameModel {
        GameModel {
            snake: self.snake@,
            food_position: self.food_position,
            score: self.score as nat,
            state: self.state,
        }
    }
}

impl Game {
    /// A game that is on, with the snake at the start position, no food
    /// and no score.
    pub fn new() -> (game: Game)
        ensures
            game@.wf(),
            game@ == new_game(game@.snake.last_move_time),
    {
        Game::new_at(now())
    }

    /// The new game whose snake has `now` as the time of its last move.
    pub fn new_at(now: Timestamp) -> (game: Game)
        ensures
            game@.wf(),
            game@ == new_game(now),
    {
        Game {
            snake: Snake::new_at(Coordinates::new(15, 8), now),
            food_position: None,
            score: 0,
            state: GameState::Playing,
        }
    }

    /// Whether the snake has a head that, while the game is on, is
    /// strictly between the walls: what a frame of the game starts from.
    pub fn is_well_formed(&self) -> (ok: bool)
        ensures
            ok == self@.wf(),
    {
        if self.snake.segments.len() == 0 {
            return false;
        }
        let head = self.snake.segments[0];
        match self.state {
            GameState::Playing => 0 < head.x && head.x < WALL_RIGHT && 0 < head.y && head.y
                < WALL_TOP,
            GameState::GameOver => true,
        }
    }

    pub fn snake(&self) -> (snake: &Snake)
        ensures
            snake@ == self@.snake,
    {
        &self.snake
    }

    pub fn food_position(&self) -> (food: Option<Coordinates>)
        ensures
            food == self@.food_position,
    {
        self.food_position
    }

    pub fn score(&self) -> (score: u32)
        ensures
            score == self@.score,
    {
        self.score
    }

    pub fn state(&self) -> (state: GameState)
        ensures
            state == self@.state,
    {
        self.state
    }
}

/// Lays the food at `food`.
pub fn place_food(game: &mut Game, food: Coordinates)
    ensures
        final(game)@ == (GameModel { food_position: Some(food), ..old(game)@ }),
{
    game.food_position = Some(food);
}

/// Lays the food at a random cell of the food range.
pub fn reset_food(game: &mut Game)
    ensures
        final(game)@.food_position is Some,
        food_range(final(game)@.food_position->0),
        final(game)@ == (GameModel { food_position: final(game)@.food_position, ..old(game)@ }),
{
    let mut rng = thread_rng();
    let x: i32 = gen_range(&mut rng, 2, 28);
    let y: i32 = gen_range(&mut rng, 2, 12);
    place_food(game, Coordinates::new(x, y));
}

/// Cuts the snake back to one segment at the start position.
fn reset_snake(snake: &mut Snake)
    ensures
        final(snake)@ == (SnakeModel { segments: seq![start_position()], ..old(snake)@ }),
{
    snake.segments.clear();
    snake.segments.push(Coordinates::new(15, 8));
    assert(snake.segments@ =~= seq![start_position()]);
}

/// Starts a new game after one is over.
pub fn reset_game(game: &mut Game)
    ensures
        final(game)@ == old(game)@.restarted(),
        final(game)@.wf(),
{
    reset_snake(&mut game.snake);
    game.score = 0;
    game.state = GameState::Playing;
}

/// Ends the game.
pub fn game_over(game: &mut Game)
    ensures
        final(game)@ == old(game)@.over(),
{
    game.food_position = None;
    game.snake.move_frequency = BASE_MOVE_FREQUENCY_MS;
    game.snake.direction = Direction::Still;
    game.state = GameState::GameOver;
}

/// The slowdown at a score.
fn slowdown_at(score: u32) -> (k: i64)
    ensures
        k == slowdown(score as nat),
        0 <= k <= 70,
{
    if score >= 22 {
        proof {
            lemma_slowdown_saturates(score as nat, 0);
        }
        return 70;
    }
    let s: u64 = score as u64;
    assert(s * s <= 441 && s * s * s <= 9261 && s * s * s * s <= 194481 && s * s * s * s * s
        <= 4084101 && s * s * s * s * s * s <= 85766121 && s * s * s * s * s * s * s
        <= 1801088541) by (nonlinear_arith)
        requires
            s <= 21,
    ;
    let target: u64 = s * s * s * s * s * s * s;
    let mut k: u64 = 0;
    while k < 70 && fifth(k + 1) <= target
        invariant
            k <= 70,
            target == seventh_power(score as nat),
            slowdown_from(score as nat, k as nat) == slowdown(score as nat),
        decreases 70 - k,
    {
        k += 1;
    }
    k as i64
}

/// The fifth power of a small number.
fn fifth(n: u64) -> (p: u64)
    requires
        n <= 70,
    ensures
        p == fifth_power(n as nat),
{
    assert(n * n <= 4900 && n * n * n <= 343000 && n * n * n * n <= 24010000 && n * n * n * n * n
        <= 1680700000) by (nonlinear_arith)
        requires
            n <= 70,
    ;
    n * n * n * n * n
}

/// The time between two moves at a score, in milliseconds: the base time
/// less the slowdown, which is capped so that the shortest time is kept.
pub fn move_frequency_at(score: u32) -> (millis: i64)
    ensures
        millis == move_frequency_for(score as nat),
        MAX_MOVE_FREQUENCY_MS <= millis <= BASE_MOVE_FREQUENCY_MS,
{
    BASE_MOVE_FREQUENCY_MS - slowdown_at(score)
}

/// Sets the time between two moves from the score.
pub fn calc_move_frequency(game: &mut Game)
    ensures
        final(game)@ == (GameModel {
            snake: SnakeModel {
                move_frequency: move_frequency_for(old(game)@.score) as i64,
                ..old(game)@.snake
            },
            ..old(game)@
        }),
        MAX_MOVE_FREQUENCY_MS <= final(game)@.snake.move_frequency <= BASE_MOVE_FREQUENCY_MS,
{
    game.snake.move_frequency = move_frequency_at(game.score);
}

/// The snake eats, and the next food lies at `food`.
pub fn collect_food_with(game: &mut Game, food: Coordinates)
    requires
        old(game)@.snake.segments.len() > 0,
        old(game)@.score < u32::MAX,
    ensures
        final(game)@ == old(game)@.fed(food),
{
    calc_move_frequency(game);
    place_food(game, food);
    grow_snake(&mut game.snake);
    game.score += 1;
}

/// The snake eats, and the next food lies at a random cell of the food
/// range.
pub fn collect_food(game: &mut Game)
    requires
        old(game)@.snake.segments.len() > 0,
        old(game)@.score < u32::MAX,
    ensures
        final(game)@.food_position is Some,
        food_range(final(game)@.food_position->0),
        final(game)@ == old(game)@.fed(final(game)@.food_position->0),
{
    calc_move_frequency(game);
    reset_food(game);
    grow_snake(&mut game.snake);
    game.score += 1;
}

/// Ends the game where the head is on a segment or a wall, and says
/// whether the head of a game that goes on is on the food.
fn check_collisions(game: &mut Game) -> (eats: bool)
    requires
        old(game)@.snake.segments.len() > 0,
    ensures
        final(game)@ == if old(game)@.hits_self() || old(game)@.hits_wall() {
            old(game)@.over()
        } else {
            old(game)@
        },
        eats == (final(game)@.food_position == Some(old(game)@.head())),
{
    let head: Coordinates = game.snake.segments[0];

    if game.snake.has_moved && game.snake.direction != Direction::Still {
        let mut on_segment = false;
        let mut i: usize = 1;
        while i < game.snake.segments.len()
            invariant
                1 <= i <= game.snake.segments.len(),
                game@ == old(game)@,
                head == game@.head(),
                on_segment == exists|j: int| 1 <= j < i && #[trigger] game@.snake.segments[j] == head,
            decreases game.snake.segments.len() - i,
        {
            if head == game.snake.segments[i] {
                on_segment = true;
            }
            i += 1;
        }
        if on_segment {
            game_over(game);
        }
        assert(on_segment == old(game)@.hits_self());
    }
    assert(game@ == if old(game)@.hits_self() { old(game)@.over() } else { old(game)@ });
    if head.x <= 0 || head.x >= WALL_RIGHT || head.y <= 0 || head.y >= WALL_TOP {
        game_over(game);
    }
    match game.food_position {
        Some(food) => head == food,
        None => false,
    }
}

/// Handles what the head ran into: a segment or a wall ends the game, and
/// the food of a game that goes on is eaten, with the next food at `food`.
pub fn handle_collision_with(game: &mut Game, food: Coordinates)
    requires
        old(game)@.snake.segments.len() > 0,
        old(game)@.score < u32::MAX,
    ensures
        final(game)@ == old(game)@.collided(food),
        final(game)@.wf(),
{
    if check_collisions(game) {
        collect_food_with(game, food);
    }
}

/// Handles what the head ran into: a segment or a wall ends the game, and
/// the food of a game that goes on is eaten, with the next food at a
/// random cell of the food range.
pub fn handle_collision(game: &mut Game)
    requires
        old(game)@.snake.segments.len() > 0,
        old(game)@.score < u32::MAX,
    ensures
        exists|food: Coordinates|
            food_range(food) && final(game)@ == #[trigger] old(game)@.collided(food),
        final(game)@.wf(),
{
    if check_collisions(game) {
        collect_food(game);
        proof {
            let food = game@.food_position->0;
            assert(game@ == old(game)@.collided(food));
        }
    } else {
        proof {
            let food = Coordinates { x: 2, y: 2 };
            assert(game@ == old(game)@.collided(food));
        }
    }
}

/// One frame of the snake at time `now`: it turns to a key pressed in the
/// frame, and if a move is due it moves one cell in its direction, each
/// segment following the one before it.
pub fn update_snake_at(input_man: &InputMan, game: &mut Game, now: Timestamp)
    requires
        old(game)@.snake.segments.len() > 0,
        i32::MIN < old(game)@.head().x < i32::MAX,
        i32::MIN < old(game)@.head().y < i32::MAX,
    ensures
        final(game)@ == (GameModel { snake: old(game)@.snake.moved(input_man@, now), ..old(game)@ }),
{
    if is_key_pressed(input_man, Key::W) {
        game.snake.direction = Direction::North;
    } else if is_key_pressed(input_man, Key::A) {
        game.snake.direction = Direction::West;
    } else if is_key_pressed(input_man, Key::S) {
        game.snake.direction = Direction::South;
    } else if is_key_pressed(input_man, Key::D) {
        game.snake.direction = Direction::East;
    }

    assert(game.snake.direction == steer(old(game)@.snake.direction, input_man@));
    if now.is_more_than_after(&game.snake.last_move_time, game.snake.move_frequency) {
        game.snake.last_move_time = now;

        if game.snake.direction != Direction::Still {
            let ghost turned = game@;
            let ghost before = game.snake.segments@;
            let mut i: usize = game.snake.segments.len() - 1;
            while i > 0
                invariant
                    game@ == (GameModel {
                        snake: SnakeModel { segments: game@.snake.segments, ..turned.snake },
                        ..turned
                    }),
                    i < game.snake.segments.len(),
                    game.snake.segments.len() == before.len(),
                    forall|j: int| 0 <= j <= i ==> game.snake.segments[j] == before[j],
                    forall|j: int| i < j < before.len() ==> game.snake.segments[j] == before[j - 1],
                decreases i,
            {
                let next_segment = game.snake.segments[i - 1];
                game.snake.segments.set(i, next_segment);
                i -= 1;
            }
            let head = game.snake.segments[0];
            let moved_head = match game.snake.direction {
                Direction::North => Coordinates { x: head.x, y: head.y + 1 },
                Direction::South => Coordinates { x: head.x, y: head.y - 1 },
                Direction::East => Coordinates { x: head.x + 1, y: head.y },
                Direction::West => Coordinates { x: head.x - 1, y: head.y },
                Direction::Still => head,
            };
            game.snake.segments.set(0, moved_head);
            assert(game.snake.segments@ =~= shifted(before).update(0, step(before[0], game.snake.direction)));
        }
        game.snake.has_moved = true;
        assert(game@.snake == old(game)@.snake.moved(input_man@, now));
    } else {
        game.snake.has_moved = false;
        assert(game@.snake == old(game)@.snake.moved(input_man@, now));
    }
}

/// One frame of the snake at the clock's time.
pub fn update_snake(input_man: &InputMan, game: &mut Game)
    requires
        old(game)@.snake.segments.len() > 0,
        i32::MIN < old(game)@.head().x < i32::MAX,
        i32::MIN < old(game)@.head().y < i32::MAX,
    ensures
        exists|now: Timestamp|
            final(game)@ == (GameModel {
                snake: #[trigger] old(game)@.snake.moved(input_man@, now),
                ..old(game)@
            }),
{
    update_snake_at(input_man, game, now());
}

/// One frame of the game at time `now`; should the snake eat in it, the
/// next food lies at `food`.
pub fn update_at(input_man: &InputMan, game: &mut Game, now: Timestamp, food: Coordinates)
    requires
        old(game)@.wf(),
        old(game)@.score < u32::MAX,
    ensures
        final(game)@ == old(game)@.updated(input_man@, now, food),
        final(game)@.wf(),
{
    match game.state {
        GameState::Playing => {
            update_snake_at(input_man, game, now);
            handle_collision_with(game, food);
        },
        GameState::GameOver => {
            if is_key_pressed(input_man, Key::Space) {
                reset_game(game);
            }
        },
    }
}

/// One frame of the game at the clock's time; should the snake eat in it,
/// the next food lies at a random cell of the food range.
pub fn update(input_man: &InputMan, game: &mut Game)
    requires
        old(game)@.wf(),
        old(game)@.score < u32::MAX,
    ensures
        exists|now: Timestamp, food: Coordinates|
            food_range(food) && final(game)@ == #[trigger] old(game)@.updated(
                input_man@,
                now,
                food,
            ),
        final(game)@.wf(),
{
    match game.state {
        GameState::Playing => {
            update_snake(input_man, game);
            let ghost moved = game@;
            handle_collision(game);
            proof {
                let now = choose|now: Timestamp|
                    moved == (GameModel {
                        snake: #[trigger] old(game)@.snake.moved(input_man@, now),
                        ..old(game)@
                    });
                let food = choose|food: Coordinates|
                    food_range(food) && game@ == #[trigger] moved.collided(food);
                assert(game@ == old(game)@.updated(input_man@, now, food));
            }
        },
        GameState::GameOver => {
            if is_key_pressed(input_man, Key::Space) {
                reset_game(game);
            }
            proof {
                let now = Timestamp { sec: 0, nsec: 0 };
                let food = Coordinates { x: 2, y: 2 };
                assert(game@ == old(game)@.updated(input_man@, now, food));
            }
        },
    }
}

/// Draws each segment of the snake, head first.
pub fn render_snake(renderer: &mut Renderer, snake: &Snake)
    requires
        old(renderer).wf(),
    ensures
        final(renderer).wf(),
        final(renderer)@ == put_segments(old(renderer)@, snake@.segments),
        written(old(renderer)@, final(renderer)@),
        final(renderer).mesh() == old(renderer).mesh(),
        final(renderer).meshed() == old(renderer).meshed(),
        old(renderer).in_sync() ==> final(renderer).in_sync(),
{
    let mut i: usize = 0;
    while i < snake.segments.len()
        invariant
            i <= snake.segments.len(),
            renderer.wf(),
            renderer@ == put_segments(old(renderer)@, snake@.segments.take(i as int)),
            written(old(renderer)@, renderer@),
            renderer.mesh() == old(renderer).mesh(),
            renderer.meshed() == old(renderer).meshed(),
            old(renderer).in_sync() ==> renderer.in_sync(),
        decreases snake.segments.len() - i,
    {
        proof {
            assert(snake@.segments.take(i + 1).drop_last() == snake@.segments.take(i as int));
        }
        let segment = snake.segments[i];
        draw_cell(renderer, segment.x, segment.y, sprite_snake());
        i += 1;
    }
    proof {
        assert(snake@.segments.take(snake@.segments.len() as int) == snake@.segments);
    }
}

/// Draws the frame of the game onto the grid: the snake, the food, the
/// score in the row above the box, the box around the field, and in the
/// bottom row of the field the hint that fits the state of the game.
pub fn render(renderer: &mut Renderer, game: &Game)
    requires
        old(renderer).wf(),
    ensures
        final(renderer).wf(),
        final(renderer)@ == drawn(old(renderer)@, game@),
        written(old(renderer)@, final(renderer)@),
        final(renderer).mesh() == old(renderer).mesh(),
        final(renderer).meshed() == old(renderer).meshed(),
        old(renderer).in_sync() ==> final(renderer).in_sync(),
{
    render_snake(renderer, &game.snake);

    match game.food_position {
        Some(food_position) => {
            draw_cell(renderer, food_position.x, food_position.y, sprite_food());
        },
        None => {},
    }

    let ghost before_score = renderer@;
    draw_string(renderer, 1, 14, "SCORE: ");
    draw_number(renderer, 8, 14, game.score);
    proof {
        reveal_strlit("SCORE: ");
        lemma_put_string_concat(before_score, 1, 14, "SCORE: "@, decimal(game@.score));
    }

    draw_box(renderer, 0, 0, 29, 14);

    if game.state == GameState::GameOver {
        draw_string(renderer, 1, 1, "Press SPACE to play again.");
    } else if game.snake.direction == Direction::Still {
        draw_string(renderer, 1, 1, "Use the WASD keys to move.");
    }
}

/// The generator of the calling thread, from `rand::thread_rng`. Nothing is
/// claimed of it.
#[verifier::external_body]
fn thread_rng() -> rand::ThreadRng {
    rand::thread_rng()
}

/// `Rng::gen_range` of the `rand` crate on the thread's generator, for
/// `i32`: some value from `low` up to but not including `high`. Which one is
/// left open. The call panics where `low` is not below `high`.
#[verifier::external_body]
fn gen_range(rng: &mut rand::ThreadRng, low: i32, high: i32) -> (value: i32)
    requires
        low < high,
    ensures
        low <= value < high,
{
    rand::Rng::gen_range(rng, low, high)
}

} // verus!
