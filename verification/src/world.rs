//! The grid world: a snake, its food, and the network that steers it.
//!
//! Everything here is plain state and rules; drawing and input handling live
//! with the caller, which hands in key presses and reads positions out.
use crate::decision::{arg_max, arg_max_of};
use crate::error::NetworkError;
use crate::model::NetworkModel;
use crate::network::Network;
use crate::scalar::Scalar;
use rand::Rng;
use std::collections::VecDeque;
use vstd::prelude::*;

verus! {

/// The direction the snake moves in.
#[derive(Clone, Copy, Debug, PartialEq, Eq, Structural)]
pub enum Direction {
    UP,
    DOWN,
    LEFT,
    RIGHT,
}

/// A key press, as far as the game tells keys apart.
#[derive(Clone, Copy, Debug, PartialEq, Eq, Structural)]
pub enum Key {
    Up,
    Left,
    Right,
    Down,
    Other,
}

/// What the snake senses in one neighbouring cell.
#[derive(Clone, Copy, Debug, PartialEq, Eq, Structural)]
pub enum Reading {
    /// A wall or the snake's own body.
    Negative,
    /// Nothing.
    Neutral,
    /// Food.
    Positive,
}

/// One cell of the snake's body: column, then row.
#[derive(Clone, Copy, Debug, PartialEq, Eq, Structural)]
pub struct SnakePiece(pub u32, pub u32);

/// The snake: its cells from head to tail, the edge length of a cell in
/// pixels, and its heading.
pub struct Snake {
    pub snake_parts: VecDeque<SnakePiece>,
    pub width: u32,
    pub d: Direction,
}

/// The cell that holds the food.
#[derive(Clone, Copy, Debug, PartialEq, Eq, Structural)]
pub struct Food {
    pub x: u32,
    pub y: u32,
}

/// The cell the network would move the head to.
#[derive(Clone, Copy, Debug, PartialEq, Eq, Structural)]
pub struct SuggestedDirection {
    pub x: u32,
    pub y: u32,
}

/// Some cell of `parts` lies at `(x, y)`.
pub open spec fn occupied(parts: Seq<SnakePiece>, x: int, y: int) -> bool {
    exists|k: int| 0 <= k < parts.len() && (#[trigger] parts[k]).0 == x && parts[k].1 == y
}

/// The coordinate before `v`, or zero where there is none.
pub open spec fn before(v: int) -> int {
    if v == 0 {
        0
    } else {
        v - 1
    }
}

/// What a cell reads as: an obstacle hides anything else.
pub open spec fn reading(blocked: bool, baited: bool) -> Reading {
    if blocked {
        Reading::Negative
    } else if baited {
        Reading::Positive
    } else {
        Reading::Neutral
    }
}

/// The eight readings around the head `(hx, hy)`, row by row from the top
/// left to the bottom right, for food at `(fx, fy)` on a grid of `cols` by
/// `rows`.
pub open spec fn surroundings(
    parts: Seq<SnakePiece>,
    hx: int,
    hy: int,
    fx: int,
    fy: int,
    cols: int,
    rows: int,
) -> Seq<Reading> {
    seq![
        reading(
            hx == 0 || hy == 0 || occupied(parts, before(hx), before(hy)),
            before(hx) == fx && before(hy) == fy,
        ),
        reading(hy == 0 || occupied(parts, hx, before(hy)), hx == fx && before(hy) == fy),
        reading(
            hy == 0 || hx + 1 == cols || occupied(parts, hx + 1, hy),
            hx + 1 == fx && before(hy) == fy,
        ),
        reading(hx == 0 || occupied(parts, before(hx), hy), before(hx) == fx && hy == fy),
        reading(
            hx + 1 == cols || hy == rows || occupied(parts, hx + 1, hy),
            hx + 1 == fx && hy == fy,
        ),
        reading(
            hx == 0 || hy + 1 == rows || occupied(parts, before(hx), hy + 1),
            before(hx) == fx && hy + 1 == fy,
        ),
        reading(
            hx == cols || hy + 1 == rows || occupied(parts, hx, hy + 1),
            hx == fx && hy + 1 == fy,
        ),
        reading(
            hx + 1 == cols || hy + 1 == rows || occupied(parts, hx + 1, hy + 1),
            hx + 1 == fx && hy + 1 == fy,
        ),
    ]
}

/// A reading as a network input: minus one, zero or one.
pub open spec fn encoded<T: Scalar>(r: Reading) -> T {
    match r {
        Reading::Negative => T::zero_value().difference(T::unit_value()),
        Reading::Neutral => T::zero_value(),
        Reading::Positive => T::unit_value(),
    }
}

/// The network input for the state of the game: the eight readings around
/// the head, encoded.
pub open spec fn environment_of<T: Scalar>(
    parts: Seq<SnakePiece>,
    food: Food,
    cols: u32,
    rows: u32,
) -> Seq<T> {
    surroundings(
        parts,
        parts[0].0 as int,
        parts[0].1 as int,
        food.x as int,
        food.y as int,
        cols as int,
        rows as int,
    ).map_values(|r: Reading| encoded::<T>(r))
}

/// The output slot a key press asks for, if it asks for any: a key that
/// would reverse the snake asks for none.
pub open spec fn wanted_slot(key: Key, heading: Direction) -> Option<int> {
    match key {
        Key::Up => if heading != Direction::DOWN {
            Some(0int)
        } else {
            None
        },
        Key::Left => if heading != Direction::RIGHT {
            Some(1int)
        } else {
            None
        },
        Key::Right => if heading != Direction::LEFT {
            Some(2int)
        } else {
            None
        },
        Key::Down => if heading != Direction::UP {
            Some(3int)
        } else {
            None
        },
        Key::Other => None,
    }
}

/// The training target for a key press: four slots, one where the key
/// points and zero elsewhere.
pub open spec fn target_of<T: Scalar>(key: Key, heading: Direction) -> Seq<T> {
    Seq::new(
        4,
        |i: int|
            if wanted_slot(key, heading) == Some(i) {
                T::unit_value()
            } else {
                T::zero_value()
            },
    )
}

/// The heading after the network chose output slot `choice`: up, left,
/// right, down for slots zero to three, except that the snake never
/// reverses; any other slot keeps the heading.
pub open spec fn steered(choice: int, heading: Direction) -> Direction {
    if choice == 0 && heading != Direction::DOWN {
        Direction::UP
    } else if choice == 1 && heading != Direction::RIGHT {
        Direction::LEFT
    } else if choice == 2 && heading != Direction::LEFT {
        Direction::RIGHT
    } else if choice == 3 && heading != Direction::UP {
        Direction::DOWN
    } else {
        heading
    }
}

/// Whether a head at `(hx, hy)` that moves on in `heading` leaves the grid.
pub open spec fn at_border(hx: int, hy: int, heading: Direction, cols: int, rows: int) -> bool {
    match heading {
        Direction::UP => hy == 0,
        Direction::LEFT => hx == 0,
        Direction::DOWN => hy == rows - 1,
        Direction::RIGHT => hx == cols - 1,
    }
}

/// The cell one step from `(hx, hy)` in `heading`.
pub open spec fn ahead(hx: int, hy: int, heading: Direction) -> (int, int) {
    match heading {
        Direction::UP => (hx, hy - 1),
        Direction::DOWN => (hx, hy + 1),
        Direction::LEFT => (hx - 1, hy),
        Direction::RIGHT => (hx + 1, hy),
    }
}

/// The body that the head meets when it moves: the tail leaves first
/// unless the snake has just eaten.
pub open spec fn trailing(parts: Seq<SnakePiece>, just_eaten: bool) -> Seq<SnakePiece> {
    if just_eaten {
        parts
    } else {
        parts.drop_last()
    }
}

/// Whether the snake survives one step.
pub open spec fn survives(
    parts: Seq<SnakePiece>,
    heading: Direction,
    just_eaten: bool,
    cols: int,
    rows: int,
) -> bool {
    let hx = parts[0].0 as int;
    let hy = parts[0].1 as int;
    let next = ahead(hx, hy, heading);
    !at_border(hx, hy, heading, cols, rows) && !occupied(
        trailing(parts, just_eaten),
        next.0,
        next.1,
    )
}

/// The snake's cells after one step: unchanged at the border; without the
/// tail where the head runs into the body; else with the new head in front.
pub open spec fn stepped(
    parts: Seq<SnakePiece>,
    heading: Direction,
    just_eaten: bool,
    cols: int,
    rows: int,
) -> Seq<SnakePiece> {
    let hx = parts[0].0 as int;
    let hy = parts[0].1 as int;
    let next = ahead(hx, hy, heading);
    if at_border(hx, hy, heading, cols, rows) {
        parts
    } else if occupied(trailing(parts, just_eaten), next.0, next.1) {
        trailing(parts, just_eaten)
    } else {
        seq![SnakePiece(next.0 as u32, next.1 as u32)] + trailing(parts, just_eaten)
    }
}

/// The inputs on which one step of the snake is defined: there is a head,
/// and the step does not leave the range of the coordinates.
pub open spec fn can_step(parts: Seq<SnakePiece>, heading: Direction, cols: int, rows: int) -> bool {
    &&& parts.len() > 0
    &&& heading == Direction::DOWN ==> rows > 0 && parts[0].1 < u32::MAX
    &&& heading == Direction::RIGHT ==> cols > 0 && parts[0].0 < u32::MAX
}

/// The network input for a reading.
fn encode<T: Scalar>(r: Reading) -> (x: T)
    ensures
        x == encoded::<T>(r),
{
    match r {
        Reading::Negative => T::zero().minus(T::one()),
        Reading::Neutral => T::zero(),
        Reading::Positive => T::one(),
    }
}

/// What a cell reads as.
fn read(blocked: bool, baited: bool) -> (r: Reading)
    ensures
        r == reading(blocked, baited),
{
    if blocked {
        Reading::Negative
    } else if baited {
        Reading::Positive
    } else {
        Reading::Neutral
    }
}

/// The coordinate before `v`, or zero where there is none.
fn step_back(v: u64) -> (r: u64)
    ensures
        r == before(v as int),
{
    if v == 0 {
        0
    } else {
        v - 1
    }
}

/// The heading after the network chose output slot `choice`.
pub fn steer(choice: usize, heading: Direction) -> (d: Direction)
    ensures
        d == steered(choice as int, heading),
{
    if choice == 0 && heading != Direction::DOWN {
        Direction::UP
    } else if choice == 1 && heading != Direction::RIGHT {
        Direction::LEFT
    } else if choice == 2 && heading != Direction::LEFT {
        Direction::RIGHT
    } else if choice == 3 && heading != Direction::UP {
        Direction::DOWN
    } else {
        heading
    }
}

/// The training target for a key press.
pub fn target_for<T: Scalar>(key: Key, heading: Direction) -> (target: Vec<T>)
    ensures
        target@ == target_of::<T>(key, heading),
{
    let slot: usize = match key {
        Key::Up => if heading != Direction::DOWN {
            0
        } else {
            4
        },
        Key::Left => if heading != Direction::RIGHT {
            1
        } else {
            4
        },
        Key::Right => if heading != Direction::LEFT {
            2
        } else {
            4
        },
        Key::Down => if heading != Direction::UP {
            3
        } else {
            4
        },
        Key::Other => 4,
    };
    let mut target: Vec<T> = Vec::new();
    let mut i: usize = 0;
    while i < 4
        invariant
            i <= 4,
            target@.len() == i,
            slot < 4 ==> wanted_slot(key, heading) == Some(slot as int),
            slot >= 4 ==> wanted_slot(key, heading) == None::<int>,
            forall|k: int| 0 <= k < i ==> #[trigger] target@[k] == target_of::<T>(key, heading)[k],
        decreases 4 - i,
    {
        if i == slot {
            target.push(T::one());
        } else {
            target.push(T::zero());
        }
        i = i + 1;
    }
    assert(target@ =~= target_of::<T>(key, heading));
    target
}

impl Snake {
    /// Whether some cell of the snake lies at `(x, y)`, for coordinates that
    /// may lie one past the range of a cell's own.
    fn covers(&self, x: u64, y: u64) -> (hit: bool)
        ensures
            hit == occupied(self.snake_parts@, x as int, y as int),
    {
        let mut k: usize = 0;
        while k < self.snake_parts.len()
            invariant
                k <= self.snake_parts@.len(),
                forall|q: int|
                    0 <= q < k ==> !((#[trigger] self.snake_parts@[q]).0 == x
                        && self.snake_parts@[q].1 == y),
            decreases self.snake_parts@.len() - k,
        {
            let p = self.snake_parts[k];
            if p.0 as u64 == x && p.1 as u64 == y {
                return true;
            }
            k = k + 1;
        }
        false
    }

    /// Whether some cell of the snake lies at `(x, y)`.
    pub fn is_collide(&self, x: u32, y: u32) -> (hit: bool)
        ensures
            hit == occupied(self.snake_parts@, x as int, y as int),
    {
        self.covers(x as u64, y as u64)
    }

    /// What the head senses around it, as a network input.
    pub fn environment<T: Scalar>(&self, food: &Food, cols: u32, rows: u32) -> (env: Vec<T>)
        requires
            self.snake_parts@.len() > 0,
        ensures
            env@ == environment_of::<T>(self.snake_parts@, *food, cols, rows),
            env@.len() == 8,
    {
        let front = self.snake_parts[0];
        let hx = front.0 as u64;
        let hy = front.1 as u64;
        let fx = food.x as u64;
        let fy = food.y as u64;
        let cols = cols as u64;
        let rows = rows as u64;
        let left = step_back(hx);
        let up = step_back(hy);
        let right = hx + 1;
        let down = hy + 1;
        let mut env: Vec<T> = Vec::new();
        env.push(encode(read(hx == 0 || hy == 0 || self.covers(left, up), left == fx && up == fy)));
        env.push(encode(read(hy == 0 || self.covers(hx, up), hx == fx && up == fy)));
        env.push(
            encode(read(hy == 0 || right == cols || self.covers(right, hy), right == fx && up == fy)),
        );
        env.push(encode(read(hx == 0 || self.covers(left, hy), left == fx && hy == fy)));
        env.push(
            encode(
                read(right == cols || hy == rows || self.covers(right, hy), right == fx && hy == fy),
            ),
        );
        env.push(
            encode(read(hx == 0 || down == rows || self.covers(left, down), left == fx && down == fy)),
        );
        env.push(
            encode(read(hx == cols || down == rows || self.covers(hx, down), hx == fx && down == fy)),
        );
        env.push(
            encode(
                read(
                    right == cols || down == rows || self.covers(right, down),
                    right == fx && down == fy,
                ),
            ),
        );
        assert(env@ =~= environment_of::<T>(self.snake_parts@, *food, cols as u32, rows as u32));
        env
    }

    /// Moves the snake one step in its heading. At the border nothing
    /// moves; where the head would run into the body, only the tail leaves
    /// (unless the snake has just eaten). Returns whether the snake is still
    /// alive.
    pub fn update(&mut self, just_eaten: bool, cols: u32, rows: u32) -> (alive: bool)
        requires
            can_step(old(self).snake_parts@, old(self).d, cols as int, rows as int),
        ensures
            alive == survives(
                old(self).snake_parts@,
                old(self).d,
                just_eaten,
                cols as int,
                rows as int,
            ),
            final(self).snake_parts@ == stepped(
                old(self).snake_parts@,
                old(self).d,
                just_eaten,
                cols as int,
                rows as int,
            ),
            final(self).d == old(self).d,
            final(self).width == old(self).width,
            final(self).snake_parts@.len() > 0,
    {
        let front = self.snake_parts[0];
        let blocked = match self.d {
            Direction::UP => front.1 == 0,
            Direction::LEFT => front.0 == 0,
            Direction::DOWN => front.1 == rows - 1,
            Direction::RIGHT => front.0 == cols - 1,
        };
        if blocked {
            return false;
        }
        let new_front = match self.d {
            Direction::UP => SnakePiece(front.0, front.1 - 1),
            Direction::DOWN => SnakePiece(front.0, front.1 + 1),
            Direction::LEFT => SnakePiece(front.0 - 1, front.1),
            Direction::RIGHT => SnakePiece(front.0 + 1, front.1),
        };
        let ghost parts = self.snake_parts@;
        if !just_eaten {
            self.snake_parts.pop_back();
        }
        assert(self.snake_parts@ =~= trailing(parts, just_eaten));
        if self.is_collide(new_front.0, new_front.1) {
            assert(self.snake_parts@.len() > 0);
            return false;
        }
        self.snake_parts.push_front(new_front);
        assert(self.snake_parts@ =~= seq![new_front] + trailing(parts, just_eaten));
        true
    }
}

/// Whether cell number `c`, counted row by row on a grid `cols` wide, is
/// free of the snake.
pub open spec fn free_at(parts: Seq<SnakePiece>, cols: int, c: int) -> bool {
    !occupied(parts, c % cols, c / cols)
}

/// The number of free cells among the first `n` cells, counted row by row.
pub open spec fn free_before(parts: Seq<SnakePiece>, cols: int, n: nat) -> nat
    decreases n,
{
    if n == 0 {
        0
    } else {
        free_before(parts, cols, (n - 1) as nat) + if free_at(parts, cols, n - 1) {
            1nat
        } else {
            0nat
        }
    }
}

/// The number of free cells on the whole grid.
pub open spec fn free_on_grid(parts: Seq<SnakePiece>, cols: u32, rows: u32) -> nat {
    free_before(parts, cols as int, (cols * rows) as nat)
}

/// `(x, y)` is free cell number `pick` (from zero) of the grid, counted row
/// by row.
pub open spec fn is_free_cell_number(
    parts: Seq<SnakePiece>,
    cols: u32,
    rows: u32,
    pick: int,
    x: int,
    y: int,
) -> bool {
    &&& 0 <= x < cols
    &&& 0 <= y < rows
    &&& !occupied(parts, x, y)
    &&& free_before(parts, cols as int, (y * cols + x) as nat) == pick
}

/// Counting further never loses a free cell, and counts at most one per
/// cell.
proof fn lemma_free_before_grows(parts: Seq<SnakePiece>, cols: int, a: nat, b: nat)
    requires
        a <= b,
    ensures
        free_before(parts, cols, a) <= free_before(parts, cols, b) <= free_before(parts, cols, a)
            + (b - a),
    decreases b - a,
{
    if a < b {
        lemma_free_before_grows(parts, cols, a, (b - 1) as nat);
    }
}

/// A number below `bound`, drawn by `rand::Rng::gen_range` from the
/// thread-local generator `rand::thread_rng`. Believed, not proved: the
/// result lies in the half-open range `0..bound`, which the generator
/// documents for every draw; nothing is said about which number comes. The
/// range must not be empty, or `gen_range` panics.
#[verifier::external_body]
fn random_below(bound: u64) -> (r: u64)
    requires
        bound > 0,
    ensures
        r < bound,
{
    rand::thread_rng().gen_range(0..bound)
}

/// The number of cells of the grid that the snake does not cover.
pub fn free_cells(s: &Snake, cols: u32, rows: u32) -> (n: u64)
    ensures
        n == free_on_grid(s.snake_parts@, cols, rows),
{
    let mut n: u64 = 0;
    let mut y: u32 = 0;
    while y < rows
        invariant
            y <= rows,
            n == free_before(s.snake_parts@, cols as int, (y * cols) as nat),
            n <= y * cols,
        decreases rows - y,
    {
        let mut x: u32 = 0;
        while x < cols
            invariant
                y < rows,
                x <= cols,
                n == free_before(s.snake_parts@, cols as int, (y * cols + x) as nat),
                n <= y * cols + x,
            decreases cols - x,
        {
            proof {
                crate::grid::lemma_row_major(y as int, x as int, rows as int, cols as int);
                assert(y * cols + x < rows * cols <= 0xffff_ffff * 0xffff_ffff) by (nonlinear_arith)
                    requires
                        y * cols + x < rows * cols,
                        rows <= 0xffff_ffff,
                        cols <= 0xffff_ffff,
                ;
            }
            if !s.is_collide(x, y) {
                n = n + 1;
            }
            x = x + 1;
        }
        assert(y * cols + cols == (y + 1) * cols) by (nonlinear_arith);
        y = y + 1;
    }
    assert(y * cols == cols * rows) by (nonlinear_arith)
        requires
            y == rows,
    ;
    n
}

/// Free cell number `pick` (from zero) of the grid, counted row by row, if
/// the grid has that many free cells.
pub fn nth_free_cell(s: &Snake, cols: u32, rows: u32, pick: u64) -> (cell: Option<(u32, u32)>)
    ensures
        match cell {
            Some((x, y)) => is_free_cell_number(
                s.snake_parts@,
                cols,
                rows,
                pick as int,
                x as int,
                y as int,
            ),
            None => free_on_grid(s.snake_parts@, cols, rows) <= pick,
        },
{
    let mut n: u64 = 0;
    let mut y: u32 = 0;
    while y < rows
        invariant
            y <= rows,
            n == free_before(s.snake_parts@, cols as int, (y * cols) as nat),
            n <= pick,
        decreases rows - y,
    {
        let mut x: u32 = 0;
        while x < cols
            invariant
                y < rows,
                x <= cols,
                n == free_before(s.snake_parts@, cols as int, (y * cols + x) as nat),
                n <= pick,
            decreases cols - x,
        {
            proof {
                crate::grid::lemma_row_major(y as int, x as int, rows as int, cols as int);
            }
            if !s.is_collide(x, y) {
                if n == pick {
                    return Some((x, y));
                }
                n = n + 1;
            }
            x = x + 1;
        }
        assert(y * cols + cols == (y + 1) * cols) by (nonlinear_arith);
        y = y + 1;
    }
    assert(y * cols == cols * rows) by (nonlinear_arith)
        requires
            y == rows,
    ;
    None
}

/// How the food may lie after the snake's head came to `(hx, hy)`:
/// untouched unless the head reached it; then on a free cell of the grid, or
/// untouched where the grid has no free cell.
pub open spec fn food_follows(
    earlier: Food,
    later: Food,
    parts: Seq<SnakePiece>,
    cols: u32,
    rows: u32,
) -> bool {
    if parts[0].0 == earlier.x && parts[0].1 == earlier.y && free_on_grid(parts, cols, rows) > 0 {
        later.x < cols && later.y < rows && !occupied(parts, later.x as int, later.y as int)
    } else {
        later == earlier
    }
}

impl Food {
    /// Moves the food to free cell number `pick` of the grid, counted row by
    /// row from zero, and says whether there was such a cell.
    pub fn relocate(&mut self, s: &Snake, cols: u32, rows: u32, pick: u64) -> (moved: bool)
        ensures
            moved == (pick < free_on_grid(s.snake_parts@, cols, rows)),
            moved ==> is_free_cell_number(
                s.snake_parts@,
                cols,
                rows,
                pick as int,
                final(self).x as int,
                final(self).y as int,
            ),
            !moved ==> *final(self) == *old(self),
    {
        match nth_free_cell(s, cols, rows, pick) {
            Some((x, y)) => {
                proof {
                    crate::grid::lemma_row_major(y as int, x as int, rows as int, cols as int);
                    assert(y * cols + x < rows * cols == cols * rows) by (nonlinear_arith)
                        requires
                            y * cols + x < rows * cols,
                    ;
                    lemma_free_before_grows(
                        s.snake_parts@,
                        cols as int,
                        (y * cols + x + 1) as nat,
                        (cols * rows) as nat,
                    );
                }
                self.x = x;
                self.y = y;
                true
            },
            None => false,
        }
    }

    /// Says whether the snake's head has reached the food, and if so moves
    /// the food to a free cell drawn at random, each free cell being as
    /// likely as any other. Where the snake covers the whole grid the food
    /// stays.
    pub fn update(&mut self, s: &Snake, cols: u32, rows: u32) -> (eaten: bool)
        requires
            s.snake_parts@.len() > 0,
        ensures
            eaten == (s.snake_parts@[0].0 == old(self).x && s.snake_parts@[0].1 == old(self).y),
            food_follows(*old(self), *final(self), s.snake_parts@, cols, rows),
    {
        let front = s.snake_parts[0];
        if front.0 == self.x && front.1 == self.y {
            let free = free_cells(s, cols, rows);
            if free > 0 {
                let pick = random_below(free);
                self.relocate(s, cols, rows, pick);
            }
            true
        } else {
            false
        }
    }
}

/// The coordinate after `v`, or the last one where there is none.
pub open spec fn after(v: int) -> int {
    if v == u32::MAX {
        v
    } else {
        v + 1
    }
}

/// The cell next to `(hx, hy)` that output slot `choice` points at: up,
/// left, right, down for slots zero to three, never past the range of the
/// coordinates; the head's own cell for any other slot.
pub open spec fn suggested(choice: int, hx: int, hy: int) -> (int, int) {
    if choice == 0 {
        (hx, before(hy))
    } else if choice == 1 {
        (before(hx), hy)
    } else if choice == 2 {
        (after(hx), hy)
    } else if choice == 3 {
        (hx, after(hy))
    } else {
        (hx, hy)
    }
}

/// The cell the network points at for a snake with cells `parts`.
pub open spec fn suggestion_of<T: Scalar>(
    net: NetworkModel<T>,
    parts: Seq<SnakePiece>,
    food: Food,
    cols: u32,
    rows: u32,
) -> (int, int) {
    suggested(
        arg_max_of(net.output(environment_of::<T>(parts, food, cols, rows))),
        parts[0].0 as int,
        parts[0].1 as int,
    )
}

impl SuggestedDirection {
    /// Asks the network where to go from here and remembers the cell it
    /// points at. Fails with `DimensionMismatch`, and remembers nothing new,
    /// unless the network takes the eight readings as its input.
    pub fn update<T: Scalar, F: Fn(T) -> T, D: Fn(T) -> T>(
        &mut self,
        s: &Snake,
        food: &Food,
        cols: u32,
        rows: u32,
        network: &Network<T, F, D>,
    ) -> (r: Result<(), NetworkError>)
        requires
            s.snake_parts@.len() > 0,
        ensures
            match r {
                Ok(_) => {
                    &&& network@.input_size() == 8
                    &&& (final(self).x as int, final(self).y as int) == suggestion_of(
                        network@,
                        s.snake_parts@,
                        *food,
                        cols,
                        rows,
                    )
                },
                Err(e) => {
                    &&& e == NetworkError::DimensionMismatch
                    &&& network@.input_size() != 8
                    &&& *final(self) == *old(self)
                },
            },
    {
        let front = s.snake_parts[0];
        let environment = s.environment::<T>(food, cols, rows);
        let sizes = network.layer_sizes();
        let output = match network.feed_forward(environment) {
            Ok(output) => output,
            Err(e) => {
                return Err(e);
            },
        };
        let choice = match arg_max(&output) {
            Ok(choice) => choice,
            Err(e) => {
                return Err(e);
            },
        };
        if choice == 0 {
            self.x = front.0;
            self.y = front.1.saturating_sub(1);
        } else if choice == 1 {
            self.x = front.0.saturating_sub(1);
            self.y = front.1;
        } else if choice == 2 {
            self.x = front.0.saturating_add(1);
            self.y = front.1;
        } else if choice == 3 {
            self.x = front.0;
            self.y = front.1.saturating_add(1);
        } else {
            self.x = front.0;
            self.y = front.1;
        }
        Ok(())
    }
}

/// The whole game: the grid, what lies on it, the score, and the network
/// that plays.
#[verifier::reject_recursive_types(T)]
pub struct World<T: Scalar, F: Fn(T) -> T, D: Fn(T) -> T> {
    pub rows: u32,
    pub cols: u32,
    pub snake: Snake,
    pub just_eaten: bool,
    pub square_width: u32,
    pub food: Food,
    pub suggested_direction: SuggestedDirection,
    pub score: u32,
    pub network: Network<T, F, D>,
}

/// A copy of `v`.
fn copy_of<T: Copy>(v: &Vec<T>) -> (c: Vec<T>)
    ensures
        c@ == v@,
{
    let mut c: Vec<T> = Vec::new();
    let mut i: usize = 0;
    while i < v.len()
        invariant
            i <= v@.len(),
            c@.len() == i,
            forall|k: int| 0 <= k < i ==> #[trigger] c@[k] == v@[k],
        decreases v@.len() - i,
    {
        c.push(v[i]);
        i = i + 1;
    }
    assert(c@ =~= v@);
    c
}

impl<T: Scalar, F: Fn(T) -> T, D: Fn(T) -> T> World<T, F, D> {
    /// What the network is shown in this state of the game.
    pub open spec fn environment(&self) -> Seq<T> {
        environment_of::<T>(self.snake.snake_parts@, self.food, self.cols, self.rows)
    }

    /// Everything but the network and the snake's heading is as in
    /// `earlier`.
    pub open spec fn same_board_as(&self, earlier: &Self) -> bool {
        &&& self.rows == earlier.rows
        &&& self.cols == earlier.cols
        &&& self.snake.snake_parts@ == earlier.snake.snake_parts@
        &&& self.snake.width == earlier.snake.width
        &&& self.just_eaten == earlier.just_eaten
        &&& self.square_width == earlier.square_width
        &&& self.food == earlier.food
        &&& self.suggested_direction == earlier.suggested_direction
        &&& self.score == earlier.score
    }

    /// The inputs on which one tick of the game is defined: the snake can
    /// step, and the score has room for the point it may get.
    pub open spec fn can_update(&self) -> bool {
        &&& can_step(self.snake.snake_parts@, self.snake.d, self.cols as int, self.rows as int)
        &&& self.just_eaten ==> self.score < u32::MAX
    }

    /// One tick of the game: the snake steps, the network's suggestion for
    /// the new position is recorded, and, if the snake is still alive, a
    /// meal of the tick before is scored and the food is looked after.
    /// Returns whether the snake is still alive. Fails with
    /// `DimensionMismatch`, before anything moves, unless the network takes
    /// the eight readings as its input.
    pub fn update(&mut self) -> (r: Result<bool, NetworkError>)
        requires
            old(self).can_update(),
        ensures
            final(self).network@ == old(self).network@,
            final(self).rows == old(self).rows,
            final(self).cols == old(self).cols,
            final(self).square_width == old(self).square_width,
            final(self).snake.d == old(self).snake.d,
            final(self).snake.width == old(self).snake.width,
            match r {
                Ok(alive) => {
                    &&& old(self).network@.input_size() == 8
                    &&& alive == survives(
                        old(self).snake.snake_parts@,
                        old(self).snake.d,
                        old(self).just_eaten,
                        old(self).cols as int,
                        old(self).rows as int,
                    )
                    &&& final(self).snake.snake_parts@ == stepped(
                        old(self).snake.snake_parts@,
                        old(self).snake.d,
                        old(self).just_eaten,
                        old(self).cols as int,
                        old(self).rows as int,
                    )
                    &&& (
                    final(self).suggested_direction.x as int,
                    final(self).suggested_direction.y as int,
                    ) == suggestion_of(
                        old(self).network@,
                        final(self).snake.snake_parts@,
                        old(self).food,
                        old(self).cols,
                        old(self).rows,
                    )
                    &&& if alive {
                        &&& final(self).score == old(self).score + if old(self).just_eaten {
                            1int
                        } else {
                            0int
                        }
                        &&& final(self).just_eaten == (final(self).snake.snake_parts@[0].0 == old(
                            self,
                        ).food.x && final(self).snake.snake_parts@[0].1 == old(self).food.y)
                        &&& food_follows(
                            old(self).food,
                            final(self).food,
                            final(self).snake.snake_parts@,
                            old(self).cols,
                            old(self).rows,
                        )
                    } else {
                        &&& final(self).score == old(self).score
                        &&& final(self).just_eaten == old(self).just_eaten
                        &&& final(self).food == old(self).food
                    }
                },
                Err(e) => {
                    &&& e == NetworkError::DimensionMismatch
                    &&& old(self).network@.input_size() != 8
                    &&& final(self).same_board_as(old(self))
                },
            },
    {
        let sizes = self.network.layer_sizes();
        if sizes[0] != 8 {
            return Err(NetworkError::DimensionMismatch);
        }
        let alive = self.snake.update(self.just_eaten, self.cols, self.rows);
        let suggestion = self.suggested_direction.update(
            &self.snake,
            &self.food,
            self.cols,
            self.rows,
            &self.network,
        );
        match suggestion {
            Ok(_) => {},
            Err(e) => {
                return Err(e);
            },
        }
        if !alive {
            return Ok(false);
        }
        if self.just_eaten {
            self.score = self.score + 1;
            self.just_eaten = false;
        }
        self.just_eaten = self.food.update(&self.snake, self.cols, self.rows);
        Ok(true)
    }

    /// Asks the network for a move and turns the snake accordingly.
    fn follow_network(&mut self, environment: Vec<T>) -> (r: Result<(), NetworkError>)
        requires
            environment@.len() == 8,
            old(self).network@.well_formed(),
        ensures
            final(self).network@ == old(self).network@,
            final(self).same_board_as(old(self)),
            match r {
                Ok(_) => {
                    &&& old(self).network@.input_size() == 8
                    &&& final(self).snake.d == steered(
                        arg_max_of(old(self).network@.output(environment@)),
                        old(self).snake.d,
                    )
                },
                Err(e) => {
                    &&& e == NetworkError::DimensionMismatch
                    &&& old(self).network@.input_size() != 8
                    &&& final(self).snake.d == old(self).snake.d
                },
            },
    {
        let output = match self.network.feed_forward(environment) {
            Ok(output) => output,
            Err(e) => {
                return Err(e);
            },
        };
        let choice = match arg_max(&output) {
            Ok(choice) => choice,
            Err(e) => {
                return Err(e);
            },
        };
        self.snake.d = steer(choice, self.snake.d);
        Ok(())
    }

    /// A key press: the network learns, in ten passes, to answer what it
    /// senses now with the direction of the key, and then steers the snake
    /// itself. Fails with `DimensionMismatch`, and changes nothing, unless
    /// the network takes the eight readings and gives four outputs.
    pub fn pressed(&mut self, key: Key) -> (r: Result<(), NetworkError>)
        requires
            old(self).snake.snake_parts@.len() > 0,
        ensures
            final(self).same_board_as(old(self)),
            match r {
                Ok(_) => {
                    &&& old(self).network@.input_size() == 8
                    &&& old(self).network@.output_size() == 4
                    &&& final(self).network@ == old(self).network@.trained(
                        seq![old(self).environment()],
                        seq![target_of::<T>(key, old(self).snake.d)],
                        10,
                    )
                    &&& final(self).snake.d == steered(
                        arg_max_of(final(self).network@.output(old(self).environment())),
                        old(self).snake.d,
                    )
                },
                Err(e) => {
                    &&& e == NetworkError::DimensionMismatch
                    &&& old(self).network@.input_size() != 8 || old(self).network@.output_size()
                        != 4
                    &&& final(self).network@ == old(self).network@
                    &&& final(self).snake.d == old(self).snake.d
                },
            },
    {
        let target = target_for::<T>(key, self.snake.d);
        let environment = self.snake.environment::<T>(&self.food, self.cols, self.rows);
        let mut inputs: Vec<Vec<T>> = Vec::new();
        inputs.push(copy_of(&environment));
        let mut targets: Vec<Vec<T>> = Vec::new();
        targets.push(target);
        proof {
            assert(crate::network::views_of(inputs@) =~= seq![environment@]);
            assert(crate::network::views_of(targets@) =~= seq![
                target_of::<T>(key, self.snake.d),
            ]);
            assert(seq![environment@][0] == environment@);
            assert(seq![target_of::<T>(key, self.snake.d)][0].len() == 4);
        }
        let ghost learner = self.network@;
        let sizes = self.network.layer_sizes();
        match self.network.train(inputs, targets, 10) {
            Ok(_) => {},
            Err(e) => {
                return Err(e);
            },
        }
        proof {
            let xs = seq![environment@];
            let ts = seq![target_of::<T>(key, self.snake.d)];
            assert(xs[0].len() == learner.input_size());
            assert(ts[0].len() == learner.output_size());
            crate::model::lemma_trained_keeps_shape(learner, xs, ts, 10);
        }
        self.follow_network(environment)
    }

    /// A tick without a key press: the network steers the snake. Fails with
    /// `DimensionMismatch`, and changes nothing, unless the network takes
    /// the eight readings as its input.
    pub fn automatic(&mut self) -> (r: Result<(), NetworkError>)
        requires
            old(self).snake.snake_parts@.len() > 0,
        ensures
            final(self).network@ == old(self).network@,
            final(self).same_board_as(old(self)),
            match r {
                Ok(_) => {
                    &&& old(self).network@.input_size() == 8
                    &&& final(self).snake.d == steered(
                        arg_max_of(old(self).network@.output(old(self).environment())),
                        old(self).snake.d,
                    )
                },
                Err(e) => {
                    &&& e == NetworkError::DimensionMismatch
                    &&& old(self).network@.input_size() != 8
                    &&& final(self).snake.d == old(self).snake.d
                },
            },
    {
        let environment = self.snake.environment::<T>(&self.food, self.cols, self.rows);
        let sizes = self.network.layer_sizes();
        self.follow_network(environment)
    }
}

/// Whether the square of cell `(x, y)`, for cells `width` pixels wide, has
/// its corner within the range of the coordinates.
pub open spec fn on_screen(x: u32, y: u32, width: u32) -> bool {
    x * width <= u32::MAX && y * width <= u32::MAX
}

/// The top left corner, in pixels, of the square of cell `(x, y)`.
pub fn corner(x: u32, y: u32, width: u32) -> (c: (u32, u32))
    requires
        on_screen(x, y, width),
    ensures
        c.0 == x * width,
        c.1 == y * width,
{
    (x * width, y * width)
}

impl Snake {
    /// The top left corners, in pixels, of the squares of the snake's cells,
    /// head first.
    pub fn corners(&self) -> (cs: Vec<(u32, u32)>)
        requires
            forall|k: int|
                0 <= k < self.snake_parts@.len() ==> on_screen(
                    (#[trigger] self.snake_parts@[k]).0,
                    self.snake_parts@[k].1,
                    self.width,
                ),
        ensures
            cs@.len() == self.snake_parts@.len(),
            forall|k: int|
                0 <= k < cs@.len() ==> (#[trigger] cs@[k]).0 == self.snake_parts@[k].0 * self.width
                    && cs@[k].1 == self.snake_parts@[k].1 * self.width,
    {
        let mut cs: Vec<(u32, u32)> = Vec::new();
        let mut k: usize = 0;
        while k < self.snake_parts.len()
            invariant
                k <= self.snake_parts@.len(),
                cs@.len() == k,
                forall|q: int|
                    0 <= q < self.snake_parts@.len() ==> on_screen(
                        (#[trigger] self.snake_parts@[q]).0,
                        self.snake_parts@[q].1,
                        self.width,
                    ),
                forall|q: int|
                    0 <= q < k ==> (#[trigger] cs@[q]).0 == self.snake_parts@[q].0 * self.width
                        && cs@[q].1 == self.snake_parts@[q].1 * self.width,
            decreases self.snake_parts@.len() - k,
        {
            let p = self.snake_parts[k];
            cs.push(corner(p.0, p.1, self.width));
            k = k + 1;
        }
        cs
    }
}

/// Whether the square of cell `(x, y)` has its corner within the range of
/// the coordinates.
pub fn fits_screen(x: u32, y: u32, width: u32) -> (ok: bool)
    ensures
        ok == on_screen(x, y, width),
{
    x.checked_mul(width).is_some() && y.checked_mul(width).is_some()
}

impl Snake {
    /// Whether one step of the snake is defined on a grid of `cols` by
    /// `rows`.
    pub fn can_move(&self, cols: u32, rows: u32) -> (ok: bool)
        ensures
            ok == can_step(self.snake_parts@, self.d, cols as int, rows as int),
    {
        if self.snake_parts.len() == 0 {
            return false;
        }
        let front = self.snake_parts[0];
        match self.d {
            Direction::DOWN => rows > 0 && front.1 < u32::MAX,
            Direction::RIGHT => cols > 0 && front.0 < u32::MAX,
            _ => true,
        }
    }
}

} // verus!
