//! The arena: its bounds, the food, and the rules that end a game.
use vstd::prelude::*;
use crate::geometry::{DIRECTION, Field};
use crate::random::random_between;
use crate::render::{COLOR_PAIR_SNK1, COLOR_PAIR_SNK2, RenderOp};
use crate::snake::Snake;

verus! {

/// Which peer simulates the game.
#[derive(Clone, Copy, Debug, PartialEq, Eq, Structural)]
pub enum MODE {
    Single,
    Server,
    Client,
}

/// How many cells `new_food` draws at random; where none of them is free
/// it searches the interior cell by cell.
pub const FOOD_DRAWS: u32 = 64;

/// What `check_food` did for one snake.
#[derive(Clone, Copy, Debug, PartialEq, Eq, Structural)]
pub enum FoodCheck {
    /// The head was on the food: the snake keeps its new length and the food
    /// now lies at the given cell, which is to be drawn.
    Placed(Field),
    /// The head was elsewhere: the tail left the given cell, which is to be
    /// cleared.
    Released(Field),
    /// The head was on the food and no interior cell is free for the next
    /// one: the food stays where it was.
    Exhausted,
}

/// What one tick of the simulation did.
#[derive(Clone, Copy, Debug, PartialEq, Eq)]
pub struct TickReport {
    /// The drawing of the first snake's new head, and its food check.
    pub first: (RenderOp, FoodCheck),
    /// The same for the second snake.
    pub second: (RenderOp, FoodCheck),
    /// Whether the game is over.
    pub endgame: bool,
}

/// The arena. Its outermost rows and columns are the wall; the rows
/// `start_y + 1 .. start_y + height - 1` and the columns likewise are the
/// interior.
#[derive(Clone, Debug, PartialEq, Eq)]
pub struct Game {
    pub mode: MODE,
    pub game_area_height: i32,
    pub game_area_width: i32,
    /// The screen row of the arena's top wall.
    pub game_area_start_y: i32,
    /// The screen column of the arena's left wall.
    pub game_area_start_x: i32,
    /// The cells last drawn for the first snake, relative to the arena.
    pub clear1_buffer: Vec<Field>,
    /// The cells last drawn for the second snake, relative to the arena.
    pub clear2_buffer: Vec<Field>,
    /// The food: a screen cell on the peer that simulates, a cell relative
    /// to the arena on the peer that watches.
    pub food: Field,
}

/// The predicate "does not occur in `cells`".
pub open spec fn absent_from(cells: Seq<Field>) -> spec_fn(Field) -> bool {
    |c: Field| !cells.contains(c)
}

impl Game {
    /// Whether `f` lies strictly inside the wall.
    pub open spec fn is_interior(&self, f: Field) -> bool {
        &&& self.game_area_start_y + 1 <= f.y < self.game_area_start_y + self.game_area_height - 1
        &&& self.game_area_start_x + 1 <= f.x < self.game_area_start_x + self.game_area_width - 1
    }

    /// Whether `f` lies on one of the four wall lines.
    pub open spec fn on_border(&self, f: Field) -> bool {
        ||| f.y == self.game_area_start_y
        ||| f.y == self.game_area_start_y + self.game_area_height - 1
        ||| f.x == self.game_area_start_x
        ||| f.x == self.game_area_start_x + self.game_area_width - 1
    }

    /// Whether food may be put on `f`: an interior cell in neither list.
    pub open spec fn free_at(&self, f: Field, forbidden1: Seq<Field>, forbidden2: Seq<Field>) -> bool {
        self.is_interior(f) && !forbidden1.contains(f) && !forbidden2.contains(f)
    }

    /// Whether `draws[i]` is free and no earlier draw is.
    pub open spec fn is_first_free_draw(
        &self,
        draws: Seq<Field>,
        i: int,
        forbidden1: Seq<Field>,
        forbidden2: Seq<Field>,
    ) -> bool {
        &&& 0 <= i < draws.len()
        &&& self.free_at(draws[i], forbidden1, forbidden2)
        &&& forall|j: int| 0 <= j < i ==> !self.free_at(#[trigger] draws[j], forbidden1, forbidden2)
    }

    /// Whether none of `draws` is free.
    pub open spec fn no_free_draw(&self, draws: Seq<Field>, forbidden1: Seq<Field>, forbidden2: Seq<Field>) -> bool {
        forall|i: int| 0 <= i < draws.len() ==> !self.free_at(#[trigger] draws[i], forbidden1, forbidden2)
    }

    /// Whether `f` comes before `g` by row, then by column, or is `g`.
    pub open spec fn row_major_le(f: Field, g: Field) -> bool {
        f.y < g.y || (f.y == g.y && f.x <= g.x)
    }

    /// Whether the game is over: some snake's head lies on its own body or
    /// on the wall, or the head of one of the first two snakes lies on the
    /// other.
    pub open spec fn collides(&self, snakes: Seq<Snake>) -> bool {
        ||| exists|k: int| 0 <= k < snakes.len() && (#[trigger] snakes[k]).bites_itself()
        ||| exists|k: int| 0 <= k < snakes.len() && self.on_border((#[trigger] snakes[k]).head())
        ||| snakes[0].body@.contains(snakes[1].head())
        ||| snakes[1].body@.contains(snakes[0].head())
    }

    /// Whether `f`, relative to the arena, has a place on the screen.
    pub open spec fn fits_screen(&self, f: Field) -> bool {
        &&& i32::MIN <= f.y + self.game_area_start_y <= i32::MAX
        &&& i32::MIN <= f.x + self.game_area_start_x <= i32::MAX
    }

    /// The screen cell of `f`, which is relative to the arena.
    pub open spec fn to_screen(&self, f: Field) -> Field {
        Field { y: (f.y + self.game_area_start_y) as i32, x: (f.x + self.game_area_start_x) as i32 }
    }

    /// Whether the screen cell `f` can be written relative to the arena.
    pub open spec fn fits_arena(&self, f: Field) -> bool {
        &&& i32::MIN <= f.y - self.game_area_start_y <= i32::MAX
        &&& i32::MIN <= f.x - self.game_area_start_x <= i32::MAX
    }

    /// The screen cell `f` relative to the arena.
    pub open spec fn to_arena(&self, f: Field) -> Field {
        Field { y: (f.y - self.game_area_start_y) as i32, x: (f.x - self.game_area_start_x) as i32 }
    }

    /// Whether every cell of `cells`, relative to the arena, has a place on
    /// the screen.
    pub open spec fn all_on_screen(&self, cells: Seq<Field>) -> bool {
        forall|i: int| 0 <= i < cells.len() ==> self.fits_screen(#[trigger] cells[i])
    }

    /// Whether every screen cell of `cells` can be written relative to the
    /// arena.
    pub open spec fn all_in_arena(&self, cells: Seq<Field>) -> bool {
        forall|i: int| 0 <= i < cells.len() ==> self.fits_arena(#[trigger] cells[i])
    }

    /// The function `to_arena` as a value.
    pub open spec fn arena_map(&self) -> spec_fn(Field) -> Field {
        |f: Field| self.to_arena(f)
    }

    /// The clearing of a cell given relative to the arena.
    pub open spec fn clear_map(&self) -> spec_fn(Field) -> RenderOp {
        |f: Field| RenderOp::Clear(self.to_screen(f))
    }

    /// The drawing of a segment given relative to the arena.
    pub open spec fn block_map(&self, color: i16) -> spec_fn(Field) -> RenderOp {
        |f: Field| RenderOp::Block(self.to_screen(f), color)
    }

    /// What brings the screen from the body `before` to the body `after`:
    /// the cells of `before` that `after` lacks are cleared, in their order,
    /// then every cell of `after` is drawn, in its order.
    pub open spec fn redraw(&self, before: Seq<Field>, after: Seq<Field>, color: i16) -> Seq<RenderOp> {
        before.filter(absent_from(after)).map_values(self.clear_map())
            + after.map_values(self.block_map(color))
    }

    /// An arena of the given size at the screen's origin, in single-player
    /// mode, with nothing drawn yet and the food at `(0, 0)`.
    pub fn new(height: i32, width: i32) -> (game: Game)
        ensures
            game.mode == MODE::Single,
            game.game_area_height == height,
            game.game_area_width == width,
            game.game_area_start_y == 0,
            game.game_area_start_x == 0,
            game.clear1_buffer@ == Seq::<Field>::empty(),
            game.clear2_buffer@ == Seq::<Field>::empty(),
            game.food == (Field { y: 0, x: 0 }),
    {
        Game {
            mode: MODE::Single,
            game_area_height: height,
            game_area_width: width,
            game_area_start_y: 0,
            game_area_start_x: 0,
            clear1_buffer: Vec::new(),
            clear2_buffer: Vec::new(),
            food: Field { y: 0, x: 0 },
        }
    }

    /// Whether `f` lies on the wall.
    pub fn is_on_border(&self, f: Field) -> (hit: bool)
        ensures
            hit == self.on_border(f),
    {
        let y: i64 = f.y as i64;
        let x: i64 = f.x as i64;
        let top: i64 = self.game_area_start_y as i64;
        let left: i64 = self.game_area_start_x as i64;
        y == top || y == top + self.game_area_height as i64 - 1 || x == left || x == left
            + self.game_area_width as i64 - 1
    }

    /// Whether the game is over for these snakes, of which there are at
    /// least two.
    pub fn check_collisions(&self, snakes: &Vec<Snake>) -> (hit: bool)
        requires
            snakes@.len() >= 2,
            forall|k: int| 0 <= k < snakes@.len() ==> (#[trigger] snakes@[k]).body@.len() > 0,
        ensures
            hit == self.collides(snakes@),
    {
        let mut self_collision = false;
        let mut game_area_collision = false;
        let mut k: usize = 0;
        while k < snakes.len()
            invariant
                k <= snakes.len(),
                forall|j: int| 0 <= j < snakes@.len() ==> (#[trigger] snakes@[j]).body@.len() > 0,
                self_collision == (exists|j: int| 0 <= j < k && (#[trigger] snakes@[j]).bites_itself()),
                game_area_collision == (exists|j: int|
                    0 <= j < k && self.on_border((#[trigger] snakes@[j]).head())),
            decreases snakes.len() - k,
        {
            let snake = &snakes[k];
            assert(snake == snakes@[k as int]);
            if snake.hits_itself() {
                self_collision = true;
            }
            if self.is_on_border(snake.body[0]) {
                game_area_collision = true;
            }
            k += 1;
        }
        let first = &snakes[0];
        let second = &snakes[1];
        let snakes_collision = second.body[0].is_in(&first.body) || first.body[0].is_in(
            &second.body,
        );
        self_collision || game_area_collision || snakes_collision
    }

    /// Whether food may be put on `cell`.
    pub fn is_free(&self, cell: Field, forbidden1: &Vec<Field>, forbidden2: &Vec<Field>) -> (free: bool)
        ensures
            free == self.free_at(cell, forbidden1@, forbidden2@),
    {
        let y: i64 = cell.y as i64;
        let x: i64 = cell.x as i64;
        let top: i64 = self.game_area_start_y as i64;
        let left: i64 = self.game_area_start_x as i64;
        let inside = top + 1 <= y && y < top + self.game_area_height as i64 - 1 && left + 1 <= x
            && x < left + self.game_area_width as i64 - 1;
        inside && !cell.is_in(forbidden1) && !cell.is_in(forbidden2)
    }

    /// The free cell that comes first by row, then by column; `None` when no
    /// cell is free.
    pub fn first_free_cell(&self, forbidden1: &Vec<Field>, forbidden2: &Vec<Field>) -> (found: Option<Field>)
        ensures
            match found {
                Some(f) => {
                    &&& self.free_at(f, forbidden1@, forbidden2@)
                    &&& forall|g: Field| #[trigger]
                        self.free_at(g, forbidden1@, forbidden2@) ==> Self::row_major_le(f, g)
                },
                None => forall|g: Field| !#[trigger] self.free_at(g, forbidden1@, forbidden2@),
            },
    {
        let row_low: i64 = self.game_area_start_y as i64 + 1;
        let row_high: i64 = self.game_area_start_y as i64 + self.game_area_height as i64 - 1;
        let col_low: i64 = self.game_area_start_x as i64 + 1;
        let col_high: i64 = self.game_area_start_x as i64 + self.game_area_width as i64 - 1;
        let row_end: i64 = if row_high <= i32::MAX as i64 { row_high } else { i32::MAX as i64 + 1 };
        let col_end: i64 = if col_high <= i32::MAX as i64 { col_high } else { i32::MAX as i64 + 1 };
        let mut y: i64 = row_low;
        while y < row_end
            invariant
                row_low == self.game_area_start_y + 1,
                row_high == self.game_area_start_y + self.game_area_height - 1,
                col_low == self.game_area_start_x + 1,
                col_high == self.game_area_start_x + self.game_area_width - 1,
                row_end == if row_high <= i32::MAX { row_high as int } else { i32::MAX + 1 },
                col_end == if col_high <= i32::MAX { col_high as int } else { i32::MAX + 1 },
                row_low <= y,
                forall|g: Field| g.y < y ==> !#[trigger] self.free_at(g, forbidden1@, forbidden2@),
            decreases row_end - y,
        {
            let mut x: i64 = col_low;
            while x < col_end
                invariant
                    row_low == self.game_area_start_y + 1,
                    row_high == self.game_area_start_y + self.game_area_height - 1,
                    col_low == self.game_area_start_x + 1,
                    col_high == self.game_area_start_x + self.game_area_width - 1,
                    row_end == if row_high <= i32::MAX { row_high as int } else { i32::MAX + 1 },
                    col_end == if col_high <= i32::MAX { col_high as int } else { i32::MAX + 1 },
                    row_low <= y < row_end,
                    col_low <= x,
                    forall|g: Field|
                        (g.y < y || (g.y == y && g.x < x)) ==> !#[trigger] self.free_at(
                            g,
                            forbidden1@,
                            forbidden2@,
                        ),
                decreases col_end - x,
            {
                let cell = Field { y: y as i32, x: x as i32 };
                if self.is_free(cell, forbidden1, forbidden2) {
                    return Some(cell);
                }
                x += 1;
            }
            y += 1;
        }
        None
    }

    /// The first cell of `draws` that is free, or `None` when none of them
    /// is.
    pub fn first_free_draw(&self, draws: &Vec<Field>, forbidden1: &Vec<Field>, forbidden2: &Vec<Field>) -> (found: Option<Field>)
        ensures
            match found {
                Some(f) => exists|i: int| #[trigger]
                    self.is_first_free_draw(draws@, i, forbidden1@, forbidden2@) && draws@[i] == f,
                None => self.no_free_draw(draws@, forbidden1@, forbidden2@),
            },
    {
        let mut i: usize = 0;
        while i < draws.len()
            invariant
                i <= draws.len(),
                self.no_free_draw(draws@.take(i as int), forbidden1@, forbidden2@),
            decreases draws.len() - i,
        {
            let cell = draws[i];
            if self.is_free(cell, forbidden1, forbidden2) {
                assert(self.is_first_free_draw(draws@, i as int, forbidden1@, forbidden2@)) by {
                    assert forall|j: int| 0 <= j < i implies !self.free_at(
                        #[trigger] draws@[j],
                        forbidden1@,
                        forbidden2@,
                    ) by {
                        assert(draws@.take(i as int)[j] == draws@[j]);
                    }
                }
                return Some(cell);
            }
            assert(self.no_free_draw(draws@.take(i + 1), forbidden1@, forbidden2@)) by {
                assert forall|j: int| 0 <= j < i + 1 implies !self.free_at(
                    #[trigger] draws@.take(i + 1)[j],
                    forbidden1@,
                    forbidden2@,
                ) by {
                    if j < i {
                        assert(draws@.take(i as int)[j] == draws@[j]);
                    }
                }
            }
            i += 1;
        }
        assert(draws@.take(draws@.len() as int) =~= draws@);
        None
    }

    /// The cell for the food, given the cells that were drawn for it: the
    /// first draw that is free; where no draw is free, the free cell that
    /// comes first by row, then by column; `None` when no cell is free.
    pub fn food_from_draws(&self, draws: &Vec<Field>, forbidden1: &Vec<Field>, forbidden2: &Vec<Field>) -> (food: Option<Field>)
        ensures
            match food {
                Some(f) => {
                    ||| exists|i: int| #[trigger]
                        self.is_first_free_draw(draws@, i, forbidden1@, forbidden2@) && draws@[i]
                            == f
                    ||| {
                        &&& self.no_free_draw(draws@, forbidden1@, forbidden2@)
                        &&& self.free_at(f, forbidden1@, forbidden2@)
                        &&& forall|g: Field| #[trigger]
                            self.free_at(g, forbidden1@, forbidden2@) ==> Self::row_major_le(f, g)
                    }
                },
                None => forall|g: Field| !#[trigger] self.free_at(g, forbidden1@, forbidden2@),
            },
            food matches Some(f) ==> self.free_at(f, forbidden1@, forbidden2@),
    {
        match self.first_free_draw(draws, forbidden1, forbidden2) {
            Some(f) => Some(f),
            None => self.first_free_cell(forbidden1, forbidden2),
        }
    }

    /// `FOOD_DRAWS` cells drawn at random from the interior, in the order
    /// in which they were drawn; none where there is no interior. A draw
    /// beyond the grid is no cell and is left out.
    fn draw_cells(&self) -> (draws: Vec<Field>)
        ensures
            draws@.len() <= FOOD_DRAWS,
            forall|i: int| 0 <= i < draws@.len() ==> self.is_interior(#[trigger] draws@[i]),
    {
        let row_low: i64 = self.game_area_start_y as i64 + 1;
        let row_high: i64 = self.game_area_start_y as i64 + self.game_area_height as i64 - 1;
        let col_low: i64 = self.game_area_start_x as i64 + 1;
        let col_high: i64 = self.game_area_start_x as i64 + self.game_area_width as i64 - 1;
        let mut draws: Vec<Field> = Vec::new();
        if row_low < row_high && col_low < col_high {
            let mut n: u32 = 0;
            while n < FOOD_DRAWS
                invariant
                    row_low == self.game_area_start_y + 1,
                    row_high == self.game_area_start_y + self.game_area_height - 1,
                    col_low == self.game_area_start_x + 1,
                    col_high == self.game_area_start_x + self.game_area_width - 1,
                    row_low < row_high,
                    col_low < col_high,
                    n <= FOOD_DRAWS,
                    draws@.len() <= n,
                    forall|i: int| 0 <= i < draws@.len() ==> self.is_interior(#[trigger] draws@[i]),
                decreases FOOD_DRAWS - n,
            {
                let y: i64 = random_between(row_low, row_high);
                let x: i64 = random_between(col_low, col_high);
                if y <= i32::MAX as i64 && x <= i32::MAX as i64 {
                    draws.push(Field { y: y as i32, x: x as i32 });
                }
                n += 1;
            }
        }
        draws
    }

    /// A free cell for the food, or `None` when no cell is free: cells are
    /// drawn at random from the interior, and `food_from_draws` picks among
    /// them.
    pub fn new_food(&self, forbidden1: &Vec<Field>, forbidden2: &Vec<Field>) -> (food: Option<Field>)
        ensures
            match food {
                Some(f) => self.free_at(f, forbidden1@, forbidden2@),
                None => forall|g: Field| !#[trigger] self.free_at(g, forbidden1@, forbidden2@),
            },
    {
        let draws = self.draw_cells();
        self.food_from_draws(&draws, forbidden1, forbidden2)
    }

    /// Puts the food on a free cell and returns its drawing; where no cell
    /// is free, changes nothing and returns `None`.
    pub fn init_food(&mut self, forbidden1: &Vec<Field>, forbidden2: &Vec<Field>) -> (drawn: Option<RenderOp>)
        ensures
            match drawn {
                Some(RenderOp::Food(f)) => {
                    &&& old(self).free_at(f, forbidden1@, forbidden2@)
                    &&& *final(self) == (Game { food: f, ..*old(self) })
                },
                Some(_) => false,
                None => {
                    &&& forall|g: Field| !#[trigger] old(self).free_at(g, forbidden1@, forbidden2@)
                    &&& *final(self) == *old(self)
                },
            },
    {
        match self.new_food(forbidden1, forbidden2) {
            Some(f) => {
                self.food = f;
                Some(RenderOp::Food(f))
            },
            None => None,
        }
    }

    /// Settles one snake after its move. With the head on the food, the
    /// snake keeps its length and the food moves to a cell that is free of
    /// this snake; otherwise the tail is dropped.
    pub fn check_food(&mut self, snake: &mut Snake) -> (outcome: FoodCheck)
        requires
            old(snake).body@.len() > 0,
        ensures
            final(snake).direction == old(snake).direction,
            final(snake).color == old(snake).color,
            old(snake).head() != old(self).food ==> {
                &&& outcome == FoodCheck::Released(old(snake).body@.last())
                &&& final(snake).body@ == old(snake).body@.drop_last()
                &&& *final(self) == *old(self)
            },
            old(snake).head() == old(self).food ==> {
                &&& final(snake).body@ == old(snake).body@
                &&& match outcome {
                    FoodCheck::Placed(f) => {
                        &&& old(self).free_at(f, old(snake).body@, old(snake).body@)
                        &&& *final(self) == (Game { food: f, ..*old(self) })
                    },
                    FoodCheck::Exhausted => {
                        &&& forall|g: Field| !#[trigger]
                            old(self).free_at(g, old(snake).body@, old(snake).body@)
                        &&& *final(self) == *old(self)
                    },
                    FoodCheck::Released(_) => false,
                }
            },
    {
        if snake.body[0] == self.food {
            match self.new_food(&snake.body, &snake.body) {
                Some(f) => {
                    self.food = f;
                    FoodCheck::Placed(f)
                },
                None => FoodCheck::Exhausted,
            }
        } else {
            let tail = snake.body.pop().unwrap();
            FoodCheck::Released(tail)
        }
    }

    /// The current mode.
    pub fn get_mode(&self) -> (mode: MODE)
        ensures
            mode == self.mode,
    {
        self.mode
    }

    /// Sets the mode.
    pub fn set_mode(&mut self, mode: MODE)
        ensures
            *final(self) == (Game { mode: mode, ..*old(self) }),
    {
        self.mode = mode;
    }

    /// Sets the screen cell of the arena's top left corner.
    pub fn set_start(&mut self, start_y: i32, start_x: i32)
        ensures
            *final(self) == (Game {
                game_area_start_y: start_y,
                game_area_start_x: start_x,
                ..*old(self)
            }),
    {
        self.game_area_start_y = start_y;
        self.game_area_start_x = start_x;
    }

    /// The food as `(row, column)`, as stored.
    pub fn get_food(&mut self) -> (food: (i32, i32))
        ensures
            food == (old(self).food.y, old(self).food.x),
            *final(self) == *old(self),
    {
        (self.food.y, self.food.x)
    }

    /// The food as `(row, column)` relative to the arena, for a food stored
    /// in screen coordinates.
    pub fn get_food_win(&mut self) -> (food: (i32, i32))
        requires
            old(self).fits_arena(old(self).food),
        ensures
            food == (old(self).to_arena(old(self).food).y, old(self).to_arena(old(self).food).x),
            *final(self) == *old(self),
    {
        (self.food.y - self.game_area_start_y, self.food.x - self.game_area_start_x)
    }

    /// Moves the food to `(y, x)`, given relative to the arena, and returns
    /// the clearing of its old cell and the drawing of its new one.
    pub fn set_food(&mut self, y: i32, x: i32) -> (ops: (RenderOp, RenderOp))
        requires
            old(self).fits_screen(old(self).food),
            old(self).fits_screen(Field { y, x }),
        ensures
            *final(self) == (Game { food: Field { y, x }, ..*old(self) }),
            ops.0 == RenderOp::Clear(old(self).to_screen(old(self).food)),
            ops.1 == RenderOp::Food(old(self).to_screen(Field { y, x })),
    {
        let cleared = RenderOp::Clear(
            Field {
                y: self.food.y + self.game_area_start_y,
                x: self.food.x + self.game_area_start_x,
            },
        );
        self.food = Field { y, x };
        let drawn = RenderOp::Food(
            Field { y: y + self.game_area_start_y, x: x + self.game_area_start_x },
        );
        (cleared, drawn)
    }

    /// Rewrites every screen cell of `buffer` relative to the arena.
    pub fn transform_coords(&self, buffer: &mut Vec<Field>)
        requires
            self.all_in_arena(old(buffer)@),
        ensures
            final(buffer)@ == old(buffer)@.map_values(self.arena_map()),
    {
        let mut i: usize = 0;
        while i < buffer.len()
            invariant
                i <= buffer@.len(),
                buffer@.len() == old(buffer)@.len(),
                self.all_in_arena(old(buffer)@),
                forall|k: int| 0 <= k < i ==> buffer@[k] == self.to_arena(old(buffer)@[k]),
                forall|k: int| i <= k < buffer@.len() ==> buffer@[k] == old(buffer)@[k],
            decreases buffer@.len() - i,
        {
            let f = buffer[i];
            buffer[i] = Field { y: f.y - self.game_area_start_y, x: f.x - self.game_area_start_x };
            i += 1;
        }
        assert(buffer@ =~= old(buffer)@.map_values(self.arena_map()));
    }

    /// Appends to `ops` what brings the screen from the body `before` to the
    /// body `after`, both relative to the arena.
    fn push_redraw(&self, before: &Vec<Field>, after: &Vec<Field>, color: i16, ops: &mut Vec<RenderOp>)
        requires
            self.all_on_screen(before@),
            self.all_on_screen(after@),
        ensures
            final(ops)@ == old(ops)@ + self.redraw(before@, after@, color),
    {
        let ghost base = ops@;
        let ghost gone = absent_from(after@);
        let mut i: usize = 0;
        while i < before.len()
            invariant
                i <= before.len(),
                gone == absent_from(after@),
                self.all_on_screen(before@),
                ops@ == base + before@.take(i as int).filter(gone).map_values(self.clear_map()),
            decreases before.len() - i,
        {
            let c = before[i];
            proof {
                reveal(Seq::filter);
                assert(before@.take(i + 1).drop_last() =~= before@.take(i as int));
                assert(before@.take(i + 1).last() == c);
                assert(self.fits_screen(before@[i as int]));
            }
            if !c.is_in(after) {
                ops.push(
                    RenderOp::Clear(
                        Field { y: c.y + self.game_area_start_y, x: c.x + self.game_area_start_x },
                    ),
                );
                assert(ops@ =~= base + before@.take(i + 1).filter(gone).map_values(
                    self.clear_map(),
                ));
            }
            i += 1;
        }
        assert(before@.take(before@.len() as int) =~= before@);
        let ghost cleared = ops@;
        let mut j: usize = 0;
        while j < after.len()
            invariant
                j <= after.len(),
                self.all_on_screen(after@),
                ops@ == cleared + after@.take(j as int).map_values(self.block_map(color)),
            decreases after.len() - j,
        {
            let c = after[j];
            assert(self.fits_screen(after@[j as int]));
            ops.push(
                RenderOp::Block(
                    Field { y: c.y + self.game_area_start_y, x: c.x + self.game_area_start_x },
                    color,
                ),
            );
            assert(ops@ =~= cleared + after@.take(j + 1).map_values(self.block_map(color)));
            j += 1;
        }
        assert(after@.take(after@.len() as int) =~= after@);
        assert(ops@ =~= base + self.redraw(before@, after@, color));
    }

    /// Shows two bodies that were computed elsewhere, both relative to the
    /// arena: returns the redrawing of the first snake, then that of the
    /// second, and remembers the two bodies as what is on screen.
    pub fn draw_snake(&mut self, buffer1: Vec<Field>, buffer2: Vec<Field>) -> (ops: Vec<RenderOp>)
        requires
            old(self).all_on_screen(old(self).clear1_buffer@),
            old(self).all_on_screen(old(self).clear2_buffer@),
            old(self).all_on_screen(buffer1@),
            old(self).all_on_screen(buffer2@),
        ensures
            ops@ == old(self).redraw(old(self).clear1_buffer@, buffer1@, COLOR_PAIR_SNK1) + old(
                self,
            ).redraw(old(self).clear2_buffer@, buffer2@, COLOR_PAIR_SNK2),
            *final(self) == (Game { clear1_buffer: buffer1, clear2_buffer: buffer2, ..*old(self) }),
    {
        let mut ops: Vec<RenderOp> = Vec::new();
        self.push_redraw(&self.clear1_buffer, &buffer1, COLOR_PAIR_SNK1, &mut ops);
        self.push_redraw(&self.clear2_buffer, &buffer2, COLOR_PAIR_SNK2, &mut ops);
        self.clear1_buffer = buffer1;
        self.clear2_buffer = buffer2;
        ops
    }

    /// The game after a food check with the given outcome: the food lies
    /// where it was placed, and nothing else has changed.
    pub open spec fn fed(&self, outcome: FoodCheck) -> Game {
        match outcome {
            FoodCheck::Placed(f) => Game { food: f, ..*self },
            _ => *self,
        }
    }

    /// What one tick does to one snake. The snake moves. If its new head is
    /// off the food, it loses its tail, which is reported, and so keeps its
    /// length. If its new head is on the food, it keeps the tail, and so
    /// grows by one; the food is placed on a cell free of this snake, or
    /// stays where it is when there is no such cell.
    pub open spec fn advanced(
        &self,
        snake: Snake,
        game_after: Game,
        snake_after: Snake,
        report: (RenderOp, FoodCheck),
    ) -> bool {
        let head = snake.head().stepped(snake.direction);
        &&& snake_after.direction == snake.direction
        &&& snake_after.color == snake.color
        &&& report.0 == RenderOp::Block(head, snake.color)
        &&& game_after == self.fed(report.1)
        &&& head != self.food ==> {
            &&& report.1 == FoodCheck::Released(snake.body@.last())
            &&& snake_after.body@ == snake.moved_body().drop_last()
            &&& snake_after.body@.len() == snake.body@.len()
        }
        &&& head == self.food ==> {
            &&& snake_after.body@ == snake.moved_body()
            &&& snake_after.body@.len() == snake.body@.len() + 1
            &&& match report.1 {
                FoodCheck::Placed(f) => self.free_at(f, snake.moved_body(), snake.moved_body()),
                FoodCheck::Exhausted => forall|g: Field| !#[trigger]
                    self.free_at(g, snake.moved_body(), snake.moved_body()),
                FoodCheck::Released(_) => false,
            }
        }
    }

    /// One tick of one snake: it moves, then the food is checked.
    pub fn advance(&mut self, snake: &mut Snake) -> (report: (RenderOp, FoodCheck))
        requires
            old(snake).body@.len() > 0,
            old(snake).head().can_step(old(snake).direction),
        ensures
            old(self).advanced(*old(snake), *final(self), *final(snake), report),
            old(snake).wf() ==> final(snake).wf(),
    {
        let drawn = snake.move_snake();
        let outcome = self.check_food(snake);
        (drawn, outcome)
    }

    /// What one tick does to two snakes: the first advances, then the
    /// second, in the game as the first left it; the game is over when they
    /// collide afterwards.
    pub open spec fn ticked(
        &self,
        snakes: Seq<Snake>,
        game_after: Game,
        snakes_after: Seq<Snake>,
        report: TickReport,
    ) -> bool {
        &&& snakes_after.len() == 2
        &&& self.advanced(snakes[0], self.fed(report.first.1), snakes_after[0], report.first)
        &&& self.fed(report.first.1).advanced(snakes[1], game_after, snakes_after[1], report.second)
        &&& report.endgame == game_after.collides(snakes_after)
    }

    /// Whether both of two snakes can move.
    pub open spec fn can_tick(snakes: Seq<Snake>) -> bool {
        &&& snakes.len() == 2
        &&& snakes[0].body@.len() > 0
        &&& snakes[0].head().can_step(snakes[0].direction)
        &&& snakes[1].body@.len() > 0
        &&& snakes[1].head().can_step(snakes[1].direction)
    }

    /// One tick of the simulation for two snakes.
    pub fn tick(&mut self, snakes: &mut Vec<Snake>) -> (report: TickReport)
        requires
            Self::can_tick(old(snakes)@),
        ensures
            old(self).ticked(old(snakes)@, *final(self), final(snakes)@, report),
    {
        let first = self.advance(&mut snakes[0]);
        let second = self.advance(&mut snakes[1]);
        let endgame = self.check_collisions(snakes);
        TickReport { first, second, endgame }
    }

    /// Whether every cell of `cells` has a place on the screen.
    pub fn all_fit_screen(&self, cells: &Vec<Field>) -> (ok: bool)
        ensures
            ok == self.all_on_screen(cells@),
    {
        let mut i: usize = 0;
        while i < cells.len()
            invariant
                i <= cells.len(),
                forall|k: int| 0 <= k < i ==> self.fits_screen(#[trigger] cells@[k]),
            decreases cells.len() - i,
        {
            let c = cells[i];
            if c.y.checked_add(self.game_area_start_y).is_none() || c.x.checked_add(
                self.game_area_start_x,
            ).is_none() {
                assert(!self.fits_screen(cells@[i as int]));
                return false;
            }
            i += 1;
        }
        true
    }

    /// Whether every screen cell of `cells` can be written relative to the
    /// arena.
    pub fn all_fit_arena(&self, cells: &Vec<Field>) -> (ok: bool)
        ensures
            ok == self.all_in_arena(cells@),
    {
        let mut i: usize = 0;
        while i < cells.len()
            invariant
                i <= cells.len(),
                forall|k: int| 0 <= k < i ==> self.fits_arena(#[trigger] cells@[k]),
            decreases cells.len() - i,
        {
            let c = cells[i];
            if c.y.checked_sub(self.game_area_start_y).is_none() || c.x.checked_sub(
                self.game_area_start_x,
            ).is_none() {
                assert(!self.fits_arena(cells@[i as int]));
                return false;
            }
            i += 1;
        }
        true
    }

    /// The row on which both snakes start: the arena's top row plus half
    /// its height, the half rounded towards zero.
    pub open spec fn start_row(&self) -> int {
        if self.game_area_height >= 0 {
            self.game_area_start_y + self.game_area_height / 2
        } else {
            self.game_area_start_y - (-self.game_area_height) / 2
        }
    }

    /// Whether the starting cells of both snakes are cells of the grid.
    pub open spec fn can_spawn(&self) -> bool {
        &&& i32::MIN <= self.start_row() <= i32::MAX
        &&& self.game_area_start_x + 2 <= i32::MAX
        &&& i32::MIN <= self.game_area_start_x + self.game_area_width - 3
        &&& self.game_area_start_x + self.game_area_width - 2 <= i32::MAX
    }

    /// Whether the starting cells of both snakes are cells of the grid.
    pub fn has_room_to_spawn(&self) -> (ok: bool)
        ensures
            ok == self.can_spawn(),
    {
        let row: i64 = self.game_area_start_y as i64 + (self.game_area_height / 2) as i64;
        let left: i64 = self.game_area_start_x as i64 + 2;
        let right: i64 = self.game_area_start_x as i64 + self.game_area_width as i64 - 3;
        i32::MIN as i64 <= row && row <= i32::MAX as i64 && left <= i32::MAX as i64 && i32::MIN as i64
            <= right && right + 1 <= i32::MAX as i64
    }

    /// The two snakes of a new game, both on the starting row: the first
    /// two columns inside the left wall and facing right, the second two
    /// columns inside the right wall and facing left.
    pub fn spawn_snakes(&self) -> (snakes: Vec<Snake>)
        requires
            self.can_spawn(),
        ensures
            snakes@.len() == 2,
            snakes@[0].body@ == seq![
                Field { y: self.start_row() as i32, x: (self.game_area_start_x + 2) as i32 },
                Field { y: self.start_row() as i32, x: (self.game_area_start_x + 1) as i32 },
            ],
            snakes@[0].direction == DIRECTION::Right,
            snakes@[0].color == COLOR_PAIR_SNK1,
            snakes@[1].body@ == seq![
                Field {
                    y: self.start_row() as i32,
                    x: (self.game_area_start_x + self.game_area_width - 3) as i32,
                },
                Field {
                    y: self.start_row() as i32,
                    x: (self.game_area_start_x + self.game_area_width - 2) as i32,
                },
            ],
            snakes@[1].direction == DIRECTION::Left,
            snakes@[1].color == COLOR_PAIR_SNK2,
    {
        let row: i32 = self.game_area_start_y + self.game_area_height / 2;
        let left: i64 = self.game_area_start_x as i64 + 2;
        let right: i64 = self.game_area_start_x as i64 + self.game_area_width as i64 - 3;
        let mut snakes: Vec<Snake> = Vec::new();
        snakes.push(Snake::new(row, left as i32, DIRECTION::Right, COLOR_PAIR_SNK1));
        snakes.push(Snake::new(row, right as i32, DIRECTION::Left, COLOR_PAIR_SNK2));
        snakes
    }
}

/// In a tick a snake grows exactly when its new head lies on the food, and
/// then by one segment; on every other tick its length stays as it was.
pub proof fn lemma_growth_only_on_food(
    game: Game,
    snake: Snake,
    game_after: Game,
    snake_after: Snake,
    report: (RenderOp, FoodCheck),
)
    requires
        snake.body@.len() > 0,
        game.advanced(snake, game_after, snake_after, report),
    ensures
        snake_after.body@.len() == snake.body@.len() + 1 <==> snake.head().stepped(snake.direction)
            == game.food,
        snake_after.body@.len() == snake.body@.len() <==> snake.head().stepped(snake.direction)
            != game.food,
        snake_after.body@.len() > snake.body@.len() ==> !(report.1 is Released),
        report.1 is Released ==> game_after == game,
{
}

/// A move followed by a food check that finds the head off the food leaves
/// the body as long as it was: the new head in front, the old body without
/// its tail behind it, and the old tail as the one cell that was given up.
pub proof fn lemma_move_then_miss(s: Snake)
    requires
        s.body@.len() > 0,
        s.head().can_step(s.direction),
    ensures
        s.moved_body().drop_last().len() == s.body@.len(),
        s.moved_body().drop_last() == seq![s.head().stepped(s.direction)] + s.body@.drop_last(),
        s.moved_body().last() == s.body@.last(),
{
    assert(s.moved_body().drop_last() =~= seq![s.head().stepped(s.direction)]
        + s.body@.drop_last());
}

/// Each of three things ends the game by itself: a snake whose head lies
/// on its own body, a snake whose head lies on the wall, and, of the first
/// two snakes, a head that lies on the other's body.
pub proof fn lemma_collision_causes(game: Game, snakes: Seq<Snake>, k: int)
    requires
        snakes.len() >= 2,
        0 <= k < snakes.len(),
    ensures
        snakes[k].bites_itself() ==> game.collides(snakes),
        game.on_border(snakes[k].head()) ==> game.collides(snakes),
        snakes[0].body@.contains(snakes[1].head()) ==> game.collides(snakes),
        snakes[1].body@.contains(snakes[0].head()) ==> game.collides(snakes),
{
}

/// Two snakes that are clear of themselves, of the wall and of each other
/// play on.
pub proof fn lemma_no_cause_no_collision(game: Game, snakes: Seq<Snake>)
    requires
        snakes.len() == 2,
        !snakes[0].bites_itself(),
        !snakes[1].bites_itself(),
        !game.on_border(snakes[0].head()),
        !game.on_border(snakes[1].head()),
        !snakes[0].body@.contains(snakes[1].head()),
        !snakes[1].body@.contains(snakes[0].head()),
    ensures
        !game.collides(snakes),
{
}

/// Among the cells drawn for the food at most one is the first free one.
pub proof fn lemma_first_free_draw_is_unique(
    game: Game,
    draws: Seq<Field>,
    i: int,
    k: int,
    forbidden1: Seq<Field>,
    forbidden2: Seq<Field>,
)
    requires
        game.is_first_free_draw(draws, i, forbidden1, forbidden2),
        game.is_first_free_draw(draws, k, forbidden1, forbidden2),
    ensures
        i == k,
{
}

/// A cell that `free_at` accepts lies in neither forbidden list, and inside
/// the wall.
pub proof fn lemma_free_cell_is_unoccupied(game: Game, f: Field, forbidden1: Seq<Field>, forbidden2: Seq<Field>)
    requires
        game.free_at(f, forbidden1, forbidden2),
    ensures
        forall|i: int| 0 <= i < forbidden1.len() ==> forbidden1[i] != f,
        forall|i: int| 0 <= i < forbidden2.len() ==> forbidden2[i] != f,
        !game.on_border(f),
{
}

} // verus!
