//! Food items and the random batches they come in.
use vstd::prelude::*;
use crate::geometry::{aligned, in_arena, Point, HEIGHT, UNIT, WIDTH};
use crate::random::draw_between;

verus! {

/// A piece of food on the grid.
#[derive(Clone, Copy, Debug, PartialEq, Eq, Structural)]
pub struct FoodItem {
    pub pos: Point,
}

/// The fewest items a new batch holds.
pub const MIN_BATCH: i32 = 5;

/// The most items a new batch holds.
pub const MAX_BATCH: i32 = 14;

/// A place where food may lie: a grid cell inside the arena.
pub open spec fn valid_food(p: Point) -> bool {
    aligned(p) && in_arena(p)
}

/// What every new batch satisfies: between `MIN_BATCH` and `MAX_BATCH` items,
/// each on a grid cell inside the arena.
pub open spec fn valid_batch(items: Seq<FoodItem>) -> bool {
    &&& MIN_BATCH <= items.len() <= MAX_BATCH
    &&& forall|i: int| 0 <= i < items.len() ==> valid_food(#[trigger] items[i].pos)
}

/// The food item on grid cell `(col, row)`.
pub fn food_at_cell(col: i32, row: i32) -> (r: FoodItem)
    requires
        0 <= col < WIDTH / UNIT,
        0 <= row < HEIGHT / UNIT,
    ensures
        r.pos == (Point { x: (col * UNIT) as i32, y: (row * UNIT) as i32 }),
        valid_food(r.pos),
{
    FoodItem { pos: Point { x: col * UNIT, y: row * UNIT } }
}

/// `(col, row)` names a grid cell of the arena.
pub open spec fn is_cell(c: (i32, i32)) -> bool {
    0 <= c.0 < WIDTH / UNIT && 0 <= c.1 < HEIGHT / UNIT
}

/// One food item on each of `cells`, in the same order: item `k` lies on cell
/// `cells[k]`. Cells may repeat; so do the items then.
pub fn items_from_cells(cells: &Vec<(i32, i32)>) -> (r: Vec<FoodItem>)
    requires
        forall|k: int| 0 <= k < cells@.len() ==> is_cell(#[trigger] cells@[k]),
    ensures
        r@.len() == cells@.len(),
        forall|k: int| 0 <= k < r@.len() ==> (#[trigger] r@[k]).pos
            == (Point { x: (cells@[k].0 * UNIT) as i32, y: (cells@[k].1 * UNIT) as i32 }),
        forall|k: int| 0 <= k < r@.len() ==> valid_food(#[trigger] r@[k].pos),
{
    let mut items: Vec<FoodItem> = Vec::new();
    let mut i: usize = 0;
    while i < cells.len()
        invariant
            0 <= i <= cells@.len(),
            forall|k: int| 0 <= k < cells@.len() ==> is_cell(#[trigger] cells@[k]),
            items@.len() == i,
            forall|k: int| 0 <= k < i ==> (#[trigger] items@[k]).pos
                == (Point { x: (cells@[k].0 * UNIT) as i32, y: (cells@[k].1 * UNIT) as i32 }),
            forall|k: int| 0 <= k < i ==> valid_food(#[trigger] items@[k].pos),
        decreases cells@.len() - i,
    {
        let (col, row) = cells[i];
        assert(is_cell(cells@[i as int]));
        items.push(food_at_cell(col, row));
        i = i + 1;
    }
    items
}

/// A new batch of food: a random count in `[MIN_BATCH, MAX_BATCH]`, each item
/// on a random cell of the arena. Items may coincide with each other or with
/// the snake.
pub fn generate_random_items(rng: &mut rand::rngs::StdRng) -> (r: Vec<FoodItem>)
    ensures
        valid_batch(r@),
{
    let count = draw_between(rng, MIN_BATCH, MAX_BATCH + 1);
    let mut cells: Vec<(i32, i32)> = Vec::new();
    let mut i: i32 = 0;
    while i < count
        invariant
            0 <= i <= count,
            MIN_BATCH <= count <= MAX_BATCH,
            cells@.len() == i,
            forall|k: int| 0 <= k < cells@.len() ==> is_cell(#[trigger] cells@[k]),
        decreases count - i,
    {
        let col = draw_between(rng, 0, WIDTH / UNIT);
        let row = draw_between(rng, 0, HEIGHT / UNIT);
        cells.push((col, row));
        i = i + 1;
    }
    items_from_cells(&cells)
}

} // verus!
